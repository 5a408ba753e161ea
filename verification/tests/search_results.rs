use std::io::Write;

use rusty_book_pirate::search::{
    filter_by_sources, listing_lines_start_ascii, parse_search, results_from_listing,
    source_name, SearchError,
};

fn zip_of(text: &[u8], method: zip::CompressionMethod) -> Vec<u8> {
    let mut w = zip::ZipWriter::new(std::io::Cursor::new(Vec::new()));
    let options = zip::write::FileOptions::default().compression_method(method);
    w.start_file("SearchBot_results.txt", options).unwrap();
    w.write_all(text).unwrap();
    w.finish().unwrap().into_inner()
}

const LISTING: &[u8] = b"Search results from SearchBot\r\n\
Matches for: austen\r\n\
\r\n\
!Bsk Jane Austen - Emma.epub  ::INFO:: 1.2MB\r\n\
!Dragon Jane Austen - Persuasion.mobi\n\
\x20 !not at the start\n\
!Last line without newline";

#[test]
fn results_are_the_lines_starting_with_bang() {
    let results = results_from_listing(LISTING);
    assert_eq!(
        results,
        vec![
            "!Bsk Jane Austen - Emma.epub  ::INFO:: 1.2MB".to_string(),
            "!Dragon Jane Austen - Persuasion.mobi".to_string(),
            "!Last line without newline".to_string(),
        ]
    );
}

#[test]
fn lines_that_are_not_utf8_are_skipped() {
    let results = results_from_listing(b"!ok\n!bad \xff\xfe\n!fine\n");
    assert_eq!(results, vec!["!ok".to_string(), "!fine".to_string()]);
}

#[test]
fn carriage_return_is_kept_without_newline() {
    let results = results_from_listing(b"!a\r");
    assert_eq!(results, vec!["!a\r".to_string()]);
}

#[test]
fn empty_listing_has_no_results() {
    assert!(results_from_listing(b"").is_empty());
    assert!(results_from_listing(b"\n\n").is_empty());
}

#[test]
fn line_starts_are_checked() {
    assert!(listing_lines_start_ascii(LISTING));
    assert!(listing_lines_start_ascii(b"!a\n\xff\xfe\n"));
    assert!(!listing_lines_start_ascii("ok\n\u{e9}t\u{e9}\n".as_bytes()));
}

#[test]
fn search_archive_is_read() {
    let stored = zip_of(LISTING, zip::CompressionMethod::Stored);
    let results = parse_search(&stored).unwrap();
    assert_eq!(results.len(), 3);
    assert_eq!(results[1], "!Dragon Jane Austen - Persuasion.mobi");
    let sources: Vec<String> = results.iter().map(source_name).collect();
    assert_eq!(sources, vec!["Bsk".to_string(), "Dragon".to_string(), "Last".to_string()]);
    let deflated = zip_of(LISTING, zip::CompressionMethod::Deflated);
    assert_eq!(parse_search(&deflated).unwrap(), results);
}

#[test]
fn not_an_archive_is_an_error() {
    assert!(matches!(parse_search(b"!this is no zip"), Err(SearchError::Archive(_))));
}

#[test]
fn non_ascii_line_start_is_an_error() {
    let z = zip_of("!a b\n\u{e9}t\u{e9}\n".as_bytes(), zip::CompressionMethod::Stored);
    assert!(matches!(parse_search(&z), Err(SearchError::LineStart)));
}

#[test]
fn source_is_first_word_without_bang() {
    assert_eq!(source_name(&"!Bsk Jane Austen - Emma.epub".to_string()), "Bsk");
    assert_eq!(source_name(&"  !x".to_string()), "x");
    assert_eq!(source_name(&"!".to_string()), "");
}

#[test]
fn results_of_offline_sources_are_dropped() {
    let results = vec![
        "!Bsk Emma.epub".to_string(),
        "!Gone Emma.mobi".to_string(),
        "!Dragon Persuasion.epub".to_string(),
        "!Bsk Persuasion.mobi".to_string(),
    ];
    let users = vec!["Dragon".to_string(), "Bsk".to_string(), "someone".to_string()];
    assert_eq!(
        filter_by_sources(&results, &users),
        vec![
            "!Bsk Emma.epub".to_string(),
            "!Dragon Persuasion.epub".to_string(),
            "!Bsk Persuasion.mobi".to_string(),
        ]
    );
    assert!(filter_by_sources(&results, &vec![]).is_empty());
}
