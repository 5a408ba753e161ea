use rusty_book_pirate::reply::{download_path, file_name, is_reply, MatcherError, ReplyMatcher};

const OFFER: &str = "\u{1}DCC SEND \"Jane Austen - Emma.epub\" 3232235777 5000 12345\u{1}";

#[test]
fn offer_matches_the_send_pattern() {
    let m = ReplyMatcher::send_offer().unwrap();
    assert!(m.is_match(OFFER));
    assert!(m.is_match("dcc send book.txt 1 2 3"));
    assert!(!m.is_match("Your search is queued"));
    assert!(!m.is_match("DCC SEND 12345 1 2"));
}

#[test]
fn file_name_is_the_first_group() {
    let m = ReplyMatcher::send_offer().unwrap();
    assert_eq!(file_name(&m, OFFER), Some("Jane Austen - Emma.epub".to_string()));
    assert_eq!(file_name(&m, "DCC SEND book.txt 1 2 3"), Some("book.txt".to_string()));
    assert_eq!(file_name(&m, "no offer here"), None);
}

#[test]
fn reply_must_be_addressed_to_the_session() {
    let m = ReplyMatcher::send_offer().unwrap();
    let me = "RBP123".to_string();
    assert!(is_reply(&m, &me, &"RBP123".to_string(), &OFFER.to_string()));
    assert!(!is_reply(&m, &me, &"#ebooks".to_string(), &OFFER.to_string()));
    assert!(!is_reply(&m, &me, &"RBP123".to_string(), &"hello".to_string()));
}

#[test]
fn bad_pattern_is_an_error() {
    assert!(matches!(ReplyMatcher::new("(unclosed"), Err(MatcherError::Pattern(_))));
    let m = ReplyMatcher::new("^a+$").unwrap();
    assert!(m.is_match("aaa"));
    assert!(!m.is_match("ab"));
}

#[test]
fn download_path_joins_directory_and_name() {
    assert_eq!(
        download_path(&"./".to_string(), &"Emma.epub".to_string()),
        ".//Emma.epub"
    );
    assert_eq!(download_path(&"books".to_string(), &"a b".to_string()), "books/a b");
}
