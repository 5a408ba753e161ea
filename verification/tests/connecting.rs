use rusty_book_pirate::connection::{contains_str, is_welcome, nickname, option_fields, timed_out};

#[test]
fn server_option_has_three_fields() {
    assert_eq!(
        option_fields("irc.irchighway.net, #ebooks, @Search"),
        vec!["irc.irchighway.net".to_string(), "#ebooks".to_string(), "@Search".to_string()]
    );
    assert_eq!(
        option_fields("irc.irchighway.net, #ebooks, @Searchook"),
        vec!["irc.irchighway.net".to_string(), "#ebooks".to_string(), "@Searchook".to_string()]
    );
}

#[test]
fn fields_split_like_str_split() {
    for s in ["", "a", ", ", ",, ", "a,b, c", ", , ", "a , b", "a,  b"] {
        let expected: Vec<String> = s.split(", ").map(|x| x.to_string()).collect();
        assert_eq!(option_fields(s), expected, "splitting {:?}", s);
    }
}

#[test]
fn welcome_notice_is_recognized() {
    assert!(is_welcome("[#ebooks] Welcome to #ebooks, read the rules"));
    assert!(!is_welcome("Welcome to #other"));
    assert!(!is_welcome(""));
}

#[test]
fn contains_finds_any_occurrence() {
    assert!(contains_str("abcabd", "abd"));
    assert!(contains_str("abc", ""));
    assert!(contains_str("", ""));
    assert!(!contains_str("ab", "abc"));
    assert!(!contains_str("abcab", "ba"));
}

#[test]
fn nickname_is_rbp_and_decimal() {
    assert_eq!(nickname(0), "RBP0");
    assert_eq!(nickname(4711), "RBP4711");
    assert_eq!(nickname(65535), "RBP65535");
}

#[test]
fn zero_timeout_never_expires() {
    assert!(!timed_out(0, 0));
    assert!(!timed_out(0, 60));
    assert!(!timed_out(0, u64::MAX));
}

#[test]
fn timeout_expires_once_reached() {
    assert!(!timed_out(60, 59));
    assert!(timed_out(60, 60));
    assert!(timed_out(60, 61));
    assert!(timed_out(60, 3600));
}
