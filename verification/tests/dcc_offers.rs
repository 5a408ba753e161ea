use rusty_book_pirate::dcc::{Dcc, DccError, DccTransfer};
use rusty_book_pirate::text::IntErrorKind;

#[test]
fn offer_numbers_are_read_from_the_last_three_words() {
    let d = Dcc::from_msg("DCC SEND \"A Book.epub\" 3232235777 5000 12345").unwrap();
    assert_eq!(d.ip(), 3232235777);
    assert_eq!(d.port(), 5000);
    assert_eq!(d.size(), 12345);
    assert_eq!(d.msg, "DCC SEND \"A Book.epub\" 3232235777 5000 12345");
    assert_eq!(d.msg(), "DCC SEND \"A Book.epub\" 3232235777 5000 12345");
}

#[test]
fn size_word_with_a_unit_is_read() {
    let d = Dcc::from_msg("SEND book.epub 1 2 42bytes").unwrap();
    assert_eq!(d.size(), 42);
}

#[test]
fn size_is_read_from_its_leading_digits() {
    // IRC ends a CTCP message with \x01, which follows the size.
    let d = Dcc::from_msg("\u{1}DCC SEND book.epub 16909060 1024 987\u{1}").unwrap();
    assert_eq!(d.ip(), 16909060);
    assert_eq!(d.port(), 1024);
    assert_eq!(d.size(), 987);
}

#[test]
fn whitespace_of_any_kind_separates_words() {
    let d = Dcc::from_msg("SEND x\t1\u{3000}2\n3").unwrap();
    assert_eq!((d.ip(), d.port(), d.size()), (1, 2, 3));
}

#[test]
fn a_plus_sign_is_accepted() {
    let d = Dcc::from_msg("SEND x +7 +8 9").unwrap();
    assert_eq!((d.ip(), d.port(), d.size()), (7, 8, 9));
}

#[test]
fn malformed_address_is_an_invalid_digit() {
    assert!(matches!(
        Dcc::from_msg("SEND x 12a 5000 10"),
        Err(DccError::IntError(IntErrorKind::InvalidDigit))
    ));
    assert!(matches!(
        Dcc::from_msg("SEND x -1 5000 10"),
        Err(DccError::IntError(IntErrorKind::InvalidDigit))
    ));
    assert!(matches!(
        Dcc::from_msg("SEND x + 5000 10"),
        Err(DccError::IntError(IntErrorKind::InvalidDigit))
    ));
}

#[test]
fn port_above_u16_overflows() {
    assert!(matches!(
        Dcc::from_msg("SEND x 1 65536 10"),
        Err(DccError::IntError(IntErrorKind::PosOverflow))
    ));
    let d = Dcc::from_msg("SEND x 1 65535 10").unwrap();
    assert_eq!(d.port(), 65535);
}

#[test]
fn address_above_u32_overflows() {
    assert!(matches!(
        Dcc::from_msg("SEND x 4294967296 1 10"),
        Err(DccError::IntError(IntErrorKind::PosOverflow))
    ));
    // The overflow comes before the later bad char.
    assert!(matches!(
        Dcc::from_msg("SEND x 99999999999z 1 10"),
        Err(DccError::IntError(IntErrorKind::PosOverflow))
    ));
}

#[test]
fn size_without_leading_digits_is_empty() {
    assert!(matches!(
        Dcc::from_msg("SEND x 1 2 bytes"),
        Err(DccError::IntError(IntErrorKind::Empty))
    ));
}

#[test]
fn non_ascii_numeric_size_is_an_invalid_digit() {
    // '²' is numeric, so it is part of the size text, but it is no decimal digit.
    assert!(matches!(
        Dcc::from_msg("SEND x 1 2 12²"),
        Err(DccError::IntError(IntErrorKind::InvalidDigit))
    ));
}

#[test]
fn the_first_malformed_number_gives_the_error() {
    assert!(matches!(
        Dcc::from_msg("SEND x 1 99999 y"),
        Err(DccError::IntError(IntErrorKind::PosOverflow))
    ));
}

#[test]
fn transfer_acknowledges_bytes_received() {
    let mut t = DccTransfer::new(10);
    assert_eq!(t.receive(vec![1, 2, 3, 4]), (4, false));
    assert_eq!(t.receive(vec![]), (4, false));
    assert_eq!(t.receive(vec![5, 6, 7, 8, 9, 10]), (10, true));
    assert_eq!(t.into_file(), vec![1, 2, 3, 4, 5, 6, 7, 8, 9, 10]);
}

#[test]
fn transfer_of_empty_file_is_complete_at_once() {
    let mut t = DccTransfer::new(0);
    assert_eq!(t.receive(vec![]), (0, true));
}

#[test]
fn transfer_beyond_size_is_complete() {
    let mut t = DccTransfer::new(2);
    assert_eq!(t.receive(vec![0; 5]), (5, true));
}
