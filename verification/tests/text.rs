use range_download::text::{contains, decimal, found_at, parse_u64, push_decimal, range_header};

#[test]
fn parses_plain_numbers() {
    assert_eq!(parse_u64(b"0"), Some(0));
    assert_eq!(parse_u64(b"1000"), Some(1000));
    assert_eq!(parse_u64(b"007"), Some(7));
    assert_eq!(parse_u64(b"18446744073709551615"), Some(u64::MAX));
}

#[test]
fn parses_a_leading_plus() {
    assert_eq!(parse_u64(b"+5"), Some(5));
    assert_eq!(parse_u64(b"+"), None);
    assert_eq!(parse_u64(b"++5"), None);
}

#[test]
fn refuses_what_is_no_number() {
    assert_eq!(parse_u64(b""), None);
    assert_eq!(parse_u64(b"12a"), None);
    assert_eq!(parse_u64(b" 12"), None);
    assert_eq!(parse_u64(b"12 "), None);
    assert_eq!(parse_u64(b"-1"), None);
    assert_eq!(parse_u64(b"1.5"), None);
}

#[test]
fn refuses_numbers_that_do_not_fit() {
    assert_eq!(parse_u64(b"18446744073709551616"), None);
    assert_eq!(parse_u64(b"99999999999999999999999"), None);
    assert_eq!(parse_u64(b"18446744073709551616x"), None);
}

#[test]
fn parsing_agrees_with_the_standard_library() {
    let samples: [&str; 9] = ["0", "+0", "42", "+42", "0042", "", "+", "4 2", "18446744073709551615"];
    for s in samples {
        assert_eq!(parse_u64(s.as_bytes()), s.parse::<u64>().ok());
    }
}

#[test]
fn writes_decimal_digits() {
    assert_eq!(decimal(0), b"0".to_vec());
    assert_eq!(decimal(9), b"9".to_vec());
    assert_eq!(decimal(10), b"10".to_vec());
    assert_eq!(decimal(665), b"665".to_vec());
    assert_eq!(decimal(u64::MAX), b"18446744073709551615".to_vec());
}

#[test]
fn push_decimal_keeps_what_was_there() {
    let mut out = b"n=".to_vec();
    push_decimal(&mut out, 120);
    assert_eq!(out, b"n=120".to_vec());
}

#[test]
fn digits_read_back() {
    for n in [0u64, 1, 9, 10, 99, 100, 12345, u64::MAX - 1, u64::MAX] {
        assert_eq!(parse_u64(&decimal(n)), Some(n));
    }
}

#[test]
fn range_header_names_both_ends() {
    assert_eq!(range_header(0, 332), b"bytes=0-332".to_vec());
    assert_eq!(range_header(333, 665), b"bytes=333-665".to_vec());
    assert_eq!(range_header(0, 0), b"bytes=0-0".to_vec());
    assert_eq!(
        range_header(u64::MAX, u64::MAX),
        b"bytes=18446744073709551615-18446744073709551615".to_vec()
    );
}

#[test]
fn finds_a_needle_at_a_position() {
    assert!(found_at(b"hello", b"ell", 1));
    assert!(!found_at(b"hello", b"ell", 0));
    assert!(!found_at(b"hello", b"llo!", 2));
    assert!(found_at(b"hello", b"", 5));
    assert!(!found_at(b"hello", b"", 6));
    assert!(!found_at(b"hi", b"hello", 0));
}

#[test]
fn finds_a_needle_anywhere() {
    assert!(contains(b"hello", b"hello"));
    assert!(contains(b"hello", b"lo"));
    assert!(contains(b"hello", b"h"));
    assert!(contains(b"hello", b""));
    assert!(contains(b"", b""));
    assert!(!contains(b"hello", b"help"));
    assert!(!contains(b"", b"a"));
    assert!(!contains(b"aab", b"abb"));
    assert!(contains(b"aaab", b"aab"));
}
