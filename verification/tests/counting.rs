use textutils::numerals::{format_field, parse_u32, to_decimal};
use textutils::text::{count_words, str_eq};
use textutils::wc_open::{is_stdin_token, FileError};

#[test]
fn words_of_whitespace_only_line() {
    assert_eq!(count_words("   \t  "), 0);
    assert_eq!(count_words(""), 0);
}

#[test]
fn words_of_spaced_line() {
    assert_eq!(count_words("a  b   c"), 3);
}

#[test]
fn words_ignore_leading_and_trailing_whitespace() {
    assert_eq!(count_words("  one two\n"), 2);
    assert_eq!(count_words("single"), 1);
}

#[test]
fn decimal_rendering() {
    assert_eq!(to_decimal(0), "0");
    assert_eq!(to_decimal(7), "7");
    assert_eq!(to_decimal(1234567890), "1234567890");
    assert_eq!(to_decimal(u64::MAX), "18446744073709551615");
}

#[test]
fn field_padding() {
    assert_eq!(format_field(42, 8), "      42");
    assert_eq!(format_field(0, 8), "       0");
    assert_eq!(format_field(123456789, 8), "123456789");
    assert_eq!(format_field(5, 6), "     5");
}

#[test]
fn parsing_numbers() {
    assert_eq!(parse_u32("10"), Some(10));
    assert_eq!(parse_u32("0"), Some(0));
    assert_eq!(parse_u32("007"), Some(7));
    assert_eq!(parse_u32("4294967295"), Some(u32::MAX));
    assert_eq!(parse_u32("4294967296"), None);
    assert_eq!(parse_u32("99999999999999999999"), None);
    assert_eq!(parse_u32(""), None);
    assert_eq!(parse_u32("12a"), None);
    assert_eq!(parse_u32("-3"), None);
}

#[test]
fn string_equality() {
    assert!(str_eq("abc", "abc"));
    assert!(!str_eq("abc", "abd"));
    assert!(!str_eq("abc", "ab"));
    assert!(str_eq("", ""));
}

#[test]
fn stdin_token() {
    assert!(is_stdin_token("-"));
    assert!(!is_stdin_token("--"));
    assert!(!is_stdin_token("file"));
    assert!(!is_stdin_token(""));
}

#[test]
fn open_error_message() {
    let e = FileError::NotFound("missing.txt".to_string(), "no such file".to_string());
    assert_eq!(e.message(), "missing.txt: no such file");
}
