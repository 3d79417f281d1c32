use pbrs::text::{join, parse_i32, same_text};

#[test]
fn same_text_compares_characters() {
    assert!(same_text("message", "message"));
    assert!(same_text("", ""));
    assert!(!same_text("message", "messages"));
    assert!(!same_text("message", "massage"));
    assert!(!same_text("a", ""));
    assert!(same_text("é{", "é{"));
    assert!(!same_text("é", "e"));
}

#[test]
fn parse_i32_reads_decimal_numbers() {
    assert_eq!(parse_i32("0"), Some(0));
    assert_eq!(parse_i32("1"), Some(1));
    assert_eq!(parse_i32("42"), Some(42));
    assert_eq!(parse_i32("007"), Some(7));
    assert_eq!(parse_i32("+5"), Some(5));
    assert_eq!(parse_i32("-5"), Some(-5));
    assert_eq!(parse_i32("-0"), Some(0));
}

#[test]
fn parse_i32_bounds() {
    assert_eq!(parse_i32("2147483647"), Some(i32::MAX));
    assert_eq!(parse_i32("-2147483648"), Some(i32::MIN));
    assert_eq!(parse_i32("2147483648"), None);
    assert_eq!(parse_i32("-2147483649"), None);
    assert_eq!(parse_i32("99999999999999999999999999"), None);
    assert_eq!(parse_i32("00000000000000000000000001"), Some(1));
}

#[test]
fn parse_i32_refuses_what_is_no_number() {
    assert_eq!(parse_i32(""), None);
    assert_eq!(parse_i32("+"), None);
    assert_eq!(parse_i32("-"), None);
    assert_eq!(parse_i32(" 1"), None);
    assert_eq!(parse_i32("1 "), None);
    assert_eq!(parse_i32("1a"), None);
    assert_eq!(parse_i32("a1"), None);
    assert_eq!(parse_i32("--1"), None);
    assert_eq!(parse_i32("1_000"), None);
    assert_eq!(parse_i32("٣"), None);
}

#[test]
fn parse_i32_agrees_with_std() {
    let samples = [
        "0", "12", "-12", "+12", "", "+", "-", "2147483647", "2147483648", "-2147483648",
        "-2147483649", "0x10", "1e3", "１２", "000", "-000", "+-1", "12345678901",
    ];
    for s in samples {
        assert_eq!(parse_i32(s), s.parse::<i32>().ok(), "{}", s);
    }
}

#[test]
fn join_puts_separator_between() {
    let parts = vec!["a".to_string(), "b".to_string(), "c".to_string()];

    assert_eq!(join(&parts, ", "), "a, b, c");
}

#[test]
fn join_of_one_and_none() {
    assert_eq!(join(&vec!["a".to_string()], ","), "a");
    assert_eq!(join(&Vec::new(), ","), "");
    assert_eq!(join(&vec!["".to_string(), "".to_string()], ","), ",");
}
