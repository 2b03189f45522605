use twelve_client::text::{
    chars_of, decimal_i64, decimal_u64, parse_usize, range_equals, string_of_range,
    to_ascii_uppercase, trim,
};

#[test]
fn trim_removes_ascii_and_unicode_white_space() {
    assert_eq!(trim("  hello \n"), "hello");
    assert_eq!(trim("\t\r\n x y \u{3000}\u{a0}"), "x y");
    assert_eq!(trim(""), "");
    assert_eq!(trim(" \n\t "), "");
    assert_eq!(trim("abc"), "abc");
}

#[test]
fn uppercase_changes_only_ascii_letters() {
    assert_eq!(to_ascii_uppercase("abc-XYZ_09"), "ABC-XYZ_09");
    assert_eq!(to_ascii_uppercase("ß é z"), "ß é Z");
    assert_eq!(to_ascii_uppercase("ba7816bf"), "BA7816BF");
}

#[test]
fn decimal_rendering() {
    assert_eq!(decimal_u64(0), "0");
    assert_eq!(decimal_u64(7), "7");
    assert_eq!(decimal_u64(1151823), "1151823");
    assert_eq!(decimal_u64(u64::MAX), "18446744073709551615");
    assert_eq!(decimal_i64(-42), "-42");
    assert_eq!(decimal_i64(4221647), "4221647");
    assert_eq!(decimal_i64(i64::MIN), "-9223372036854775808");
    assert_eq!(decimal_i64(i64::MAX), "9223372036854775807");
}

#[test]
fn parse_like_std() {
    for s in ["0", "1", "+5", "007", "42", "18446744073709551615", "18446744073709551616",
              "", "+", "-5", "-0", " 7", "7 ", "1a", "٣", "++1"] {
        assert_eq!(parse_usize(s), s.parse::<usize>().ok(), "input {:?}", s);
    }
}

#[test]
fn parse_reads_back_decimal() {
    for n in [0u64, 1, 9, 10, 99, 100, 12345, 4294967295, 18446744073709551615] {
        assert_eq!(parse_usize(&decimal_u64(n)), Some(n as usize));
    }
}

#[test]
fn char_ranges() {
    let v = chars_of("héllo=wörld");
    assert_eq!(v.len(), 11);
    assert_eq!(string_of_range(&v, 6, 11), "wörld");
    assert!(range_equals(&v, 0, 5, &chars_of("héllo")));
    assert!(!range_equals(&v, 0, 5, &chars_of("hello")));
    assert!(!range_equals(&v, 0, 4, &chars_of("héllo")));
}
