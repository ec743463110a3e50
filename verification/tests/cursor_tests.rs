use cdc_pipeline::cursor::{format_cursor, parse_cursor_height};
use cdc_pipeline::digits::{parse_u64, u128_to_dec, u64_to_dec};

#[test]
fn renders_decimal_numerals() {
    assert_eq!(u64_to_dec(0), "0");
    assert_eq!(u64_to_dec(7), "7");
    assert_eq!(u64_to_dec(1089), "1089");
    assert_eq!(u64_to_dec(u64::MAX), "18446744073709551615");
    assert_eq!(u128_to_dec(340282366920938463463374607431768211455), "340282366920938463463374607431768211455");
}

#[test]
fn parses_decimal_numerals() {
    assert_eq!(parse_u64("0"), Some(0));
    assert_eq!(parse_u64("98765432"), Some(98765432));
    assert_eq!(parse_u64("007"), Some(7));
    assert_eq!(parse_u64("18446744073709551615"), Some(u64::MAX));
    assert_eq!(parse_u64("18446744073709551616"), None);
    assert_eq!(parse_u64(""), None);
    assert_eq!(parse_u64("12a4"), None);
}

#[test]
fn renders_cursor_from_height() {
    assert_eq!(format_cursor(0), "0-0");
    assert_eq!(format_cursor(112233), "112233-0");
}

#[test]
fn parses_height_before_first_dash() {
    assert_eq!(parse_cursor_height("112233-0"), Some(112233));
    assert_eq!(parse_cursor_height("98765432-17"), Some(98765432));
    assert_eq!(parse_cursor_height("5-1-2"), Some(5));
}

#[test]
fn rejects_cursors_without_a_height() {
    assert_eq!(parse_cursor_height("112233"), None);
    assert_eq!(parse_cursor_height("-0"), None);
    assert_eq!(parse_cursor_height("abc-0"), None);
    assert_eq!(parse_cursor_height("18446744073709551616-0"), None);
}

#[test]
fn cursor_round_trip() {
    for h in [0u64, 1, 99, 100000, u64::MAX] {
        assert_eq!(parse_cursor_height(&format_cursor(h)), Some(h));
    }
}
