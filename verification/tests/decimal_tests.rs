use ddc_validator::decimal::{decimal_string, parse_u32, push_decimal};

#[test]
fn parse_plain_digits() {
    assert_eq!(parse_u32("123"), Some(123));
    assert_eq!(parse_u32("0"), Some(0));
    assert_eq!(parse_u32("007"), Some(7));
}

#[test]
fn parse_accepts_one_plus_sign() {
    assert_eq!(parse_u32("+42"), Some(42));
    assert_eq!(parse_u32("+"), None);
    assert_eq!(parse_u32("++1"), None);
}

#[test]
fn parse_rejects_what_str_parse_rejects() {
    assert_eq!(parse_u32(""), None);
    assert_eq!(parse_u32("-1"), None);
    assert_eq!(parse_u32("-0"), None);
    assert_eq!(parse_u32("12a"), None);
    assert_eq!(parse_u32(" 12"), None);
    assert_eq!(parse_u32("1.5"), None);
    assert_eq!(parse_u32("١٢"), None);
}

#[test]
fn parse_edges_of_u32() {
    assert_eq!(parse_u32("4294967295"), Some(u32::MAX));
    assert_eq!(parse_u32("4294967296"), None);
    assert_eq!(parse_u32("99999999999999999999"), None);
    assert_eq!(parse_u32("00000000000000000004294967295"), Some(u32::MAX));
}

#[test]
fn parse_agrees_with_std() {
    for s in ["1", "+1", "", "+", "-3", "65536", "4294967295", "4294967296", "x", "0x10", "0009"] {
        assert_eq!(parse_u32(s), s.parse::<u32>().ok(), "input {:?}", s);
    }
}

#[test]
fn decimal_text_of_numbers() {
    assert_eq!(decimal_string(0), "0");
    assert_eq!(decimal_string(9), "9");
    assert_eq!(decimal_string(10), "10");
    assert_eq!(decimal_string(1234567890123), "1234567890123");
    assert_eq!(decimal_string(u64::MAX), u64::MAX.to_string());
}

#[test]
fn push_decimal_appends() {
    let mut s = String::from("era ");
    push_decimal(&mut s, 305);
    assert_eq!(s, "era 305");
}

#[test]
fn decimal_round_trip_on_u32() {
    for n in [0u32, 1, 9, 10, 99, 100, 65535, 1_000_000, u32::MAX - 1, u32::MAX] {
        assert_eq!(parse_u32(&decimal_string(n as u64)), Some(n));
    }
}
