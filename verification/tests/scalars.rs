use datelike::scalar::{as_decimal, as_hex};

#[test]
fn decimal_literals() {
    assert_eq!(as_decimal("0"), Some(0));
    assert_eq!(as_decimal("100"), Some(100));
    assert_eq!(as_decimal("-100"), Some(-100));
    assert_eq!(as_decimal("+100"), Some(100));
    assert_eq!(as_decimal("-0"), Some(0));
    assert_eq!(as_decimal("007"), Some(7));
    assert_eq!(as_decimal("1234567890"), Some(1_234_567_890));
}

#[test]
fn decimal_bounds() {
    assert_eq!(as_decimal("9223372036854775807"), Some(i64::MAX));
    assert_eq!(as_decimal("9223372036854775808"), None);
    assert_eq!(as_decimal("-9223372036854775808"), Some(i64::MIN));
    assert_eq!(as_decimal("-9223372036854775809"), None);
    assert_eq!(as_decimal("00000000000000000000000000009223372036854775807"), Some(i64::MAX));
    assert_eq!(as_decimal("99999999999999999999999999999999999999999999"), None);
}

#[test]
fn decimal_rejects_what_is_no_literal() {
    assert_eq!(as_decimal(""), None);
    assert_eq!(as_decimal("-"), None);
    assert_eq!(as_decimal("+"), None);
    assert_eq!(as_decimal("--1"), None);
    assert_eq!(as_decimal("+-1"), None);
    assert_eq!(as_decimal(" 1"), None);
    assert_eq!(as_decimal("1 "), None);
    assert_eq!(as_decimal("1\n"), None);
    assert_eq!(as_decimal("1_000"), None);
    assert_eq!(as_decimal("1a"), None);
    assert_eq!(as_decimal("1.0"), None);
    assert_eq!(as_decimal("1e3"), None);
    assert_eq!(as_decimal("\u{661}"), None);
    assert_eq!(as_decimal("999999999999999999999x"), None);
}

#[test]
fn hex_literals() {
    assert_eq!(as_hex("1a"), Some(26));
    assert_eq!(as_hex("1A"), Some(26));
    assert_eq!(as_hex("100"), Some(256));
    assert_eq!(as_hex("-1a"), Some(-26));
    assert_eq!(as_hex("+ff"), Some(255));
    assert_eq!(as_hex("DeadBeef"), Some(0xdead_beef));
    assert_eq!(as_hex("0"), Some(0));
}

#[test]
fn hex_bounds() {
    assert_eq!(as_hex("7fffffffffffffff"), Some(i64::MAX));
    assert_eq!(as_hex("8000000000000000"), None);
    assert_eq!(as_hex("-8000000000000000"), Some(i64::MIN));
    assert_eq!(as_hex("-8000000000000001"), None);
    assert_eq!(as_hex("00007FFFFFFFFFFFFFFF"), Some(i64::MAX));
    assert_eq!(as_hex("ffffffffffffffffffffffff"), None);
}

#[test]
fn hex_rejects_what_is_no_literal() {
    assert_eq!(as_hex(""), None);
    assert_eq!(as_hex("-"), None);
    assert_eq!(as_hex("0x1a"), None);
    assert_eq!(as_hex("1g"), None);
    assert_eq!(as_hex(" 1a"), None);
    assert_eq!(as_hex("1a "), None);
    assert_eq!(as_hex("33c41a44-6cea-11e7-907b-a6006ad3dba0"), None);
    assert_eq!(as_hex("\u{e9}"), None);
}

#[test]
fn scalars_agree_with_the_standard_readers() {
    let texts = vec![
        "", "0", "-", "+", "+0", "-0", "1", "12", "-12", "+12", "a", "A", "g", "ff", "FF", "-ff",
        "0x10", "1e5", "1.5", " 5", "5 ", "٣", "9223372036854775807", "9223372036854775808",
        "-9223372036854775808", "-9223372036854775809", "7fffffffffffffff", "8000000000000000",
        "-8000000000000000", "-8000000000000001", "0000000000000000000000000000000000001",
        "18446744073709551616", "10000000000000000", "१२३", "1-2", "1+2", "++1", "abcdefABCDEF",
    ];
    for text in texts {
        assert_eq!(as_decimal(text), text.parse::<i64>().ok(), "{:?}", text);
        assert_eq!(as_hex(text), i64::from_str_radix(text, 16).ok(), "{:?}", text);
    }
}
