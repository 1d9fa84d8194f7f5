//! The numeric literal decoder under both rule sets.

use atdf::err::Error;
use atdf::num::parse;
use atdf::num::parse_uint;

#[test]
fn addr_hex() {
    assert_eq!(parse_uint("0x1F").unwrap(), 31);
}

#[test]
fn addr_hex_upper_prefix() {
    assert_eq!(parse_uint("0X1f").unwrap(), 31);
}

#[test]
fn addr_binary() {
    assert_eq!(parse_uint("0b101").unwrap(), 5);
}

#[test]
fn addr_octal_prefixed() {
    assert_eq!(parse_uint("0o17").unwrap(), 15);
}

#[test]
fn addr_octal_leading_zero() {
    assert_eq!(parse_uint("017").unwrap(), 15);
}

#[test]
fn addr_decimal() {
    assert_eq!(parse_uint("42").unwrap(), 42);
}

#[test]
fn addr_zero_alone() {
    assert_eq!(parse_uint("0").unwrap(), 0);
}

#[test]
fn index_zero_alone() {
    assert_eq!(parse("0").unwrap(), 0);
}

#[test]
fn index_leading_zero_is_decimal() {
    assert_eq!(parse("017").unwrap(), 17);
}

#[test]
fn index_hex() {
    assert_eq!(parse("0x1F").unwrap(), 31);
}

#[test]
fn index_binary() {
    assert_eq!(parse("0b101").unwrap(), 5);
}

#[test]
fn index_octal_prefixed() {
    assert_eq!(parse("0o17").unwrap(), 15);
}

#[test]
fn addr_decimal_max() {
    assert_eq!(parse_uint("4294967295").unwrap(), 4294967295);
}

#[test]
fn addr_overflow_rejected() {
    assert!(matches!(parse_uint("4294967296"), Err(Error::InvalidLiteral(s)) if s == "4294967296"));
}

#[test]
fn addr_bad_hex_digit_rejected() {
    assert!(matches!(parse_uint("0x1G"), Err(Error::InvalidLiteral(_))));
}

#[test]
fn addr_bad_octal_digit_rejected() {
    assert!(matches!(parse_uint("09"), Err(Error::InvalidLiteral(_))));
}

#[test]
fn index_empty_rejected() {
    assert!(matches!(parse(""), Err(Error::InvalidLiteral(_))));
}

#[test]
fn addr_bare_prefix_rejected() {
    assert!(matches!(parse_uint("0x"), Err(Error::InvalidLiteral(_))));
}
