//! Tests of the argument value parsing.

use yayagram::args::{parse_size, parse_squared_size, parse_u16, Arg};
use yayagram::terminal::util::Size;
use yayagram::util::is_numeric;

#[test]
fn test_parse_squared_size() {
    assert!(matches!(
        parse_squared_size("99"),
        Ok(Some(Arg::GridSize(Size {
            width: 99,
            height: 99
        })))
    ));

    assert!(!matches!(
        parse_squared_size("100"),
        Ok(Some(Arg::GridSize(Size {
            width: 100,
            height: 100
        })))
    ));

    assert!(!matches!(
        parse_squared_size("0"),
        Ok(Some(Arg::GridSize(Size {
            width: 0,
            height: 0
        })))
    ));
}

#[test]
fn test_parse_size() {
    assert!(matches!(
        parse_size("25", "50"),
        Ok(Some(Arg::GridSize(Size {
            width: 25,
            height: 50
        })))
    ));

    assert!(!matches!(
        parse_size("100", "99"),
        Ok(Some(Arg::GridSize(Size {
            width: 100,
            height: 99
        })))
    ));

    assert!(!matches!(
        parse_size("0", "0"),
        Ok(Some(Arg::GridSize(Size {
            width: 0,
            height: 0
        })))
    ));
}

#[test]
fn test_parse_u16_values() {
    assert_eq!(parse_u16("0"), Some(0));
    assert_eq!(parse_u16("65535"), Some(65535));
    assert_eq!(parse_u16("+17"), Some(17));
    assert_eq!(parse_u16("00042"), Some(42));
    assert_eq!(parse_u16("65536"), None);
    assert_eq!(parse_u16("99999"), None);
    assert_eq!(parse_u16(""), None);
    assert_eq!(parse_u16("+"), None);
    assert_eq!(parse_u16("-4"), None);
    assert_eq!(parse_u16("12a"), None);
}

#[test]
fn test_is_numeric() {
    assert!(is_numeric("---123"));
    assert!(is_numeric("-123456789012345678901234567890"));
    assert!(is_numeric("123"));
    assert!(is_numeric("0"));

    assert!(!is_numeric("---123-"));
    assert!(!is_numeric("hello"));
    assert!(!is_numeric(" "));
    assert!(!is_numeric("-"));
    assert!(!is_numeric(""));
}
