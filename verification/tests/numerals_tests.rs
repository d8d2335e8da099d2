use ezytutors::errors::MyError;
use ezytutors::handlers::health_check_handler;
use ezytutors::numerals::{parse_i32, square, u64_to_string};

#[test]
fn renders_decimal_digits() {
    assert_eq!(u64_to_string(0), "0");
    assert_eq!(u64_to_string(7), "7");
    assert_eq!(u64_to_string(42), "42");
    assert_eq!(u64_to_string(1234567890), "1234567890");
    assert_eq!(u64_to_string(u64::MAX), "18446744073709551615");
}

#[test]
fn parses_plain_and_signed_numerals() {
    assert_eq!(parse_i32("123"), Ok(123));
    assert_eq!(parse_i32("+7"), Ok(7));
    assert_eq!(parse_i32("-45"), Ok(-45));
    assert_eq!(parse_i32("0"), Ok(0));
    assert_eq!(parse_i32("007"), Ok(7));
    assert_eq!(parse_i32("2147483647"), Ok(i32::MAX));
    assert_eq!(parse_i32("-2147483648"), Ok(i32::MIN));
}

#[test]
fn rejects_what_is_not_a_numeral() {
    assert!(parse_i32("").is_err());
    assert!(parse_i32("-").is_err());
    assert!(parse_i32("+").is_err());
    assert!(parse_i32("12a").is_err());
    assert!(parse_i32("INVALID").is_err());
    assert!(parse_i32("2147483648").is_err());
    assert!(parse_i32("-2147483649").is_err());
    assert!(parse_i32("999999999999999999999999").is_err());
    assert!(parse_i32(" 1").is_err());
}

#[test]
fn squares_a_parsed_value() {
    assert_eq!(square("2").unwrap(), 4);
    assert_eq!(square("-12").unwrap(), 144);
    assert_eq!(square("46340").unwrap(), 46340 * 46340);
}

#[test]
fn square_reports_a_parse_error() {
    let error = square("INVALID").expect_err("not a numeral");
    assert!(matches!(error, MyError::ParseError));
    assert_eq!(error.message(), "Parse Error");
}

#[test]
fn health_check_reports_and_counts_a_visit() {
    let mut visits: u64 = 0;
    let first = health_check_handler("I'm good. You've alread asked me", &mut visits);
    assert_eq!(first, "I'm good. You've alread asked me 0 times");
    assert_eq!(visits, 1);
    let second = health_check_handler("I'm good. You've alread asked me", &mut visits);
    assert_eq!(second, "I'm good. You've alread asked me 1 times");
    assert_eq!(visits, 2);
}
