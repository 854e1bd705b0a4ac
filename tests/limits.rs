use sendme::args::Limit;
use sendme::text::{parse_usize, NumberError};

#[test]
fn limit_plain_and_suffixed() {
    assert_eq!(Limit::parse("10").unwrap().0, 10);
    assert_eq!(Limit::parse("2k").unwrap().0, 2000);
    assert_eq!(Limit::parse("2Ki").unwrap().0, 2048);
    assert_eq!(Limit::parse("1Gi").unwrap().0, 1 << 30);
    assert_eq!(Limit::parse("3M").unwrap().0, 3_000_000);
    assert_eq!(Limit::parse("3Mi").unwrap().0, 3 * 1024 * 1024);
    assert_eq!(Limit::parse("1G").unwrap().0, 1_000_000_000);
}

#[test]
fn limit_rejects_fractions_and_garbage() {
    assert_eq!(Limit::parse("1.5k").unwrap_err(), NumberError::InvalidDigit);
    assert_eq!(Limit::parse("").unwrap_err(), NumberError::Empty);
    assert_eq!(Limit::parse("k").unwrap_err(), NumberError::Empty);
    assert_eq!(Limit::parse("1kk").unwrap_err(), NumberError::InvalidDigit);
    assert_eq!(Limit::parse("5kM").unwrap_err(), NumberError::InvalidDigit);
    assert_eq!(Limit::parse("-3").unwrap_err(), NumberError::InvalidDigit);
}

#[test]
fn limit_overflow_is_an_error() {
    assert_eq!(
        Limit::parse("99999999999999999999").unwrap_err(),
        NumberError::Overflow
    );
    assert_eq!(
        Limit::parse("18446744073709551615Gi").unwrap_err(),
        NumberError::Overflow
    );
}

#[test]
fn limit_from_str_matches_parse() {
    let l: Limit = "4Ki".parse().unwrap();
    assert_eq!(l.0, 4096);
}

#[test]
fn decimal_parser_follows_std() {
    assert_eq!(parse_usize("0"), Ok(0));
    assert_eq!(parse_usize("+42"), Ok(42));
    assert_eq!(parse_usize("007"), Ok(7));
    assert_eq!(parse_usize("18446744073709551615"), Ok(usize::MAX));
    assert_eq!(parse_usize(""), Err(NumberError::Empty));
    assert_eq!(parse_usize("+"), Err(NumberError::InvalidDigit));
    assert_eq!(parse_usize("12a"), Err(NumberError::InvalidDigit));
    assert_eq!(parse_usize("18446744073709551616"), Err(NumberError::Overflow));
    assert_eq!(parse_usize("99999999999999999999x"), Err(NumberError::Overflow));
    for s in ["0", "+42", "12a", "", "+", "18446744073709551616"] {
        assert_eq!(parse_usize(s).ok(), s.parse::<usize>().ok());
    }
}

#[test]
fn number_errors_describe_themselves() {
    assert_eq!(NumberError::InvalidDigit.describe(), "invalid digit found in string");
    assert_eq!(NumberError::Empty.describe(), "cannot parse integer from empty string");
    assert_eq!(NumberError::Overflow.describe(), "number too large to fit in target type");
}
