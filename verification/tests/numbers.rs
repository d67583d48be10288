use arnis_args::decimal::Decimal;
use arnis_args::duration::{parse_duration, Seconds};
use arnis_args::integer::{parse_i32, parse_u64, IntegerError};
use arnis_args::literal::{parse_number, Literal};

fn finite(text: &str) -> Decimal {
    match parse_number(text) {
        Some(Literal::Finite(d)) => d,
        _ => panic!("{} is no finite number", text),
    }
}

#[test]
fn duration_of_thirty_seconds() {
    assert_eq!(parse_duration("30"), Ok(Seconds(30)));
    assert_eq!(parse_duration("30").unwrap().0, 30);
}

#[test]
fn duration_rejects_what_is_no_count() {
    assert_eq!(parse_duration("abc"), Err(IntegerError::InvalidDigit));
    assert_eq!(parse_duration(""), Err(IntegerError::Empty));
    assert_eq!(parse_duration("-5"), Err(IntegerError::InvalidDigit));
    assert_eq!(parse_duration("-0"), Err(IntegerError::InvalidDigit));
    assert_eq!(parse_duration("3.5"), Err(IntegerError::InvalidDigit));
    assert_eq!(parse_duration(" 30"), Err(IntegerError::InvalidDigit));
    assert_eq!(parse_duration("30 "), Err(IntegerError::InvalidDigit));
    assert_eq!(parse_duration("30s"), Err(IntegerError::InvalidDigit));
    assert_eq!(parse_duration("+"), Err(IntegerError::InvalidDigit));
    assert_eq!(parse_duration("1_000"), Err(IntegerError::InvalidDigit));
}

#[test]
fn duration_reads_the_whole_range() {
    assert_eq!(parse_duration("0"), Ok(Seconds(0)));
    assert_eq!(parse_duration("+7"), Ok(Seconds(7)));
    assert_eq!(parse_duration("007"), Ok(Seconds(7)));
    assert_eq!(parse_duration("18446744073709551615"), Ok(Seconds(u64::MAX)));
    assert_eq!(parse_duration("000018446744073709551615"), Ok(Seconds(u64::MAX)));
    assert_eq!(parse_duration("18446744073709551616"), Err(IntegerError::PosOverflow));
    assert_eq!(
        parse_duration("999999999999999999999999999999999999999999"),
        Err(IntegerError::PosOverflow)
    );
}

#[test]
fn u64_agrees_with_the_standard_reading() {
    for text in ["0", "1", "+1", "42", "0042", "18446744073709551615", "1844674407370955161"] {
        assert_eq!(parse_u64(text).ok(), text.parse::<u64>().ok());
    }
    for text in ["", "+", "-", "-1", "a", "1a", "18446744073709551616", " 1", "1 ", "++1"] {
        assert!(parse_u64(text).is_err());
        assert!(text.parse::<u64>().is_err());
    }
}

#[test]
fn i32_reads_signs_and_bounds() {
    assert_eq!(parse_i32("-62"), Ok(-62));
    assert_eq!(parse_i32("+62"), Ok(62));
    assert_eq!(parse_i32("0"), Ok(0));
    assert_eq!(parse_i32("-0"), Ok(0));
    assert_eq!(parse_i32("2147483647"), Ok(i32::MAX));
    assert_eq!(parse_i32("-2147483648"), Ok(i32::MIN));
    assert_eq!(parse_i32("2147483648"), Err(IntegerError::PosOverflow));
    assert_eq!(parse_i32("-2147483649"), Err(IntegerError::NegOverflow));
    assert_eq!(parse_i32(""), Err(IntegerError::Empty));
    assert_eq!(parse_i32("-"), Err(IntegerError::InvalidDigit));
    assert_eq!(parse_i32("+"), Err(IntegerError::InvalidDigit));
    assert_eq!(parse_i32("--1"), Err(IntegerError::InvalidDigit));
    assert_eq!(parse_i32("1.0"), Err(IntegerError::InvalidDigit));
    assert_eq!(parse_i32("12x"), Err(IntegerError::InvalidDigit));
}

#[test]
fn i32_agrees_with_the_standard_reading() {
    for text in ["0", "-1", "+1", "-62", "0042", "2147483647", "-2147483648", "-000"] {
        assert_eq!(parse_i32(text).ok(), text.parse::<i32>().ok());
    }
    for text in ["", "+", "-", "a", "1a", "2147483648", "-2147483649", " 1", "1 ", "+-1"] {
        assert!(parse_i32(text).is_err());
        assert!(text.parse::<i32>().is_err());
    }
}

#[test]
fn the_grammar_of_numbers() {
    for text in [
        "0", "1", "-1", "+1", "1.", ".1", "1.5", "-0.5", "1e5", "1E5", "1e+5", "1e-5", "1.e5",
        ".5e5", "inf", "-inf", "+inf", "Infinity", "INFINITY", "nan", "NaN", "-nan", "007",
        "1e0000000000000000000000000000000000000000000000",
    ] {
        assert!(parse_number(text).is_some(), "{}", text);
        assert!(text.parse::<f64>().is_ok(), "{}", text);
    }
    for text in [
        "", "+", "-", ".", "e5", "1e", "1e+", "1e-", "+.", "1..2", "1.2.3", "1e5.5", "1 ", " 1",
        "1,5", "0x10", "1_000", "infinit", "in", "na", "--1", "+-1", "1e5e5", "1f", "abc", "-.e1",
    ] {
        assert!(parse_number(text).is_none(), "{}", text);
        assert!(text.parse::<f64>().is_err(), "{}", text);
    }
}

#[test]
fn infinities_are_not_finite() {
    assert!(matches!(parse_number("inf"), Some(Literal::NonFinite)));
    assert!(matches!(parse_number("-Infinity"), Some(Literal::NonFinite)));
    assert!(matches!(parse_number("nAn"), Some(Literal::NonFinite)));
    assert!(matches!(parse_number("1e999"), Some(Literal::Finite(_))));
}

#[test]
fn decimals_compare_exactly() {
    assert!(finite("1").lt(&finite("2")));
    assert!(!finite("2").lt(&finite("1")));
    assert!(!finite("1").lt(&finite("1.0")));
    assert!(!finite("1.0").lt(&finite("1")));
    assert!(!finite("10").lt(&finite("1e1")));
    assert!(!finite("1e1").lt(&finite("10")));
    assert!(finite("9.99").lt(&finite("1e1")));
    assert!(finite("-3").lt(&finite("-2.999999999999999999999")));
    assert!(finite("-1").lt(&finite("0")));
    assert!(!finite("-0").lt(&finite("0")));
    assert!(!finite("0").lt(&finite("-0")));
    assert!(finite("0").lt(&finite("1e-1000")));
    assert!(finite("-1e-1000").lt(&finite("0")));
    assert!(finite("123456789012345678901234567890").lt(&finite("123456789012345678901234567891")));
    assert!(finite("0.000123").lt(&finite("0.00012300000000000001")));
    assert!(finite("1e99999999999999999999999999999998")
        .lt(&finite("1e99999999999999999999999999999999")));
    assert!(!finite("10e99999999999999999999999999999998")
        .lt(&finite("1e99999999999999999999999999999999")));
    assert!(finite("9e-99999999999999999999999999999999")
        .lt(&finite("1e-99999999999999999999999999999998")));
}

#[test]
fn decimals_know_zero() {
    assert!(finite("0").is_zero());
    assert!(finite("-0.000e55").is_zero());
    assert!(Decimal::zero().is_zero());
    assert!(Decimal::whole(0).is_zero());
    assert!(!finite("0.0001").is_zero());
    assert!(!Decimal::whole(1).is_zero());
}

#[test]
fn decimals_stay_within_bounds() {
    let bound = Decimal::whole(180);
    assert!(finite("180").within(&bound));
    assert!(finite("-180").within(&bound));
    assert!(finite("0").within(&bound));
    assert!(finite("179.99999").within(&bound));
    assert!(!finite("180.00001").within(&bound));
    assert!(!finite("-180.00001").within(&bound));
    assert!(!finite("1e3").within(&bound));
    assert!(finite("1.8e2").within(&bound));
    assert!(finite("0").within(&Decimal::zero()));
    assert!(!finite("1").within(&finite("-2")));
    assert!(finite("0").within(&finite("-0")));
    assert!(!finite("90").lt(&Decimal::whole(90)));
    assert!(finite("89").lt(&Decimal::whole(90)));
    assert!(finite("254").lt(&Decimal::whole(255)));
    assert!(!Decimal::whole(255).lt(&finite("255")));
    assert!(!Decimal::whole(7).lt(&finite("007")));
    assert!(!finite("7").lt(&Decimal::whole(7)));
}

#[test]
fn literals_compare_only_where_finite() {
    let inf = parse_number("inf").unwrap();
    let one = parse_number("1").unwrap();
    let two = parse_number("2").unwrap();
    assert!(one.lt(&two));
    assert!(!two.lt(&one));
    assert!(!one.lt(&inf));
    assert!(!inf.lt(&one));
    assert!(!inf.within(&Decimal::whole(180)));
    assert!(one.within(&Decimal::whole(180)));
}
