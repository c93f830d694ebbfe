use financial_lib::amount::{format_amount, parse_amount};
use financial_lib::date::{format_date, parse_date, Date};

#[test]
fn parse_amount_plain_units() {
    assert_eq!(parse_amount("200"), Some(20000));
    assert_eq!(parse_amount("0"), Some(0));
    assert_eq!(parse_amount("7"), Some(700));
}

#[test]
fn parse_amount_with_decimals() {
    assert_eq!(parse_amount("50.00"), Some(5000));
    assert_eq!(parse_amount("50.5"), Some(5050));
    assert_eq!(parse_amount("0.07"), Some(7));
}

#[test]
fn parse_amount_signs() {
    assert_eq!(parse_amount("+12.34"), Some(1234));
    assert_eq!(parse_amount("-5.25"), Some(-525));
    assert_eq!(parse_amount("-0.00"), Some(0));
}

#[test]
fn parse_amount_bare_dot_forms() {
    assert_eq!(parse_amount(".5"), Some(50));
    assert_eq!(parse_amount("5."), Some(500));
    assert_eq!(parse_amount("."), None);
    assert_eq!(parse_amount("+"), None);
}

#[test]
fn parse_amount_cuts_off_extra_decimals() {
    assert_eq!(parse_amount("1.999"), Some(199));
    assert_eq!(parse_amount("2.005"), Some(200));
}

#[test]
fn parse_amount_rejects_garbage() {
    assert_eq!(parse_amount(""), None);
    assert_eq!(parse_amount("abc"), None);
    assert_eq!(parse_amount("1.2.3"), None);
    assert_eq!(parse_amount("12x"), None);
    assert_eq!(parse_amount("1,5"), None);
}

#[test]
fn parse_amount_rejects_too_large() {
    assert_eq!(parse_amount("99999999999999999999"), None);
    assert_eq!(parse_amount("9999999999.99"), Some(999_999_999_999));
}

#[test]
fn format_amount_two_decimals() {
    assert_eq!(format_amount(5000), "50.00");
    assert_eq!(format_amount(0), "0.00");
    assert_eq!(format_amount(7), "0.07");
    assert_eq!(format_amount(-525), "-5.25");
    assert_eq!(format_amount(123456), "1234.56");
}

#[test]
fn amount_round_trip() {
    for cents in [0i64, 1, 99, 100, 5000, -5000, 999_999_999_999, -999_999_999_999] {
        assert_eq!(parse_amount(&format_amount(cents)), Some(cents));
    }
}

#[test]
fn parse_date_valid_days() {
    assert_eq!(parse_date("01.01.2025"), Date::new(2025, 1, 1));
    assert_eq!(parse_date("22.10.2025"), Date::new(2025, 10, 22));
    assert_eq!(parse_date("31.12.9999"), Date::new(9999, 12, 31));
    assert_eq!(parse_date("29.02.2024"), Date::new(2024, 2, 29));
    assert_eq!(parse_date("29.02.2000"), Date::new(2000, 2, 29));
}

#[test]
fn parse_date_rejects_nonexistent_days() {
    assert_eq!(parse_date("29.02.2023"), None);
    assert_eq!(parse_date("29.02.1900"), None);
    assert_eq!(parse_date("31.04.2025"), None);
    assert_eq!(parse_date("00.01.2025"), None);
    assert_eq!(parse_date("01.13.2025"), None);
}

#[test]
fn parse_date_wants_exact_shape() {
    assert_eq!(parse_date("1.1.2025"), None);
    assert_eq!(parse_date("01-01-2025"), None);
    assert_eq!(parse_date("01.01.25"), None);
    assert_eq!(parse_date(""), None);
    assert_eq!(parse_date("01.01.2025 "), None);
}

#[test]
fn format_date_zero_pads() {
    let d = Date::new(2025, 1, 2).unwrap();
    assert_eq!(format_date(&d), "02.01.2025");
    let d = Date::new(5, 11, 22).unwrap();
    assert_eq!(format_date(&d), "22.11.0005");
}

#[test]
fn date_round_trip() {
    for text in ["01.01.2025", "22.10.2025", "29.02.2024", "31.12.0000"] {
        let d = parse_date(text).unwrap();
        assert_eq!(format_date(&d), text);
    }
}
