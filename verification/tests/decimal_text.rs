use brickellstatus_runtime::decimal_text::{parse_decimal_text, parse_point_text};
use brickellstatus_runtime::number::Decimal;

fn read(text: &str) -> Option<Decimal> {
    parse_decimal_text(&text.chars().collect())
}

#[test]
fn decimal_texts_read_exactly() {
    assert_eq!(read("25.7617"), Some(Decimal::new(257617, -4)));
    assert_eq!(read("-80.1918"), Some(Decimal::new(-801918, -4)));
    assert_eq!(read("+42"), Some(Decimal::new(42, 0)));
    assert_eq!(read(".5"), Some(Decimal::new(5, -1)));
    assert_eq!(read("7."), Some(Decimal::new(7, 0)));
    assert_eq!(read("0007.50"), Some(Decimal::new(750, -2)));
    assert_eq!(read("2.5e1"), Some(Decimal::new(25, 0)));
    assert_eq!(read("2.5E-3"), Some(Decimal::new(25, -4)));
    assert_eq!(read("-0.000"), Some(Decimal::new(0, 0)));
}

#[test]
fn long_mantissas_keep_eighteen_significant_digits() {
    assert_eq!(read("12345678901234567890"), Some(Decimal::new(123456789012345678, 2)));
    assert_eq!(read("0.000123456789012345678901"), Some(Decimal::new(123456789012345678, -21)));
}

#[test]
fn exponents_out_of_reach_underflow_or_are_refused() {
    assert_eq!(read("1e-200000"), Some(Decimal::new(1, -100000)));
    assert_eq!(read("0.1e-100000"), Some(Decimal::new(0, 0)));
    assert_eq!(read("0e999999999999"), Some(Decimal::new(0, 0)));
    assert_eq!(read("1e200000"), Some(Decimal::new(1, 100000)));
    assert_eq!(read("123456789012345678901e100000"), None);
}

#[test]
fn malformed_decimal_texts_are_refused() {
    for text in ["", ".", "-", "+-1", "1e", "1e+", "e5", "1_0", "1.2.3", "nan", "inf", " 1", "1 ", "0x10"] {
        assert_eq!(read(text), None, "{text:?}");
    }
}

#[test]
fn point_texts_split_at_the_first_comma_and_trim() {
    assert_eq!(
        parse_point_text(" 25.7617 ,\t-80.1918 "),
        Some((Decimal::new(257617, -4), Decimal::new(-801918, -4)))
    );
    assert_eq!(parse_point_text("25.7617"), None);
    assert_eq!(parse_point_text("25.7617,-80.1918,1"), None);
    assert_eq!(parse_point_text("25.7617,"), None);
}
