use tradebot::decimal::parse_fixed;
use tradebot::types::{MAX_AMOUNT, SCALE};

#[test]
fn whole_numbers_scale_exactly() {
    assert_eq!(parse_fixed("100"), Some(100 * SCALE));
    assert_eq!(parse_fixed("0"), Some(0));
    assert_eq!(parse_fixed("00123"), Some(123 * SCALE));
}

#[test]
fn fractions_scale_exactly() {
    assert_eq!(parse_fixed("100.5"), Some(100 * SCALE + SCALE / 2));
    assert_eq!(parse_fixed("0.00000001"), Some(1));
    assert_eq!(parse_fixed("1."), Some(SCALE));
    assert_eq!(parse_fixed("0.1"), Some(SCALE / 10));
    assert_eq!(parse_fixed("42.42"), Some(4_242_000_000));
}

#[test]
fn fraction_digits_past_the_scale_are_truncated() {
    assert_eq!(parse_fixed("0.000000001"), Some(0));
    assert_eq!(parse_fixed("0.123456789"), Some(12_345_678));
}

#[test]
fn the_largest_representable_amount_parses() {
    assert_eq!(parse_fixed("1000000"), Some(MAX_AMOUNT));
    assert_eq!(parse_fixed("999999.99999999"), Some(MAX_AMOUNT - 1));
}

#[test]
fn amounts_past_the_bound_are_rejected() {
    assert_eq!(parse_fixed("1000001"), None);
    assert_eq!(parse_fixed("1000000.00000001"), None);
    assert_eq!(parse_fixed("99999999999999999999"), None);
}

#[test]
fn malformed_strings_are_rejected() {
    assert_eq!(parse_fixed(""), None);
    assert_eq!(parse_fixed("abc"), None);
    assert_eq!(parse_fixed("1.2.3"), None);
    assert_eq!(parse_fixed(".5"), None);
    assert_eq!(parse_fixed("-5"), None);
    assert_eq!(parse_fixed("1,5"), None);
    assert_eq!(parse_fixed("12a"), None);
    assert_eq!(parse_fixed("1.2a"), None);
}
