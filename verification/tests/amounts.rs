use token_client::amount::{base_to_ui_amount, ui_amount_to_base};
use token_client::error::TokenError;

#[test]
fn converts_whole_and_fractional_amounts() {
    assert_eq!(ui_amount_to_base("1.5", 6), Ok(1_500_000));
    assert_eq!(ui_amount_to_base("1.500000", 6), Ok(1_500_000));
    assert_eq!(ui_amount_to_base("0", 6), Ok(0));
    assert_eq!(ui_amount_to_base("0.000000", 6), Ok(0));
    assert_eq!(ui_amount_to_base("12.345", 3), Ok(12_345));
    assert_eq!(ui_amount_to_base("7", 0), Ok(7));
    assert_eq!(ui_amount_to_base("42", 2), Ok(4_200));
    assert_eq!(ui_amount_to_base("00001.5", 6), Ok(1_500_000));
}

#[test]
fn rejects_malformed_amounts() {
    assert_eq!(ui_amount_to_base("", 6), Err(TokenError::InvalidAmount));
    assert_eq!(ui_amount_to_base(".5", 6), Err(TokenError::InvalidAmount));
    assert_eq!(ui_amount_to_base("1.", 6), Err(TokenError::InvalidAmount));
    assert_eq!(ui_amount_to_base("1.2.3", 6), Err(TokenError::InvalidAmount));
    assert_eq!(ui_amount_to_base("abc", 6), Err(TokenError::InvalidAmount));
    assert_eq!(ui_amount_to_base("1,5", 6), Err(TokenError::InvalidAmount));
    assert_eq!(ui_amount_to_base("-1", 6), Err(TokenError::InvalidAmount));
    // more fractional digits than the precision allows
    assert_eq!(ui_amount_to_base("1.5000000", 6), Err(TokenError::InvalidAmount));
    assert_eq!(ui_amount_to_base("1.5", 0), Err(TokenError::InvalidAmount));
}

#[test]
fn reports_overflow_beyond_base_unit_range() {
    assert_eq!(ui_amount_to_base("18446744073709551615", 0), Ok(u64::MAX));
    assert_eq!(
        ui_amount_to_base("18446744073709551616", 0),
        Err(TokenError::AmountOverflow)
    );
    assert_eq!(ui_amount_to_base("2", 19), Err(TokenError::AmountOverflow));
    assert_eq!(ui_amount_to_base("99999999999999.999999", 6), Err(TokenError::AmountOverflow));
    // a zero amount never overflows, whatever the precision
    assert_eq!(ui_amount_to_base("0", 19), Ok(0));
    assert_eq!(ui_amount_to_base("0", 40), Ok(0));
}

#[test]
fn renders_amounts() {
    assert_eq!(base_to_ui_amount(1_500_000, 6), "1.500000");
    assert_eq!(base_to_ui_amount(0, 0), "0");
    assert_eq!(base_to_ui_amount(5, 1), "0.5");
    assert_eq!(base_to_ui_amount(1_234, 2), "12.34");
    assert_eq!(base_to_ui_amount(42, 0), "42");
    assert_eq!(base_to_ui_amount(7, 9), "0.000000007");
}

#[test]
fn round_trip_recovers_the_amount_exactly() {
    let samples: Vec<u64> = vec![0, 1, 9, 10, 999_999, 1_000_000, 1_500_000, u64::MAX];
    for &v in &samples {
        for d in [0u8, 1, 2, 6, 9, 19, 20, 30] {
            let rendered = base_to_ui_amount(v, d);
            assert_eq!(ui_amount_to_base(&rendered, d), Ok(v), "{} at {}", rendered, d);
        }
    }
}
