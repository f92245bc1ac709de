use cw_abc::decimal::{StdDecimal, DECIMAL_FRACTIONAL, PERCENT_FRACTIONAL};

#[test]
fn percent_is_hundredths() {
    assert_eq!(StdDecimal::percent(0).atomics, 0);
    assert_eq!(StdDecimal::percent(1).atomics, PERCENT_FRACTIONAL);
    assert_eq!(StdDecimal::percent(10).atomics, 100_000_000_000_000_000);
    assert_eq!(StdDecimal::percent(100), StdDecimal::one());
    assert_eq!(StdDecimal::percent(100).atomics, DECIMAL_FRACTIONAL);
    assert_eq!(
        StdDecimal::percent(u64::MAX).atomics,
        18_446_744_073_709_551_615u128 * 10_000_000_000_000_000u128
    );
}

#[test]
fn zero_and_one() {
    assert_eq!(StdDecimal::zero().atomics, 0);
    assert_eq!(StdDecimal::one().atomics, 1_000_000_000_000_000_000);
}

#[test]
fn mul_floor_rounds_down() {
    assert_eq!(StdDecimal::percent(10).mul_floor(100), Some(10));
    assert_eq!(StdDecimal::percent(10).mul_floor(5), Some(0));
    assert_eq!(StdDecimal::percent(10).mul_floor(19), Some(1));
    assert_eq!(StdDecimal::percent(33).mul_floor(100), Some(33));
    assert_eq!(StdDecimal::percent(250).mul_floor(7), Some(17));
    assert_eq!(StdDecimal::zero().mul_floor(u128::MAX), Some(0));
    assert_eq!(StdDecimal::one().mul_floor(u128::MAX), Some(u128::MAX));
    assert_eq!(StdDecimal { atomics: 1 }.mul_floor(999_999_999_999_999_999), Some(0));
    assert_eq!(StdDecimal { atomics: 1 }.mul_floor(1_000_000_000_000_000_000), Some(1));
}

#[test]
fn mul_floor_reports_overflow() {
    assert_eq!(StdDecimal::percent(101).mul_floor(u128::MAX), None);
    assert_eq!(StdDecimal { atomics: u128::MAX }.mul_floor(u128::MAX), None);
    assert_eq!(
        StdDecimal { atomics: u128::MAX }.mul_floor(1_000_000_000_000_000_000),
        Some(u128::MAX)
    );
}

#[test]
fn at_most_one_is_the_ratio_range() {
    assert!(StdDecimal::zero().at_most_one());
    assert!(StdDecimal::percent(100).at_most_one());
    assert!(!StdDecimal { atomics: 1_000_000_000_000_000_001 }.at_most_one());
    assert!(!StdDecimal::percent(101).at_most_one());
}
