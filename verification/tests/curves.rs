use cw_abc::curves::{
    decimal, mul3, mul4, Constant, Curve, Decimal, DecimalPlaces, Linear, SquareRoot,
};
use cw_abc::decimal::StdDecimal;
use cw_abc::error::ContractError;
use cw_abc::math::{checked_pow10, integer_cbrt, integer_sqrt, quotient};

fn price(atomics: u128) -> Result<StdDecimal, ContractError> {
    Ok(StdDecimal { atomics })
}

#[test]
fn decimal_holds_value_and_scale() {
    assert_eq!(decimal(15, 1), Ok(Decimal { mantissa: 15, scale: 1 }));
    assert_eq!(decimal(0, 0), Ok(Decimal { mantissa: 0, scale: 0 }));
    assert_eq!(decimal(u128::MAX, 38), Ok(Decimal { mantissa: u128::MAX, scale: 38 }));
}

#[test]
fn decimal_scale_beyond_limit_overflows() {
    assert_eq!(decimal(1, 39), Err(ContractError::ArithmeticOverflow));
    assert_eq!(decimal(0, u32::MAX), Err(ContractError::ArithmeticOverflow));
}

#[test]
fn decimal_places_range() {
    assert!(DecimalPlaces::new(0, 0).is_valid());
    assert!(DecimalPlaces::new(18, 18).is_valid());
    assert!(!DecimalPlaces::new(19, 0).is_valid());
    assert!(!DecimalPlaces::new(6, 19).is_valid());
    let places = DecimalPlaces::new(2, 8);
    assert_eq!(places.supply_decimals, 2);
    assert_eq!(places.reserve_decimals, 8);
}

#[test]
fn linear_slope_one_at_supply_four() {
    let curve = Linear::new(decimal(1, 0).unwrap(), DecimalPlaces::new(0, 0));
    assert_eq!(curve.spot_price(4), price(4_000_000_000_000_000_000));
    assert_eq!(curve.reserve(4), Ok(8));
    assert_eq!(curve.supply(8), Ok(4));
}

#[test]
fn constant_curve() {
    let curve = Constant::new(decimal(15, 1).unwrap(), DecimalPlaces::new(2, 8));
    assert_eq!(curve.spot_price(123), price(1_500_000_000_000_000_000));
    assert_eq!(curve.reserve(0), Ok(0));
    assert_eq!(curve.reserve(500), Ok(750_000_000));
    assert_eq!(curve.reserve(123_456), Ok(185_184_000_000));
    assert_eq!(curve.supply(0), Ok(0));
    assert_eq!(curve.supply(185_184_000_000), Ok(123_456));
    assert_eq!(curve.supply(1_000_000_000), Ok(666));
}

#[test]
fn constant_price_does_not_depend_on_supply() {
    let curve = Constant::new(decimal(15, 1).unwrap(), DecimalPlaces::new(2, 8));
    let at_zero = curve.spot_price(0);
    assert_eq!(at_zero, price(1_500_000_000_000_000_000));
    assert_eq!(curve.spot_price(1), at_zero);
    assert_eq!(curve.spot_price(u128::MAX), at_zero);
}

#[test]
fn linear_curve() {
    let curve = Linear::new(decimal(1, 1).unwrap(), DecimalPlaces::new(2, 8));
    assert_eq!(curve.spot_price(0), price(0));
    assert_eq!(curve.spot_price(100), price(100_000_000_000_000_000));
    assert_eq!(curve.spot_price(1_000), price(1_000_000_000_000_000_000));
    assert_eq!(curve.reserve(0), Ok(0));
    assert_eq!(curve.reserve(1_000), Ok(500_000_000));
    assert_eq!(curve.reserve(3_000), Ok(4_500_000_000));
    assert_eq!(curve.supply(4_500_000_000), Ok(3_000));
    assert_eq!(curve.supply(20_000_000_000), Ok(6_324));
}

#[test]
fn sqrt_curve() {
    let curve = SquareRoot::new(decimal(35, 2).unwrap(), DecimalPlaces::new(5, 0));
    assert_eq!(curve.spot_price(0), price(0));
    assert_eq!(curve.spot_price(100_000), price(350_000_000_000_000_000));
    assert_eq!(curve.spot_price(400_000), price(700_000_000_000_000_000));
    assert_eq!(curve.spot_price(1_000_000), price(1_106_796_950_000_000_000));
    assert_eq!(curve.reserve(0), Ok(0));
    assert_eq!(curve.reserve(100_000), Ok(0));
    assert_eq!(curve.reserve(100_000_000), Ok(7_378));
    assert_eq!(curve.supply(0), Ok(0));
    assert_eq!(curve.supply(1), Ok(263_844));
    assert_eq!(curve.supply(7_378), Ok(99_994_146));
}

#[test]
fn spot_price_never_falls_with_supply() {
    let places = DecimalPlaces::new(3, 6);
    let curves = [
        Curve::Constant(Constant::new(decimal(7, 1).unwrap(), places)),
        Curve::Linear(Linear::new(decimal(3, 2).unwrap(), places)),
        Curve::SquareRoot(SquareRoot::new(decimal(35, 2).unwrap(), places)),
    ];
    let supplies: [u128; 8] = [0, 1, 2, 999, 1_000, 1_001, 123_456_789, 10_000_000_000_000];
    for curve in curves.iter() {
        let mut last = 0u128;
        for supply in supplies.iter() {
            let now = curve.spot_price(*supply).unwrap().atomics;
            assert!(last <= now);
            last = now;
        }
    }
}

#[test]
fn reserve_and_supply_never_fall() {
    let places = DecimalPlaces::new(3, 6);
    let curves = [
        Curve::Constant(Constant::new(decimal(7, 1).unwrap(), places)),
        Curve::Linear(Linear::new(decimal(3, 2).unwrap(), places)),
        Curve::SquareRoot(SquareRoot::new(decimal(35, 2).unwrap(), places)),
    ];
    let amounts: [u128; 7] = [0, 1, 2, 999, 1_000, 1_001, 123_456_789];
    for curve in curves.iter() {
        let mut last_reserve = 0u128;
        let mut last_supply = 0u128;
        for amount in amounts.iter() {
            let reserve = curve.reserve(*amount).unwrap();
            let supply = curve.supply(*amount).unwrap();
            assert!(last_reserve <= reserve);
            assert!(last_supply <= supply);
            last_reserve = reserve;
            last_supply = supply;
        }
    }
}

#[test]
fn curve_dispatches_to_its_variant() {
    let places = DecimalPlaces::new(0, 0);
    let linear = Curve::Linear(Linear::new(decimal(1, 0).unwrap(), places));
    assert_eq!(linear.spot_price(4), price(4_000_000_000_000_000_000));
    assert_eq!(linear.reserve(4), Ok(8));
    assert_eq!(linear.supply(8), Ok(4));
    let constant = Curve::Constant(Constant::new(decimal(2, 0).unwrap(), places));
    assert_eq!(constant.spot_price(4), price(2_000_000_000_000_000_000));
    assert_eq!(constant.reserve(5), Ok(10));
    assert_eq!(constant.supply(11), Ok(5));
    let root = Curve::SquareRoot(SquareRoot::new(decimal(3, 0).unwrap(), places));
    assert_eq!(root.spot_price(4), price(6_000_000_000_000_000_000));
    assert_eq!(root.reserve(4), Ok(16));
    assert_eq!(root.supply(16), Ok(4));
}

#[test]
fn curve_overflow_is_an_error() {
    let places = DecimalPlaces::new(0, 0);
    let linear = Linear::new(decimal(2, 0).unwrap(), places);
    assert_eq!(linear.spot_price(u128::MAX), Err(ContractError::ArithmeticOverflow));
    assert_eq!(linear.reserve(u128::MAX), Err(ContractError::ArithmeticOverflow));
    assert_eq!(linear.supply(u128::MAX), Err(ContractError::ArithmeticOverflow));
    let constant = Constant::new(decimal(u128::MAX, 0).unwrap(), places);
    assert_eq!(constant.spot_price(0), Err(ContractError::ArithmeticOverflow));
    assert_eq!(constant.reserve(2), Err(ContractError::ArithmeticOverflow));
    assert_eq!(constant.reserve(1), Ok(u128::MAX));
    let root = SquareRoot::new(decimal(1, 0).unwrap(), places);
    assert_eq!(root.spot_price(u128::MAX), Err(ContractError::ArithmeticOverflow));
    assert_eq!(root.reserve(u128::MAX), Err(ContractError::ArithmeticOverflow));
    assert_eq!(root.supply(u128::MAX), Err(ContractError::ArithmeticOverflow));
}

#[test]
fn flat_zero_curve_has_no_inverse() {
    let places = DecimalPlaces::new(0, 0);
    assert_eq!(
        Constant::new(decimal(0, 0).unwrap(), places).supply(1),
        Err(ContractError::ArithmeticOverflow)
    );
    assert_eq!(
        Linear::new(decimal(0, 0).unwrap(), places).supply(1),
        Err(ContractError::ArithmeticOverflow)
    );
    assert_eq!(
        SquareRoot::new(decimal(0, 0).unwrap(), places).supply(1),
        Err(ContractError::ArithmeticOverflow)
    );
    assert_eq!(Constant::new(decimal(0, 0).unwrap(), places).reserve(5), Ok(0));
}

#[test]
fn large_scale_gives_zero_not_overflow() {
    let places = DecimalPlaces::new(18, 18);
    let curve = Linear::new(Decimal { mantissa: 1, scale: 38 }, places);
    assert_eq!(curve.spot_price(1_000), price(0));
    assert_eq!(curve.reserve(1_000), Ok(0));
    let big = SquareRoot::new(Decimal { mantissa: u128::MAX, scale: 0 }, DecimalPlaces::new(0, 0));
    assert_eq!(big.supply(1), Ok(0));
}

#[test]
fn powers_of_ten() {
    assert_eq!(checked_pow10(0), Some(1));
    assert_eq!(checked_pow10(1), Some(10));
    assert_eq!(checked_pow10(18), Some(1_000_000_000_000_000_000));
    assert_eq!(checked_pow10(38), Some(100_000_000_000_000_000_000_000_000_000_000_000_000));
    assert_eq!(checked_pow10(39), None);
    assert_eq!(checked_pow10(u64::MAX), None);
}

#[test]
fn scaled_quotients() {
    assert_eq!(quotient(16, 2, 0, 0), Some(8));
    assert_eq!(quotient(7, 2, 1, 0), Some(35));
    assert_eq!(quotient(7, 2, 0, 1), Some(0));
    assert_eq!(quotient(1_234, 1, 5, 7), Some(12));
    assert_eq!(quotient(u128::MAX, 1, 40, 40), Some(u128::MAX));
    assert_eq!(quotient(u128::MAX, 3, 1, 0), None);
    assert_eq!(quotient(5, 1, 0, 1_000), Some(0));
    assert_eq!(quotient(0, 9, 1_000, 0), Some(0));
    assert_eq!(quotient(1, 9, 1_000, 0), None);
}

#[test]
fn integer_roots() {
    assert_eq!(integer_sqrt(0), 0);
    assert_eq!(integer_sqrt(1), 1);
    assert_eq!(integer_sqrt(15), 3);
    assert_eq!(integer_sqrt(16), 4);
    assert_eq!(integer_sqrt(17), 4);
    assert_eq!(integer_sqrt(u128::MAX), 18_446_744_073_709_551_615);
    assert_eq!(integer_cbrt(0), 0);
    assert_eq!(integer_cbrt(7), 1);
    assert_eq!(integer_cbrt(8), 2);
    assert_eq!(integer_cbrt(26), 2);
    assert_eq!(integer_cbrt(27), 3);
    assert_eq!(integer_cbrt(u128::MAX), 6_981_463_658_331);
}

#[test]
fn checked_products() {
    assert_eq!(mul3(2, 3, 4), Some(24));
    assert_eq!(mul3(u128::MAX, u128::MAX, 0), Some(0));
    assert_eq!(mul3(u128::MAX, 2, 1), None);
    assert_eq!(mul4(2, 3, 4, 5), Some(120));
    assert_eq!(mul4(u128::MAX, 2, 3, 0), Some(0));
    assert_eq!(mul4(1, 1, u128::MAX, 2), None);
}

#[test]
fn supply_paid_for_is_backed_by_no_more_than_was_paid() {
    let places = DecimalPlaces::new(3, 6);
    let curves = [
        Curve::Constant(Constant::new(decimal(7, 1).unwrap(), places)),
        Curve::Linear(Linear::new(decimal(3, 2).unwrap(), places)),
        Curve::SquareRoot(SquareRoot::new(decimal(35, 2).unwrap(), places)),
    ];
    let reserves: [u128; 8] = [0, 1, 2, 7, 999, 1_000, 1_001, 123_456_789];
    for curve in curves.iter() {
        for reserve in reserves.iter() {
            let supply = curve.supply(*reserve).unwrap();
            assert!(curve.reserve(supply).unwrap() <= *reserve);
        }
    }
    let constant = Constant::new(decimal(2, 0).unwrap(), DecimalPlaces::new(0, 0));
    assert_eq!(constant.supply(7), Ok(3));
    assert_eq!(constant.reserve(3), Ok(6));
}
