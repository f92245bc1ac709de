use cw_abc::abc::{
    ClosedConfig, CommonsPhase, CommonsPhaseConfig, CurveFn, CurveType, HatchConfig, MinMax,
    OpenConfig,
};
use cw_abc::curves::{Constant, Curve, Decimal, DecimalPlaces, Linear, SquareRoot};
use cw_abc::decimal::StdDecimal;
use cw_abc::error::ContractError;

fn hatch_config() -> HatchConfig {
    HatchConfig {
        contribution_limits: MinMax { min: 1, max: 1_000 },
        initial_raise: MinMax { min: 1, max: 1_000_000 },
        initial_price: 1,
        initial_allocation_ratio: StdDecimal::percent(10u64),
        exit_tax: StdDecimal::percent(10u64),
    }
}

fn open_config() -> OpenConfig {
    OpenConfig {
        allocation_percentage: StdDecimal::percent(10u64),
        exit_tax: StdDecimal::percent(10u64),
    }
}

#[test]
fn validate_contribution_limit_not_gt_initial_raise() {
    let phase_config = CommonsPhaseConfig {
        hatch: HatchConfig {
            contribution_limits: MinMax { min: 1u128, max: u128::MAX },
            initial_raise: MinMax { min: 1u128, max: 1000000u128 },
            initial_price: 1u128,
            initial_allocation_ratio: StdDecimal::percent(10u64),
            exit_tax: StdDecimal::percent(10u64),
        },
        open: OpenConfig {
            allocation_percentage: StdDecimal::percent(10u64),
            exit_tax: StdDecimal::percent(10u64),
        },
        closed: ClosedConfig {},
    };
    let err = phase_config.validate().unwrap_err();
    assert_eq!(
        err,
        ContractError::HatchPhaseConfigError(
            "Max contribution limit cannot be greater than the maximum initial raise."
                .to_string()
        )
    )
}

#[test]
fn valid_phase_config_passes() {
    let config =
        CommonsPhaseConfig { hatch: hatch_config(), open: open_config(), closed: ClosedConfig {} };
    assert_eq!(config.validate(), Ok(()));
    assert_eq!(config.hatch.validate(), Ok(()));
    assert_eq!(config.open.validate(), Ok(()));
    assert_eq!(config.closed.validate(), Ok(()));
}

#[test]
fn valid_hatch_config_keeps_its_bounds() {
    let config = hatch_config();
    assert_eq!(config.validate(), Ok(()));
    assert!(config.contribution_limits.max <= config.initial_raise.max);
    assert!(config.initial_raise.min < config.initial_raise.max);
}

#[test]
fn hatch_raise_range_must_not_be_empty() {
    let mut config = hatch_config();
    config.initial_raise = MinMax { min: 5, max: 5 };
    config.contribution_limits = MinMax { min: 1, max: 5 };
    assert_eq!(
        config.validate(),
        Err(ContractError::HatchPhaseConfigError(
            "Initial raise minimum value must be less than maximum value.".to_string()
        ))
    );
    config.initial_raise = MinMax { min: 6, max: 5 };
    assert_eq!(
        config.validate(),
        Err(ContractError::HatchPhaseConfigError(
            "Initial raise minimum value must be less than maximum value.".to_string()
        ))
    );
}

#[test]
fn hatch_raise_range_is_checked_before_contribution_limit() {
    let mut config = hatch_config();
    config.initial_raise = MinMax { min: 10, max: 10 };
    config.contribution_limits = MinMax { min: 1, max: 11 };
    assert_eq!(
        config.validate(),
        Err(ContractError::HatchPhaseConfigError(
            "Initial raise minimum value must be less than maximum value.".to_string()
        ))
    );
}

#[test]
fn hatch_contribution_limit_may_equal_raise() {
    let mut config = hatch_config();
    config.contribution_limits = MinMax { min: 1, max: 1_000_000 };
    assert_eq!(config.validate(), Ok(()));
    config.contribution_limits = MinMax { min: 1, max: 1_000_001 };
    assert_eq!(
        config.validate(),
        Err(ContractError::HatchPhaseConfigError(
            "Max contribution limit cannot be greater than the maximum initial raise."
                .to_string()
        ))
    );
}

#[test]
fn hatch_initial_price_must_be_positive() {
    let mut config = hatch_config();
    config.initial_price = 0;
    assert_eq!(
        config.validate(),
        Err(ContractError::HatchPhaseConfigError(
            "Initial price must be greater than zero.".to_string()
        ))
    );
}

#[test]
fn hatch_allocation_ratio_at_most_one() {
    let mut config = hatch_config();
    config.initial_allocation_ratio = StdDecimal::percent(100);
    assert_eq!(config.validate(), Ok(()));
    config.initial_allocation_ratio = StdDecimal::percent(101);
    assert_eq!(
        config.validate(),
        Err(ContractError::HatchPhaseConfigError(
            "Initial allocation percentage must be between 0 and 100.".to_string()
        ))
    );
}

#[test]
fn hatch_exit_tax_at_most_one() {
    let mut config = hatch_config();
    config.exit_tax = StdDecimal::percent(100);
    assert_eq!(config.validate(), Ok(()));
    config.exit_tax = StdDecimal { atomics: 1_000_000_000_000_000_001 };
    assert_eq!(
        config.validate(),
        Err(ContractError::HatchPhaseConfigError(
            "Exit taxation percentage must be less than or equal to 100.".to_string()
        ))
    );
}

#[test]
fn open_allocation_percentage_at_most_one() {
    let mut config = open_config();
    config.allocation_percentage = StdDecimal::percent(100);
    assert_eq!(config.validate(), Ok(()));
    config.allocation_percentage = StdDecimal::percent(150);
    config.exit_tax = StdDecimal::percent(150);
    assert_eq!(
        config.validate(),
        Err(ContractError::OpenPhaseConfigError(
            "Reserve percentage must be between 0 and 100.".to_string()
        ))
    );
}

#[test]
fn open_exit_tax_at_most_one() {
    let mut config = open_config();
    config.exit_tax = StdDecimal::percent(101);
    assert_eq!(
        config.validate(),
        Err(ContractError::OpenPhaseConfigError(
            "Exit taxation percentage must be between 0 and 100.".to_string()
        ))
    );
}

#[test]
fn phase_config_reports_hatch_before_open() {
    let mut hatch = hatch_config();
    hatch.initial_price = 0;
    let mut open = open_config();
    open.exit_tax = StdDecimal::percent(101);
    let config = CommonsPhaseConfig { hatch, open, closed: ClosedConfig {} };
    assert_eq!(
        config.validate(),
        Err(ContractError::HatchPhaseConfigError(
            "Initial price must be greater than zero.".to_string()
        ))
    );
    let config = CommonsPhaseConfig { hatch: hatch_config(), open, closed: ClosedConfig {} };
    assert_eq!(
        config.validate(),
        Err(ContractError::OpenPhaseConfigError(
            "Exit taxation percentage must be between 0 and 100.".to_string()
        ))
    );
}

fn invalid_phase(expected: &str, actual: &str) -> ContractError {
    ContractError::InvalidPhase { expected: expected.to_string(), actual: actual.to_string() }
}

#[test]
fn expect_hatch_only_in_hatch() {
    assert_eq!(CommonsPhase::Hatch.expect_hatch(), Ok(()));
    assert_eq!(CommonsPhase::Open.expect_hatch(), Err(invalid_phase("Hatch", "Open")));
    assert_eq!(CommonsPhase::Closed.expect_hatch(), Err(invalid_phase("Hatch", "Closed")));
}

#[test]
fn expect_open_only_in_open() {
    assert_eq!(CommonsPhase::Open.expect_open(), Ok(()));
    assert_eq!(CommonsPhase::Hatch.expect_open(), Err(invalid_phase("Open", "Hatch")));
    assert_eq!(CommonsPhase::Closed.expect_open(), Err(invalid_phase("Open", "Closed")));
}

#[test]
fn expect_closed_only_in_closed() {
    assert_eq!(CommonsPhase::Closed.expect_closed(), Ok(()));
    assert_eq!(CommonsPhase::Hatch.expect_closed(), Err(invalid_phase("Closed", "Hatch")));
    assert_eq!(CommonsPhase::Open.expect_closed(), Err(invalid_phase("Closed", "Open")));
}

#[test]
fn phase_names() {
    assert_eq!(CommonsPhase::Hatch.name(), "Hatch");
    assert_eq!(CommonsPhase::Open.name(), "Open");
    assert_eq!(CommonsPhase::Closed.name(), "Closed");
}

#[test]
fn curve_type_selects_its_curve() {
    let places = DecimalPlaces::new(2, 8);
    let constant = CurveType::Constant { value: 15, scale: 1 }.to_curve_fn().unwrap();
    assert_eq!(constant, CurveFn::Constant(Decimal { mantissa: 15, scale: 1 }));
    assert_eq!(
        constant.call(places),
        Curve::Constant(Constant { value: Decimal { mantissa: 15, scale: 1 }, normalize: places })
    );
    let linear = CurveType::Linear { slope: 1, scale: 1 }.to_curve_fn().unwrap();
    assert_eq!(
        linear.call(places),
        Curve::Linear(Linear { slope: Decimal { mantissa: 1, scale: 1 }, normalize: places })
    );
    let root = CurveType::SquareRoot { slope: 35, scale: 2 }.to_curve_fn().unwrap();
    assert_eq!(
        root.call(places),
        Curve::SquareRoot(SquareRoot {
            slope: Decimal { mantissa: 35, scale: 2 },
            normalize: places
        })
    );
}

#[test]
fn curve_type_scale_beyond_limit_is_rejected() {
    assert!(CurveType::Linear { slope: 1, scale: 38 }.to_curve_fn().is_ok());
    assert_eq!(
        CurveType::Linear { slope: 1, scale: 39 }.to_curve_fn(),
        Err(ContractError::ArithmeticOverflow)
    );
    assert_eq!(
        CurveType::Constant { value: 1, scale: u32::MAX }.to_curve_fn(),
        Err(ContractError::ArithmeticOverflow)
    );
    assert_eq!(
        CurveType::SquareRoot { slope: 0, scale: 40 }.to_curve_fn(),
        Err(ContractError::ArithmeticOverflow)
    );
}
