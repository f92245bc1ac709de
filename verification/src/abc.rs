//! What a commons is configured with: its tokens, its curve, and the rules
//! of each phase, with their validation.

use vstd::prelude::*;
use vstd::string::*;
use crate::curves::{Constant, Curve, Decimal, DecimalPlaces, Linear, SquareRoot, decimal, MAX_SCALE};
use crate::decimal::StdDecimal;
use crate::error::{ContractError, Failure, outcome};

verus! {

pub const RAISE_RANGE_EMPTY: &'static str =
    "Initial raise minimum value must be less than maximum value.";

pub const CONTRIBUTION_ABOVE_RAISE: &'static str =
    "Max contribution limit cannot be greater than the maximum initial raise.";

pub const INITIAL_PRICE_ZERO: &'static str = "Initial price must be greater than zero.";

pub const ALLOCATION_RATIO_ABOVE_ONE: &'static str =
    "Initial allocation percentage must be between 0 and 100.";

pub const HATCH_EXIT_TAX_ABOVE_ONE: &'static str =
    "Exit taxation percentage must be less than or equal to 100.";

pub const ALLOCATION_PERCENTAGE_ABOVE_ONE: &'static str =
    "Reserve percentage must be between 0 and 100.";

pub const OPEN_EXIT_TAX_ABOVE_ONE: &'static str =
    "Exit taxation percentage must be between 0 and 100.";

/// One of the units a token's amounts may be displayed in.
#[derive(Clone, Debug, PartialEq, Eq)]
pub struct DenomUnit {
    pub denom: String,
    pub exponent: u32,
    pub aliases: Vec<String>,
}

/// Display metadata of a token that is to be created.
#[derive(Clone, Debug, PartialEq, Eq)]
pub struct NewDenomMetadata {
    /// The name of the token.
    pub name: String,
    /// The description of the token.
    pub description: String,
    /// The ticker symbol of the token.
    pub symbol: String,
    /// The unit commonly used in communication.
    pub display: String,
    /// Additional units of the token.
    pub additional_denom_units: Option<Vec<DenomUnit>>,
}

#[derive(Clone, Debug, PartialEq, Eq)]
pub struct SupplyToken {
    /// The denom to create for the supply token.
    pub subdenom: String,
    /// Metadata for the supply token to create.
    pub metadata: Option<NewDenomMetadata>,
    /// Number of decimal places of the supply token, needed for the curve math.
    pub decimals: u8,
}

#[derive(Clone, Debug, PartialEq, Eq)]
pub struct ReserveToken {
    /// Reserve token denom.
    pub denom: String,
    /// Number of decimal places of the reserve token, needed for the curve math.
    pub decimals: u8,
}

/// A minimum and a maximum value.
#[derive(Clone, Copy, Debug, PartialEq, Eq, Structural)]
pub struct MinMax {
    pub min: u128,
    pub max: u128,
}

#[derive(Clone, Copy, Debug, PartialEq, Eq, Structural)]
pub struct HatchConfig {
    /// The minimum and maximum contribution of one hatcher, in the reserve token.
    pub contribution_limits: MinMax,
    /// The range the initial raise has to end in, in the reserve token.
    pub initial_raise: MinMax,
    /// The flat price of the hatch: reserve units per supply unit.
    pub initial_price: u128,
    /// The share of each hatch contribution that goes to the funding pool.
    pub initial_allocation_ratio: StdDecimal,
    /// The share of the proceeds of a burn that the funding pool keeps
    /// during the hatch.
    pub exit_tax: StdDecimal,
}

#[derive(Clone, Copy, Debug, PartialEq, Eq, Structural)]
pub struct OpenConfig {
    /// The share of each buy that goes to the funding pool.
    pub allocation_percentage: StdDecimal,
    /// The share of the proceeds of a burn that the funding pool keeps.
    pub exit_tax: StdDecimal,
}

#[derive(Clone, Copy, Debug, PartialEq, Eq, Structural)]
pub struct ClosedConfig {
}

#[derive(Clone, Copy, Debug, PartialEq, Eq, Structural)]
pub struct CommonsPhaseConfig {
    /// The hatch phase, in which the first contributors take part in a sale
    /// at a flat price.
    pub hatch: HatchConfig,
    /// The open phase, in which anyone can buy from and sell to the curve.
    pub open: OpenConfig,
    /// The closed phase, in which the commons takes no new members.
    pub closed: ClosedConfig,
}

impl HatchConfig {
    /// The rule the configuration breaks first, by its message.
    pub open spec fn violation(self) -> Option<Seq<char>> {
        if self.initial_raise.min >= self.initial_raise.max {
            Some(RAISE_RANGE_EMPTY@)
        } else if self.contribution_limits.max > self.initial_raise.max {
            Some(CONTRIBUTION_ABOVE_RAISE@)
        } else if self.initial_price == 0 {
            Some(INITIAL_PRICE_ZERO@)
        } else if !self.initial_allocation_ratio.is_ratio() {
            Some(ALLOCATION_RATIO_ABOVE_ONE@)
        } else if !self.exit_tax.is_ratio() {
            Some(HATCH_EXIT_TAX_ABOVE_ONE@)
        } else {
            None
        }
    }

    /// The configuration keeps every rule of the hatch phase.
    pub open spec fn is_valid(self) -> bool {
        &&& self.initial_raise.min < self.initial_raise.max
        &&& self.contribution_limits.max <= self.initial_raise.max
        &&& self.initial_price > 0
        &&& self.initial_allocation_ratio.is_ratio()
        &&& self.exit_tax.is_ratio()
    }

    /// What validation answers: success for a valid configuration, else the
    /// message of the first broken rule.
    pub open spec fn spec_validate(self) -> Result<(), Failure> {
        match self.violation() {
            None => Ok(()),
            Some(text) => Err(Failure::HatchPhaseConfigError(text)),
        }
    }

    /// Validate the hatch config.
    pub fn validate(&self) -> (r: Result<(), ContractError>)
        ensures
            outcome(r) == self.spec_validate(),
            r is Ok <==> self.is_valid(),
    {
        if !(self.initial_raise.min < self.initial_raise.max) {
            return Err(ContractError::HatchPhaseConfigError(String::from_str(RAISE_RANGE_EMPTY)));
        }
        if !(self.contribution_limits.max <= self.initial_raise.max) {
            return Err(
                ContractError::HatchPhaseConfigError(String::from_str(CONTRIBUTION_ABOVE_RAISE)),
            );
        }
        if self.initial_price == 0 {
            return Err(ContractError::HatchPhaseConfigError(String::from_str(INITIAL_PRICE_ZERO)));
        }
        if !self.initial_allocation_ratio.at_most_one() {
            return Err(
                ContractError::HatchPhaseConfigError(String::from_str(ALLOCATION_RATIO_ABOVE_ONE)),
            );
        }
        if !self.exit_tax.at_most_one() {
            return Err(
                ContractError::HatchPhaseConfigError(String::from_str(HATCH_EXIT_TAX_ABOVE_ONE)),
            );
        }
        Ok(())
    }
}

/// A valid hatch configuration caps each contribution by the raise, and
/// its raise range is not empty.
pub proof fn lemma_valid_hatch_bounds(config: HatchConfig)
    requires
        config.is_valid(),
    ensures
        config.contribution_limits.max <= config.initial_raise.max,
        config.initial_raise.min < config.initial_raise.max,
        config.violation() is None,
{
}

impl OpenConfig {
    /// The rule the configuration breaks first, by its message.
    pub open spec fn violation(self) -> Option<Seq<char>> {
        if !self.allocation_percentage.is_ratio() {
            Some(ALLOCATION_PERCENTAGE_ABOVE_ONE@)
        } else if !self.exit_tax.is_ratio() {
            Some(OPEN_EXIT_TAX_ABOVE_ONE@)
        } else {
            None
        }
    }

    /// The configuration keeps every rule of the open phase.
    pub open spec fn is_valid(self) -> bool {
        self.allocation_percentage.is_ratio() && self.exit_tax.is_ratio()
    }

    /// What validation answers: success for a valid configuration, else the
    /// message of the first broken rule.
    pub open spec fn spec_validate(self) -> Result<(), Failure> {
        match self.violation() {
            None => Ok(()),
            Some(text) => Err(Failure::OpenPhaseConfigError(text)),
        }
    }

    /// Validate the open config.
    pub fn validate(&self) -> (r: Result<(), ContractError>)
        ensures
            outcome(r) == self.spec_validate(),
            r is Ok <==> self.is_valid(),
    {
        if !self.allocation_percentage.at_most_one() {
            return Err(
                ContractError::OpenPhaseConfigError(
                    String::from_str(ALLOCATION_PERCENTAGE_ABOVE_ONE),
                ),
            );
        }
        if !self.exit_tax.at_most_one() {
            return Err(
                ContractError::OpenPhaseConfigError(String::from_str(OPEN_EXIT_TAX_ABOVE_ONE)),
            );
        }
        Ok(())
    }
}

impl ClosedConfig {
    /// Validate the closed config: there is nothing in it to break a rule.
    pub fn validate(&self) -> (r: Result<(), ContractError>)
        ensures
            r is Ok,
    {
        Ok(())
    }
}

impl CommonsPhaseConfig {
    /// Every phase's configuration is valid.
    pub open spec fn is_valid(self) -> bool {
        self.hatch.is_valid() && self.open.is_valid()
    }

    /// What validation answers: the hatch phase's complaint if it has one,
    /// else the open phase's, else success.
    pub open spec fn spec_validate(self) -> Result<(), Failure> {
        if self.hatch.spec_validate() is Err {
            self.hatch.spec_validate()
        } else {
            self.open.spec_validate()
        }
    }

    /// Validate that the commons configuration is valid.
    pub fn validate(&self) -> (r: Result<(), ContractError>)
        ensures
            outcome(r) == self.spec_validate(),
            r is Ok <==> self.is_valid(),
    {
        match self.hatch.validate() {
            Ok(()) => {},
            Err(e) => { return Err(e); },
        }
        match self.open.validate() {
            Ok(()) => {},
            Err(e) => { return Err(e); },
        }
        self.closed.validate()
    }
}

/// The lifecycle phase of the commons. Phases only ever advance:
/// `Hatch`, then `Open`, then `Closed`.
#[derive(Clone, Copy, Debug, PartialEq, Eq, Structural)]
pub enum CommonsPhase {
    Hatch,
    Open,
    Closed,
}

impl CommonsPhase {
    /// The phase's name as it appears in errors.
    pub open spec fn spec_name(self) -> Seq<char> {
        match self {
            CommonsPhase::Hatch => "Hatch"@,
            CommonsPhase::Open => "Open"@,
            CommonsPhase::Closed => "Closed"@,
        }
    }

    /// The phase's name as it appears in errors.
    pub fn name(&self) -> (s: String)
        ensures
            s@ == self.spec_name(),
    {
        match self {
            CommonsPhase::Hatch => String::from_str("Hatch"),
            CommonsPhase::Open => String::from_str("Open"),
            CommonsPhase::Closed => String::from_str("Closed"),
        }
    }

    /// The complaint of a guard that wanted `expected` and found `self`.
    pub open spec fn wrong_phase(self, expected: CommonsPhase) -> Failure {
        Failure::InvalidPhase { expected: expected.spec_name(), actual: self.spec_name() }
    }

    /// What a guard that wants `expected` answers in phase `self`.
    pub open spec fn spec_expect(self, expected: CommonsPhase) -> Result<(), Failure> {
        if self == expected {
            Ok(())
        } else {
            Err(self.wrong_phase(expected))
        }
    }

    /// The complaint of a guard that wanted `expected` and found `self`.
    pub fn invalid_phase(&self, expected: CommonsPhase) -> (e: ContractError)
        ensures
            e@ == self.wrong_phase(expected),
    {
        ContractError::InvalidPhase { expected: expected.name(), actual: self.name() }
    }

    pub fn expect_hatch(&self) -> (r: Result<(), ContractError>)
        ensures
            outcome(r) == self.spec_expect(CommonsPhase::Hatch),
    {
        match self {
            CommonsPhase::Hatch => Ok(()),
            _ => Err(self.invalid_phase(CommonsPhase::Hatch)),
        }
    }

    pub fn expect_open(&self) -> (r: Result<(), ContractError>)
        ensures
            outcome(r) == self.spec_expect(CommonsPhase::Open),
    {
        match self {
            CommonsPhase::Open => Ok(()),
            _ => Err(self.invalid_phase(CommonsPhase::Open)),
        }
    }

    pub fn expect_closed(&self) -> (r: Result<(), ContractError>)
        ensures
            outcome(r) == self.spec_expect(CommonsPhase::Closed),
    {
        match self {
            CommonsPhase::Closed => Ok(()),
            _ => Err(self.invalid_phase(CommonsPhase::Closed)),
        }
    }
}

/// The shape of a pricing curve and its one parameter, `value × 10^-scale`
/// or `slope × 10^-scale`.
#[derive(Clone, Copy, Debug, PartialEq, Eq, Structural)]
pub enum CurveType {
    /// Constant always returns `value * 10^-scale` as spot price.
    Constant { value: u128, scale: u32 },
    /// Linear returns `slope * 10^-scale * supply` as spot price.
    Linear { slope: u128, scale: u32 },
    /// SquareRoot returns `slope * 10^-scale * supply^0.5` as spot price.
    SquareRoot { slope: u128, scale: u32 },
}

/// A curve that waits for the decimal places of its tokens.
#[derive(Clone, Copy, Debug, PartialEq, Eq, Structural)]
pub enum CurveFn {
    Constant(Decimal),
    Linear(Decimal),
    SquareRoot(Decimal),
}

impl CurveFn {
    /// The curve bound to the decimal places.
    pub open spec fn spec_call(self, places: DecimalPlaces) -> Curve {
        match self {
            CurveFn::Constant(value) => Curve::Constant(Constant { value, normalize: places }),
            CurveFn::Linear(slope) => Curve::Linear(Linear { slope, normalize: places }),
            CurveFn::SquareRoot(slope) => Curve::SquareRoot(SquareRoot { slope, normalize: places }),
        }
    }

    /// Binds the curve to the decimal places of its tokens.
    pub fn call(&self, places: DecimalPlaces) -> (curve: Curve)
        ensures
            curve == self.spec_call(places),
    {
        match self {
            CurveFn::Constant(value) => Curve::Constant(Constant::new(*value, places)),
            CurveFn::Linear(slope) => Curve::Linear(Linear::new(*slope, places)),
            CurveFn::SquareRoot(slope) => Curve::SquareRoot(SquareRoot::new(*slope, places)),
        }
    }
}

impl CurveType {
    /// The scale of the curve's parameter.
    pub open spec fn spec_scale(self) -> u32 {
        match self {
            CurveType::Constant { value, scale } => scale,
            CurveType::Linear { slope, scale } => scale,
            CurveType::SquareRoot { slope, scale } => scale,
        }
    }

    /// Whether the parameter can be represented as a decimal.
    pub open spec fn is_valid(self) -> bool {
        self.spec_scale() <= MAX_SCALE
    }

    /// The curve of this shape and parameter, waiting for decimal places.
    pub open spec fn spec_curve_fn(self) -> CurveFn {
        match self {
            CurveType::Constant { value, scale } => CurveFn::Constant(
                Decimal { mantissa: value, scale },
            ),
            CurveType::Linear { slope, scale } => CurveFn::Linear(
                Decimal { mantissa: slope, scale },
            ),
            CurveType::SquareRoot { slope, scale } => CurveFn::SquareRoot(
                Decimal { mantissa: slope, scale },
            ),
        }
    }

    /// What selecting the curve answers.
    pub open spec fn spec_to_curve_fn(self) -> Result<CurveFn, Failure> {
        if self.is_valid() {
            Ok(self.spec_curve_fn())
        } else {
            Err(Failure::ArithmeticOverflow)
        }
    }

    /// The curve of this shape and parameter bound to decimal places.
    pub open spec fn spec_curve(self, places: DecimalPlaces) -> Curve {
        self.spec_curve_fn().spec_call(places)
    }

    /// Selects the curve that the description stands for. Fails where the
    /// parameter's scale is beyond what a decimal can carry.
    pub fn to_curve_fn(&self) -> (r: Result<CurveFn, ContractError>)
        ensures
            outcome(r) == self.spec_to_curve_fn(),
    {
        match *self {
            CurveType::Constant { value, scale } => match decimal(value, scale) {
                Ok(d) => Ok(CurveFn::Constant(d)),
                Err(e) => Err(e),
            },
            CurveType::Linear { slope, scale } => match decimal(slope, scale) {
                Ok(d) => Ok(CurveFn::Linear(d)),
                Err(e) => Err(e),
            },
            CurveType::SquareRoot { slope, scale } => match decimal(slope, scale) {
                Ok(d) => Ok(CurveFn::SquareRoot(d)),
                Err(e) => Err(e),
            },
        }
    }
}

} // verus!
