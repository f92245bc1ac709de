//! The pricing curves. A curve gives, for a total supply, the spot price and
//! the reserve that backs it, and for a reserve the supply it pays for.
//! Amounts are integers in each token's smallest unit; the decimal places of
//! the two tokens reconcile them with the curve's parameter.
//!
//! Every result is a quotient of integers rounded down, or an integer root
//! of one. Nothing saturates or wraps: where a numerator does not fit in a
//! `u128` the computation fails with `ArithmeticOverflow`, and the
//! contracts say exactly when.

use vstd::prelude::*;
use crate::decimal::StdDecimal;
use crate::error::{ContractError, Failure, outcome};
use crate::math::{
    icbrt, integer_cbrt, integer_sqrt, isqrt, lemma_pow10_positive, lemma_scaled_quotient_cancels,
    monus, pow10, quotient, scale_numerator, scaled_numerator, scaled_quotient,
};

verus! {

/// The largest scale a `Decimal` may carry: the largest power of ten that a
/// `u128` holds.
pub const MAX_SCALE: u32 = 38;

/// The decimal digits a price is reported with.
pub const PRICE_DIGITS: u64 = 18;

/// The decimal digits a square root is taken to.
pub const ROOT_DIGITS: u64 = 6;

/// An exact decimal number: `mantissa × 10^-scale`.
#[derive(Clone, Copy, Debug, PartialEq, Eq, Structural)]
pub struct Decimal {
    pub mantissa: u128,
    pub scale: u32,
}

/// What `decimal` answers.
pub open spec fn spec_decimal(value: u128, scale: u32) -> Result<Decimal, Failure> {
    if scale <= MAX_SCALE {
        Ok(Decimal { mantissa: value, scale })
    } else {
        Err(Failure::ArithmeticOverflow)
    }
}

/// `value × 10^-scale` as an exact decimal. The scale is limited to
/// `MAX_SCALE`; beyond it the number cannot be represented.
pub fn decimal(value: u128, scale: u32) -> (r: Result<Decimal, ContractError>)
    ensures
        outcome(r) == spec_decimal(value, scale),
{
    if scale > MAX_SCALE {
        Err(ContractError::ArithmeticOverflow)
    } else {
        Ok(Decimal { mantissa: value, scale })
    }
}

/// How many decimal places the smallest unit of each token has.
#[derive(Clone, Copy, Debug, PartialEq, Eq, Structural)]
pub struct DecimalPlaces {
    /// Decimal places of the supply token.
    pub supply_decimals: u8,
    /// Decimal places of the reserve token.
    pub reserve_decimals: u8,
}

/// The most decimal places a token may have.
pub const MAX_DECIMAL_PLACES: u8 = 18;

impl DecimalPlaces {
    /// Both tokens stay within the supported decimal places.
    pub open spec fn wf(self) -> bool {
        self.supply_decimals <= MAX_DECIMAL_PLACES && self.reserve_decimals <= MAX_DECIMAL_PLACES
    }

    pub fn new(supply: u8, reserve: u8) -> (r: DecimalPlaces)
        ensures
            r.supply_decimals == supply,
            r.reserve_decimals == reserve,
    {
        DecimalPlaces { supply_decimals: supply, reserve_decimals: reserve }
    }

    pub fn is_valid(&self) -> (b: bool)
        ensures
            b == self.wf(),
    {
        self.supply_decimals <= MAX_DECIMAL_PLACES && self.reserve_decimals <= MAX_DECIMAL_PLACES
    }
}

/// `num × 10^up / (den × 10^down)` rounded down, where the computation fits:
/// where the numerator, with the common power of ten cancelled, is a `u128`.
pub open spec fn fit_quotient(num: nat, den: nat, up: nat, down: nat) -> Option<nat> {
    if scaled_numerator(num, up, down) <= u128::MAX {
        Some(scaled_quotient(num, den, up, down))
    } else {
        None
    }
}

/// The square root of a supply, in units of `10^-ROOT_DIGITS` whole tokens.
pub open spec fn supply_root(sd: nat, supply: nat) -> Option<nat> {
    match fit_quotient(supply, 1, 2 * (ROOT_DIGITS as nat), sd) {
        Some(q) => Some(isqrt(q)),
        None => None,
    }
}

// In what follows `m` and `k` are the mantissa and the scale of the curve's
// parameter, `sd` and `rd` the decimal places of the supply and the reserve
// token. Supplies and reserves are counted in the smallest unit of their
// token, prices in atomic units of `10^-18` reserve tokens per supply token.

/// The constant curve's spot price: `m × 10^-k`, whatever the supply.
pub open spec fn constant_price(m: nat, k: nat) -> Option<nat> {
    fit_quotient(m, 1, PRICE_DIGITS as nat, k)
}

/// The reserve that backs a supply on the constant curve: the price times
/// the supply, `m × supply × 10^rd / 10^(k + sd)`.
pub open spec fn constant_reserve(m: nat, k: nat, sd: nat, rd: nat, supply: nat) -> Option<nat> {
    fit_quotient(m * supply, 1, rd, k + sd)
}

/// The supply that a reserve pays for on the constant curve: the reserve
/// divided by the price, `reserve × 10^(k + sd) / (m × 10^rd)`. A price of
/// zero has no inverse.
pub open spec fn constant_supply(m: nat, k: nat, sd: nat, rd: nat, reserve: nat) -> Option<nat> {
    if m == 0 {
        None
    } else {
        fit_quotient(reserve, m, k + sd, rd)
    }
}

/// The linear curve's spot price: `m × 10^-k` times the supply in whole
/// tokens, `m × supply × 10^18 / 10^(k + sd)`.
pub open spec fn linear_price(m: nat, k: nat, sd: nat, supply: nat) -> Option<nat> {
    fit_quotient(m * supply, 1, PRICE_DIGITS as nat, k + sd)
}

/// The reserve that backs a supply on the linear curve: half the slope
/// times the square of the supply,
/// `m × supply² × 10^rd / (2 × 10^(k + 2 sd))`.
pub open spec fn linear_reserve(m: nat, k: nat, sd: nat, rd: nat, supply: nat) -> Option<nat> {
    fit_quotient(m * supply * supply, 2, rd, k + 2 * sd)
}

/// The supply that a reserve pays for on the linear curve: the square root
/// of twice the reserve over the slope, that is the integer square root of
/// `2 × reserve × 10^(k + 2 sd) / (m × 10^rd)`. A slope of zero has no
/// inverse.
pub open spec fn linear_supply(m: nat, k: nat, sd: nat, rd: nat, reserve: nat) -> Option<nat> {
    if m == 0 {
        None
    } else {
        match fit_quotient(2 * reserve, m, k + 2 * sd, rd) {
            Some(q) => Some(isqrt(q)),
            None => None,
        }
    }
}

/// The square root curve's spot price: `m × 10^-k` times the square root
/// of the supply in whole tokens, the root taken to `ROOT_DIGITS` digits.
pub open spec fn sqrt_price(m: nat, k: nat, sd: nat, supply: nat) -> Option<nat> {
    match supply_root(sd, supply) {
        Some(root) => fit_quotient(m * root, 1, PRICE_DIGITS as nat, k + ROOT_DIGITS as nat),
        None => None,
    }
}

/// The reserve that backs a supply on the square root curve: two thirds
/// of the slope times the supply times its square root, the root taken to
/// `ROOT_DIGITS` digits: `2 × m × supply × root × 10^rd / (3 × 10^(k + sd +
/// ROOT_DIGITS))`.
pub open spec fn sqrt_reserve(m: nat, k: nat, sd: nat, rd: nat, supply: nat) -> Option<nat> {
    match supply_root(sd, supply) {
        Some(root) => fit_quotient(2 * m * supply * root, 3, rd, k + sd + ROOT_DIGITS as nat),
        None => None,
    }
}

/// The supply that a reserve pays for on the square root curve: the cube
/// root of the square of three halves of the reserve over the slope, that
/// is the integer cube root of
/// `9 × reserve² × 10^(2 k + 3 sd) / (4 × m² × 10^(2 rd))`. A slope of zero
/// has no inverse.
pub open spec fn sqrt_supply(m: nat, k: nat, sd: nat, rd: nat, reserve: nat) -> Option<nat> {
    if m == 0 {
        None
    } else {
        match fit_quotient(9 * reserve * reserve, 4 * m * m, 2 * k + 3 * sd, 2 * rd) {
            Some(q) => Some(icbrt(q)),
            None => None,
        }
    }
}

/// What an exec result says of a spec result: the value where there is one,
/// `ArithmeticOverflow` where there is none.
pub open spec fn agrees(r: Result<u128, ContractError>, expected: Option<nat>) -> bool {
    match r {
        Ok(v) => expected == Some(v as nat),
        Err(e) => expected is None && e@ == Failure::ArithmeticOverflow,
    }
}

/// `a × b × c`, or `None` where it exceeds `u128`.
pub fn mul3(a: u128, b: u128, c: u128) -> (r: Option<u128>)
    ensures
        match r {
            Some(v) => v == a * b * c,
            None => a * b * c > u128::MAX,
        },
{
    if a == 0 || b == 0 || c == 0 {
        assert(a * b * c == 0) by (nonlinear_arith)
            requires
                a == 0 || b == 0 || c == 0,
        ;
        return Some(0);
    }
    match a.checked_mul(b) {
        Some(ab) => ab.checked_mul(c),
        None => {
            assert(a * b * c >= a * b) by (nonlinear_arith)
                requires
                    c >= 1,
                    a * b >= 0,
            ;
            None
        },
    }
}

/// `a × b × c × d`, or `None` where it exceeds `u128`.
pub fn mul4(a: u128, b: u128, c: u128, d: u128) -> (r: Option<u128>)
    ensures
        match r {
            Some(v) => v == a * b * c * d,
            None => a * b * c * d > u128::MAX,
        },
{
    if d == 0 {
        assert(a * b * c * d == 0) by (nonlinear_arith)
            requires
                d == 0,
        ;
        return Some(0);
    }
    match mul3(a, b, c) {
        Some(abc) => abc.checked_mul(d),
        None => {
            assert(a * b * c * d >= a * b * c) by (nonlinear_arith)
                requires
                    d >= 1,
                    a * b * c >= 0,
            ;
            None
        },
    }
}

/// `fit_quotient` on a numerator that may itself not have fitted.
fn checked_quotient(num: Option<u128>, den: u128, up: u64, down: u64, Ghost(n): Ghost<nat>) -> (r: Result<u128, ContractError>)
    requires
        den > 0,
        match num {
            Some(v) => v == n,
            None => n > u128::MAX,
        },
    ensures
        agrees(r, fit_quotient(n, den as nat, up as nat, down as nat)),
{
    match num {
        None => {
            proof {
                lemma_numerator_grows(n, up as nat, down as nat);
            }
            Err(ContractError::ArithmeticOverflow)
        },
        Some(v) => match quotient(v, den, up, down) {
            Some(q) => Ok(q),
            None => Err(ContractError::ArithmeticOverflow),
        },
    }
}

/// Scaling a numerator never makes it smaller.
pub proof fn lemma_numerator_grows(n: nat, up: nat, down: nat)
    ensures
        scaled_numerator(n, up, down) >= n,
{
    let p = pow10(monus(up, down));
    lemma_pow10_positive(monus(up, down));
    assert(n * p >= n) by (nonlinear_arith)
        requires
            p >= 1,
    ;
}

/// The square root of a supply to `ROOT_DIGITS` decimal digits.
fn root_of_supply(sd: u8, supply: u128) -> (r: Result<u128, ContractError>)
    ensures
        agrees(r, supply_root(sd as nat, supply as nat)),
{
    match quotient(supply, 1, 2 * ROOT_DIGITS, sd as u64) {
        Some(q) => Ok(integer_sqrt(q)),
        None => Err(ContractError::ArithmeticOverflow),
    }
}

/// What an exec price says of a spec price.
pub open spec fn price_agrees(r: Result<StdDecimal, ContractError>, expected: Option<nat>) -> bool {
    match r {
        Ok(p) => expected == Some(p.atomics as nat),
        Err(e) => expected is None && e@ == Failure::ArithmeticOverflow,
    }
}

fn as_price(r: Result<u128, ContractError>) -> (p: Result<StdDecimal, ContractError>)
    ensures
        forall|expected: Option<nat>| agrees(r, expected) ==> price_agrees(p, expected),
{
    match r {
        Ok(atomics) => Ok(StdDecimal { atomics }),
        Err(e) => Err(e),
    }
}

/// A curve whose spot price is the same at every supply.
#[derive(Clone, Copy, Debug, PartialEq, Eq, Structural)]
pub struct Constant {
    pub value: Decimal,
    pub normalize: DecimalPlaces,
}

/// A curve whose spot price grows in proportion to the supply.
#[derive(Clone, Copy, Debug, PartialEq, Eq, Structural)]
pub struct Linear {
    pub slope: Decimal,
    pub normalize: DecimalPlaces,
}

/// A curve whose spot price grows with the square root of the supply.
#[derive(Clone, Copy, Debug, PartialEq, Eq, Structural)]
pub struct SquareRoot {
    pub slope: Decimal,
    pub normalize: DecimalPlaces,
}

impl Constant {
    pub fn new(value: Decimal, normalize: DecimalPlaces) -> (r: Constant)
        ensures
            r.value == value,
            r.normalize == normalize,
    {
        Constant { value, normalize }
    }

    /// The spot price at a supply, in atomic units of `10^-18` reserve
    /// tokens per supply token.
    pub open spec fn spec_spot_price(self, supply: nat) -> Option<nat> {
        constant_price(self.value.mantissa as nat, self.value.scale as nat)
    }

    /// The reserve that backs a supply.
    pub open spec fn spec_reserve(self, supply: nat) -> Option<nat> {
        constant_reserve(
            self.value.mantissa as nat,
            self.value.scale as nat,
            self.normalize.supply_decimals as nat,
            self.normalize.reserve_decimals as nat,
            supply,
        )
    }

    /// The supply that a reserve pays for.
    pub open spec fn spec_supply(self, reserve: nat) -> Option<nat> {
        constant_supply(
            self.value.mantissa as nat,
            self.value.scale as nat,
            self.normalize.supply_decimals as nat,
            self.normalize.reserve_decimals as nat,
            reserve,
        )
    }

    pub fn spot_price(&self, supply: u128) -> (r: Result<StdDecimal, ContractError>)
        ensures
            price_agrees(r, self.spec_spot_price(supply as nat)),
    {
        let m = self.value.mantissa;
        let k = self.value.scale as u64;
        as_price(checked_quotient(Some(m), 1, PRICE_DIGITS, k, Ghost(m as nat)))
    }

    pub fn reserve(&self, supply: u128) -> (r: Result<u128, ContractError>)
        ensures
            agrees(r, self.spec_reserve(supply as nat)),
    {
        let m = self.value.mantissa;
        let k = self.value.scale as u64;
        let sd = self.normalize.supply_decimals as u64;
        let rd = self.normalize.reserve_decimals as u64;
        checked_quotient(m.checked_mul(supply), 1, rd, k + sd, Ghost((m * supply) as nat))
    }

    pub fn supply(&self, reserve: u128) -> (r: Result<u128, ContractError>)
        ensures
            agrees(r, self.spec_supply(reserve as nat)),
    {
        let m = self.value.mantissa;
        let k = self.value.scale as u64;
        let sd = self.normalize.supply_decimals as u64;
        let rd = self.normalize.reserve_decimals as u64;
        if m == 0 {
            return Err(ContractError::ArithmeticOverflow);
        }
        checked_quotient(Some(reserve), m, k + sd, rd, Ghost(reserve as nat))
    }
}

impl Linear {
    pub fn new(slope: Decimal, normalize: DecimalPlaces) -> (r: Linear)
        ensures
            r.slope == slope,
            r.normalize == normalize,
    {
        Linear { slope, normalize }
    }

    /// The spot price at a supply, in atomic units of `10^-18` reserve
    /// tokens per supply token.
    pub open spec fn spec_spot_price(self, supply: nat) -> Option<nat> {
        linear_price(
            self.slope.mantissa as nat,
            self.slope.scale as nat,
            self.normalize.supply_decimals as nat,
            supply,
        )
    }

    /// The reserve that backs a supply.
    pub open spec fn spec_reserve(self, supply: nat) -> Option<nat> {
        linear_reserve(
            self.slope.mantissa as nat,
            self.slope.scale as nat,
            self.normalize.supply_decimals as nat,
            self.normalize.reserve_decimals as nat,
            supply,
        )
    }

    /// The supply that a reserve pays for.
    pub open spec fn spec_supply(self, reserve: nat) -> Option<nat> {
        linear_supply(
            self.slope.mantissa as nat,
            self.slope.scale as nat,
            self.normalize.supply_decimals as nat,
            self.normalize.reserve_decimals as nat,
            reserve,
        )
    }

    pub fn spot_price(&self, supply: u128) -> (r: Result<StdDecimal, ContractError>)
        ensures
            price_agrees(r, self.spec_spot_price(supply as nat)),
    {
        let m = self.slope.mantissa;
        let k = self.slope.scale as u64;
        let sd = self.normalize.supply_decimals as u64;
        as_price(
            checked_quotient(m.checked_mul(supply), 1, PRICE_DIGITS, k + sd, Ghost((m * supply) as nat)),
        )
    }

    pub fn reserve(&self, supply: u128) -> (r: Result<u128, ContractError>)
        ensures
            agrees(r, self.spec_reserve(supply as nat)),
    {
        let m = self.slope.mantissa;
        let k = self.slope.scale as u64;
        let sd = self.normalize.supply_decimals as u64;
        let rd = self.normalize.reserve_decimals as u64;
        checked_quotient(
            mul3(m, supply, supply),
            2,
            rd,
            k + 2 * sd,
            Ghost((m * supply * supply) as nat),
        )
    }

    pub fn supply(&self, reserve: u128) -> (r: Result<u128, ContractError>)
        ensures
            agrees(r, self.spec_supply(reserve as nat)),
    {
        let m = self.slope.mantissa;
        let k = self.slope.scale as u64;
        let sd = self.normalize.supply_decimals as u64;
        let rd = self.normalize.reserve_decimals as u64;
        if m == 0 {
            return Err(ContractError::ArithmeticOverflow);
        }
        let doubled = reserve.checked_mul(2);
        assert(reserve * 2 == 2 * reserve);
        match checked_quotient(doubled, m, k + 2 * sd, rd, Ghost((2 * reserve) as nat)) {
            Ok(q) => Ok(integer_sqrt(q)),
            Err(e) => Err(e),
        }
    }
}

impl SquareRoot {
    pub fn new(slope: Decimal, normalize: DecimalPlaces) -> (r: SquareRoot)
        ensures
            r.slope == slope,
            r.normalize == normalize,
    {
        SquareRoot { slope, normalize }
    }

    /// The spot price at a supply, in atomic units of `10^-18` reserve
    /// tokens per supply token.
    pub open spec fn spec_spot_price(self, supply: nat) -> Option<nat> {
        sqrt_price(
            self.slope.mantissa as nat,
            self.slope.scale as nat,
            self.normalize.supply_decimals as nat,
            supply,
        )
    }

    /// The reserve that backs a supply.
    pub open spec fn spec_reserve(self, supply: nat) -> Option<nat> {
        sqrt_reserve(
            self.slope.mantissa as nat,
            self.slope.scale as nat,
            self.normalize.supply_decimals as nat,
            self.normalize.reserve_decimals as nat,
            supply,
        )
    }

    /// The supply that a reserve pays for.
    pub open spec fn spec_supply(self, reserve: nat) -> Option<nat> {
        sqrt_supply(
            self.slope.mantissa as nat,
            self.slope.scale as nat,
            self.normalize.supply_decimals as nat,
            self.normalize.reserve_decimals as nat,
            reserve,
        )
    }

    pub fn spot_price(&self, supply: u128) -> (r: Result<StdDecimal, ContractError>)
        ensures
            price_agrees(r, self.spec_spot_price(supply as nat)),
    {
        let m = self.slope.mantissa;
        let k = self.slope.scale as u64;
        let root = match root_of_supply(self.normalize.supply_decimals, supply) {
            Ok(root) => root,
            Err(e) => { return Err(e); },
        };
        as_price(
            checked_quotient(
                m.checked_mul(root),
                1,
                PRICE_DIGITS,
                k + ROOT_DIGITS,
                Ghost((m * root) as nat),
            ),
        )
    }

    pub fn reserve(&self, supply: u128) -> (r: Result<u128, ContractError>)
        ensures
            agrees(r, self.spec_reserve(supply as nat)),
    {
        let m = self.slope.mantissa;
        let k = self.slope.scale as u64;
        let sd = self.normalize.supply_decimals as u64;
        let rd = self.normalize.reserve_decimals as u64;
        let root = match root_of_supply(self.normalize.supply_decimals, supply) {
            Ok(root) => root,
            Err(e) => { return Err(e); },
        };
        checked_quotient(
            mul4(2, m, supply, root),
            3,
            rd,
            k + sd + ROOT_DIGITS,
            Ghost((2 * m * supply * root) as nat),
        )
    }

    pub fn supply(&self, reserve: u128) -> (r: Result<u128, ContractError>)
        ensures
            agrees(r, self.spec_supply(reserve as nat)),
    {
        let m = self.slope.mantissa;
        let k = self.slope.scale as u64;
        let sd = self.normalize.supply_decimals as u64;
        let rd = self.normalize.reserve_decimals as u64;
        if m == 0 {
            return Err(ContractError::ArithmeticOverflow);
        }
        let up: u64 = 2 * k + 3 * sd;
        let down: u64 = 2 * rd;
        let num = mul3(9, reserve, reserve);
        let ghost n = (9 * reserve * reserve) as nat;
        let ghost d = (4 * m * m) as nat;
        assert(d > 0) by (nonlinear_arith)
            requires
                d == 4 * m * m,
                m > 0,
        ;
        match mul3(4, m, m) {
            Some(den) => match checked_quotient(num, den, up, down, Ghost(n)) {
                Ok(q) => Ok(integer_cbrt(q)),
                Err(e) => Err(e),
            },
            None => {
                let scaled = match num {
                    Some(v) => scale_numerator(v, up, down),
                    None => None,
                };
                proof {
                    lemma_numerator_grows(n, up as nat, down as nat);
                }
                match scaled {
                    Some(v) => {
                        proof {
                            lemma_small_quotient(n, d, up as nat, down as nat);
                            assert(icbrt(0) == 0);
                        }
                        Ok(0)
                    },
                    None => Err(ContractError::ArithmeticOverflow),
                }
            },
        }
    }
}

/// A quotient whose denominator exceeds its cancelled numerator is zero.
pub proof fn lemma_small_quotient(num: nat, den: nat, up: nat, down: nat)
    requires
        scaled_numerator(num, up, down) < den,
    ensures
        scaled_quotient(num, den, up, down) == 0,
{
    crate::math::lemma_scaled_quotient_cancels(num, den, up, down);
    let p = pow10(monus(down, up));
    lemma_pow10_positive(monus(down, up));
    assert(den * p >= den) by (nonlinear_arith)
        requires
            p >= 1,
    ;
    vstd::arithmetic::div_mod::lemma_basic_div(
        scaled_numerator(num, up, down) as int,
        (den * p) as int,
    );
}

/// A curve bound to the decimal places of its two tokens.
#[derive(Clone, Copy, Debug, PartialEq, Eq, Structural)]
pub enum Curve {
    Constant(Constant),
    Linear(Linear),
    SquareRoot(SquareRoot),
}

impl Curve {
    /// The spot price at a supply, in atomic units of `10^-18` reserve
    /// tokens per supply token; `None` where the computation does not fit.
    pub open spec fn spec_spot_price(self, supply: nat) -> Option<nat> {
        match self {
            Curve::Constant(c) => c.spec_spot_price(supply),
            Curve::Linear(c) => c.spec_spot_price(supply),
            Curve::SquareRoot(c) => c.spec_spot_price(supply),
        }
    }

    /// The reserve that backs a supply: the integral of the price up to it.
    /// `None` where the computation does not fit.
    pub open spec fn spec_reserve(self, supply: nat) -> Option<nat> {
        match self {
            Curve::Constant(c) => c.spec_reserve(supply),
            Curve::Linear(c) => c.spec_reserve(supply),
            Curve::SquareRoot(c) => c.spec_reserve(supply),
        }
    }

    /// The supply that a reserve pays for: the inverse of `spec_reserve`.
    /// `None` where the computation does not fit or the curve is flat at
    /// zero.
    pub open spec fn spec_supply(self, reserve: nat) -> Option<nat> {
        match self {
            Curve::Constant(c) => c.spec_supply(reserve),
            Curve::Linear(c) => c.spec_supply(reserve),
            Curve::SquareRoot(c) => c.spec_supply(reserve),
        }
    }

    /// The decimal places the curve is bound to.
    pub open spec fn spec_places(self) -> DecimalPlaces {
        match self {
            Curve::Constant(c) => c.normalize,
            Curve::Linear(c) => c.normalize,
            Curve::SquareRoot(c) => c.normalize,
        }
    }

    pub fn spot_price(&self, supply: u128) -> (r: Result<StdDecimal, ContractError>)
        ensures
            price_agrees(r, self.spec_spot_price(supply as nat)),
    {
        match self {
            Curve::Constant(c) => c.spot_price(supply),
            Curve::Linear(c) => c.spot_price(supply),
            Curve::SquareRoot(c) => c.spot_price(supply),
        }
    }

    pub fn reserve(&self, supply: u128) -> (r: Result<u128, ContractError>)
        ensures
            agrees(r, self.spec_reserve(supply as nat)),
    {
        match self {
            Curve::Constant(c) => c.reserve(supply),
            Curve::Linear(c) => c.reserve(supply),
            Curve::SquareRoot(c) => c.reserve(supply),
        }
    }

    pub fn supply(&self, reserve: u128) -> (r: Result<u128, ContractError>)
        ensures
            agrees(r, self.spec_supply(reserve as nat)),
    {
        match self {
            Curve::Constant(c) => c.supply(reserve),
            Curve::Linear(c) => c.supply(reserve),
            Curve::SquareRoot(c) => c.supply(reserve),
        }
    }
}

} // verus!
