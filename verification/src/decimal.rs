//! Fractions in fixed point with eighteen decimal digits, as ratios and
//! prices are exchanged with the chain.

use vstd::prelude::*;

verus! {

/// The atomic units that make one whole: `10^18`.
pub const DECIMAL_FRACTIONAL: u128 = 1_000_000_000_000_000_000;

/// The atomic units that make one percent: `10^16`.
pub const PERCENT_FRACTIONAL: u128 = 10_000_000_000_000_000;

/// A non-negative fraction held as a count of atomic units of `10^-18`.
#[derive(Clone, Copy, Debug, PartialEq, Eq, Structural)]
pub struct StdDecimal {
    pub atomics: u128,
}

/// `amount × ratio`, rounded down, with the ratio given in atomic units.
pub open spec fn spec_mul_floor(amount: nat, atomics: nat) -> nat {
    amount * atomics / (DECIMAL_FRACTIONAL as nat)
}

/// Calls `cosmwasm_std::Decimal::percent` and reads the atomic units of what
/// it returns. Trusted: the result is `x` times `10^16`.
#[verifier::external_body]
fn percent_atomics(x: u64) -> (r: u128)
    ensures
        r == x * PERCENT_FRACTIONAL,
{
    cosmwasm_std::Decimal::percent(x).atomics().u128()
}

/// Calls `cosmwasm_std::Uint128::checked_mul_floor` with a
/// `cosmwasm_std::Decimal` of the given atomic units. Trusted: the product
/// is taken in 256 bits and divided by `10^18` rounding down, and the call
/// fails exactly where that quotient exceeds `u128`.
#[verifier::external_body]
fn mul_floor_atomics(amount: u128, atomics: u128) -> (r: Option<u128>)
    ensures
        match r {
            Some(v) => v == spec_mul_floor(amount as nat, atomics as nat),
            None => spec_mul_floor(amount as nat, atomics as nat) > u128::MAX,
        },
{
    let ratio = cosmwasm_std::Decimal::raw(atomics);
    match cosmwasm_std::Uint128::new(amount).checked_mul_floor(ratio) {
        Ok(v) => Some(v.u128()),
        Err(_) => None,
    }
}

/// A ratio of at most one takes at most the whole amount.
pub proof fn lemma_mul_floor_bounded(amount: nat, atomics: nat)
    requires
        atomics <= DECIMAL_FRACTIONAL,
    ensures
        spec_mul_floor(amount, atomics) <= amount,
{
    let f = DECIMAL_FRACTIONAL as int;
    assert(amount * atomics <= amount * f) by (nonlinear_arith)
        requires
            atomics <= f,
    ;
    vstd::arithmetic::div_mod::lemma_div_is_ordered(
        (amount * atomics) as int,
        (amount * f) as int,
        f,
    );
    vstd::arithmetic::div_mod::lemma_div_by_multiple(amount as int, f);
}

/// A ratio of zero takes nothing.
pub proof fn lemma_mul_floor_zero(amount: nat)
    ensures
        spec_mul_floor(amount, 0) == 0,
{
    assert(amount * 0 == 0) by (nonlinear_arith);
}

impl StdDecimal {
    /// Whether the fraction lies in `[0, 1]`.
    pub open spec fn is_ratio(self) -> bool {
        self.atomics <= DECIMAL_FRACTIONAL
    }

    /// The fraction zero.
    pub fn zero() -> (r: StdDecimal)
        ensures
            r.atomics == 0,
    {
        StdDecimal { atomics: 0 }
    }

    /// The fraction one.
    pub fn one() -> (r: StdDecimal)
        ensures
            r.atomics == DECIMAL_FRACTIONAL,
    {
        StdDecimal { atomics: DECIMAL_FRACTIONAL }
    }

    /// `x` percent as a fraction.
    pub fn percent(x: u64) -> (r: StdDecimal)
        ensures
            r.atomics == x * PERCENT_FRACTIONAL,
    {
        StdDecimal { atomics: percent_atomics(x) }
    }

    /// `amount × self`, rounded down; `None` where it exceeds `u128`.
    pub fn mul_floor(&self, amount: u128) -> (r: Option<u128>)
        ensures
            match r {
                Some(v) => v == spec_mul_floor(amount as nat, self.atomics as nat),
                None => spec_mul_floor(amount as nat, self.atomics as nat) > u128::MAX,
            },
    {
        mul_floor_atomics(amount, self.atomics)
    }

    /// Whether the fraction is at most one hundred percent.
    pub fn at_most_one(&self) -> (b: bool)
        ensures
            b == self.is_ratio(),
    {
        self.atomics <= StdDecimal::percent(100).atomics
    }
}

} // verus!
