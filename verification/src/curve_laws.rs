//! What holds of the curves: prices, reserves and supplies never fall as
//! their argument grows, and the supply that a reserve pays for is never
//! backed by more than that reserve.

use vstd::prelude::*;
use crate::curves::{
    fit_quotient, supply_root, Constant, Curve, Linear, SquareRoot, PRICE_DIGITS, ROOT_DIGITS,
};
use crate::math::{
    icbrt, isqrt, lemma_cube_monotone, lemma_icbrt_bounds, lemma_icbrt_monotone,
    lemma_isqrt_bounds, lemma_isqrt_monotone, lemma_pow10_add, lemma_pow10_positive,
    lemma_scaled_quotient_cancels, lemma_scaled_quotient_monotone, monus, pow10,
    scaled_denominator, scaled_numerator,
};

verus! {

/// `a` is defined wherever `b` is, and is then no larger.
pub open spec fn no_larger(a: Option<nat>, b: Option<nat>) -> bool {
    b is Some ==> a is Some && a.unwrap() <= b.unwrap()
}

/// A smaller numerator fits wherever a larger one does, and gives no larger
/// a quotient.
pub proof fn lemma_fit_quotient_monotone(n1: nat, n2: nat, den: nat, up: nat, down: nat)
    requires
        n1 <= n2,
        den > 0,
    ensures
        no_larger(fit_quotient(n1, den, up, down), fit_quotient(n2, den, up, down)),
{
    let p = pow10(monus(up, down));
    assert(n1 * p <= n2 * p) by (nonlinear_arith)
        requires
            n1 <= n2,
            p >= 0,
    ;
    lemma_scaled_quotient_monotone(n1, n2, den, up, down);
}

/// The square root of a supply grows with the supply.
pub proof fn lemma_supply_root_monotone(sd: nat, s1: nat, s2: nat)
    requires
        s1 <= s2,
    ensures
        no_larger(supply_root(sd, s1), supply_root(sd, s2)),
{
    let up = 2 * (ROOT_DIGITS as nat);
    lemma_fit_quotient_monotone(s1, s2, 1, up, sd);
    if fit_quotient(s2, 1, up, sd) is Some {
        lemma_isqrt_monotone(fit_quotient(s1, 1, up, sd).unwrap(), fit_quotient(s2, 1, up, sd).unwrap());
    }
}

/// The spot price of a constant curve is the same at every supply.
pub proof fn lemma_constant_price_invariant(curve: Constant, s1: nat, s2: nat)
    ensures
        curve.spec_spot_price(s1) == curve.spec_spot_price(s2),
{
}

/// The spot price of a linear curve never falls as the supply grows: where
/// the price at the larger supply can be computed, so can the price at the
/// smaller, and it is no higher.
pub proof fn lemma_linear_price_monotone(curve: Linear, s1: nat, s2: nat)
    requires
        s1 <= s2,
    ensures
        no_larger(curve.spec_spot_price(s1), curve.spec_spot_price(s2)),
{
    let m = curve.slope.mantissa as nat;
    assert(m * s1 <= m * s2) by (nonlinear_arith)
        requires
            s1 <= s2,
    ;
    lemma_fit_quotient_monotone(
        m * s1,
        m * s2,
        1,
        PRICE_DIGITS as nat,
        curve.slope.scale as nat + curve.normalize.supply_decimals as nat,
    );
}

/// The spot price of a square root curve never falls as the supply grows:
/// where the price at the larger supply can be computed, so can the price
/// at the smaller, and it is no higher.
pub proof fn lemma_sqrt_price_monotone(curve: SquareRoot, s1: nat, s2: nat)
    requires
        s1 <= s2,
    ensures
        no_larger(curve.spec_spot_price(s1), curve.spec_spot_price(s2)),
{
    let m = curve.slope.mantissa as nat;
    let sd = curve.normalize.supply_decimals as nat;
    lemma_supply_root_monotone(sd, s1, s2);
    if supply_root(sd, s2) is Some {
        let r1 = supply_root(sd, s1).unwrap();
        let r2 = supply_root(sd, s2).unwrap();
        assert(m * r1 <= m * r2) by (nonlinear_arith)
            requires
                r1 <= r2,
        ;
        lemma_fit_quotient_monotone(
            m * r1,
            m * r2,
            1,
            PRICE_DIGITS as nat,
            curve.slope.scale as nat + ROOT_DIGITS as nat,
        );
    }
}

/// The spot price of any curve never falls as the supply grows.
pub proof fn lemma_spot_price_monotone(curve: Curve, s1: nat, s2: nat)
    requires
        s1 <= s2,
    ensures
        no_larger(curve.spec_spot_price(s1), curve.spec_spot_price(s2)),
{
    match curve {
        Curve::Constant(c) => lemma_constant_price_invariant(c, s1, s2),
        Curve::Linear(c) => lemma_linear_price_monotone(c, s1, s2),
        Curve::SquareRoot(c) => lemma_sqrt_price_monotone(c, s1, s2),
    }
}

/// The reserve that backs a supply never falls as the supply grows.
pub proof fn lemma_reserve_monotone(curve: Curve, s1: nat, s2: nat)
    requires
        s1 <= s2,
    ensures
        no_larger(curve.spec_reserve(s1), curve.spec_reserve(s2)),
{
    let rd = curve.spec_places().reserve_decimals as nat;
    let sd = curve.spec_places().supply_decimals as nat;
    match curve {
        Curve::Constant(c) => {
            let m = c.value.mantissa as nat;
            assert(m * s1 <= m * s2) by (nonlinear_arith)
                requires
                    s1 <= s2,
            ;
            lemma_fit_quotient_monotone(m * s1, m * s2, 1, rd, c.value.scale as nat + sd);
        },
        Curve::Linear(c) => {
            let m = c.slope.mantissa as nat;
            assert(m * s1 * s1 <= m * s2 * s2) by (nonlinear_arith)
                requires
                    s1 <= s2,
            ;
            lemma_fit_quotient_monotone(
                m * s1 * s1,
                m * s2 * s2,
                2,
                rd,
                c.slope.scale as nat + 2 * sd,
            );
        },
        Curve::SquareRoot(c) => {
            let m = c.slope.mantissa as nat;
            lemma_supply_root_monotone(sd, s1, s2);
            if supply_root(sd, s2) is Some {
                let r1 = supply_root(sd, s1).unwrap();
                let r2 = supply_root(sd, s2).unwrap();
                assert(2 * m * s1 * r1 <= 2 * m * s2 * r2) by (nonlinear_arith)
                    requires
                        s1 <= s2,
                        r1 <= r2,
                ;
                lemma_fit_quotient_monotone(
                    2 * m * s1 * r1,
                    2 * m * s2 * r2,
                    3,
                    rd,
                    c.slope.scale as nat + sd + ROOT_DIGITS as nat,
                );
            }
        },
    }
}

/// The supply that a reserve pays for never falls as the reserve grows.
pub proof fn lemma_supply_monotone(curve: Curve, r1: nat, r2: nat)
    requires
        r1 <= r2,
    ensures
        no_larger(curve.spec_supply(r1), curve.spec_supply(r2)),
{
    let rd = curve.spec_places().reserve_decimals as nat;
    let sd = curve.spec_places().supply_decimals as nat;
    match curve {
        Curve::Constant(c) => {
            let m = c.value.mantissa as nat;
            if m > 0 {
                lemma_fit_quotient_monotone(r1, r2, m, c.value.scale as nat + sd, rd);
            }
        },
        Curve::Linear(c) => {
            let m = c.slope.mantissa as nat;
            let up = c.slope.scale as nat + 2 * sd;
            if m > 0 {
                lemma_fit_quotient_monotone(2 * r1, 2 * r2, m, up, rd);
                if fit_quotient(2 * r2, m, up, rd) is Some {
                    lemma_isqrt_monotone(
                        fit_quotient(2 * r1, m, up, rd).unwrap(),
                        fit_quotient(2 * r2, m, up, rd).unwrap(),
                    );
                }
            }
        },
        Curve::SquareRoot(c) => {
            let m = c.slope.mantissa as nat;
            let up = 2 * (c.slope.scale as nat) + 3 * sd;
            let down = 2 * rd;
            if m > 0 {
                let den = 4 * m * m;
                assert(den > 0) by (nonlinear_arith)
                    requires
                        den == 4 * m * m,
                        m > 0,
                ;
                assert(9 * r1 * r1 <= 9 * r2 * r2) by (nonlinear_arith)
                    requires
                        r1 <= r2,
                ;
                lemma_fit_quotient_monotone(9 * r1 * r1, 9 * r2 * r2, den, up, down);
                if fit_quotient(9 * r2 * r2, den, up, down) is Some {
                    lemma_icbrt_monotone(
                        fit_quotient(9 * r1 * r1, den, up, down).unwrap(),
                        fit_quotient(9 * r2 * r2, den, up, down).unwrap(),
                    );
                }
            }
        },
    }
}

/// A quotient, rounded down, times its divisor is no more than the dividend.
pub proof fn lemma_quotient_times_divisor(a: int, d: int)
    requires
        a >= 0,
        d > 0,
    ensures
        0 <= (a / d) * d <= a,
{
    vstd::arithmetic::div_mod::lemma_fundamental_div_mod(a, d);
    vstd::arithmetic::div_mod::lemma_mod_bound(a, d);
    vstd::arithmetic::div_mod::lemma_div_pos_is_pos(a, d);
    assert((a / d) * d == d * (a / d)) by (nonlinear_arith);
    assert((a / d) * d >= 0) by (nonlinear_arith)
        requires
            a / d >= 0,
            d > 0,
    ;
}

/// What is at most `b` times the divisor has a quotient of at most `b`.
pub proof fn lemma_quotient_at_most(a: int, b: int, d: int)
    requires
        0 <= a <= b * d,
        d > 0,
    ensures
        a / d <= b,
{
    assert(b >= 0) by (nonlinear_arith)
        requires
            0 <= b * d,
            d > 0,
    ;
    vstd::arithmetic::div_mod::lemma_div_is_ordered(a, b * d, d);
    vstd::arithmetic::div_mod::lemma_div_by_multiple(b, d);
}

/// On a constant curve the supply that a reserve pays for is backed by no
/// more than that reserve.
pub proof fn lemma_constant_inverse_bounded(curve: Constant, reserve: nat)
    requires
        curve.spec_supply(reserve) is Some,
    ensures
        curve.spec_reserve(curve.spec_supply(reserve).unwrap()) is Some ==> curve.spec_reserve(
            curve.spec_supply(reserve).unwrap(),
        ).unwrap() <= reserve,
{
    let m = curve.value.mantissa as int;
    let tu = pow10(curve.value.scale as nat + curve.normalize.supply_decimals as nat) as int;
    let td = pow10(curve.normalize.reserve_decimals as nat) as int;
    let x = reserve as int;
    lemma_pow10_positive(curve.value.scale as nat + curve.normalize.supply_decimals as nat);
    lemma_pow10_positive(curve.normalize.reserve_decimals as nat);
    let s = curve.spec_supply(reserve).unwrap() as int;
    assert(m * td > 0) by (nonlinear_arith)
        requires
            m > 0,
            td > 0,
    ;
    assert(s == (x * tu) / (m * td));
    assert(x * tu >= 0) by (nonlinear_arith)
        requires
            x >= 0,
            tu > 0,
    ;
    lemma_quotient_times_divisor(x * tu, m * td);
    assert((m * s) * td == s * (m * td)) by (nonlinear_arith);
    assert(x * (1 * tu) == x * tu) by (nonlinear_arith);
    lemma_quotient_at_most((m * s) * td, x, 1 * tu);
}

/// On a linear curve the supply that a reserve pays for is backed by no
/// more than that reserve.
pub proof fn lemma_linear_inverse_bounded(curve: Linear, reserve: nat)
    requires
        curve.spec_supply(reserve) is Some,
    ensures
        curve.spec_reserve(curve.spec_supply(reserve).unwrap()) is Some ==> curve.spec_reserve(
            curve.spec_supply(reserve).unwrap(),
        ).unwrap() <= reserve,
{
    let m = curve.slope.mantissa as int;
    let up = curve.slope.scale as nat + 2 * (curve.normalize.supply_decimals as nat);
    let tu = pow10(up) as int;
    let td = pow10(curve.normalize.reserve_decimals as nat) as int;
    let x = reserve as int;
    lemma_pow10_positive(up);
    lemma_pow10_positive(curve.normalize.reserve_decimals as nat);
    assert(m * td > 0) by (nonlinear_arith)
        requires
            m > 0,
            td > 0,
    ;
    let t = ((2 * x) * tu) / (m * td);
    let s = curve.spec_supply(reserve).unwrap() as int;
    assert(s == isqrt(t as nat)) by {
        assert((2 * x) * tu >= 0) by (nonlinear_arith)
            requires
                x >= 0,
                tu > 0,
        ;
        vstd::arithmetic::div_mod::lemma_div_pos_is_pos((2 * x) * tu, m * td);
    }
    assert((2 * x) * tu >= 0) by (nonlinear_arith)
        requires
            x >= 0,
            tu > 0,
    ;
    lemma_quotient_times_divisor((2 * x) * tu, m * td);
    lemma_isqrt_bounds(t as nat);
    assert((m * s * s) * td <= x * (2 * tu)) by (nonlinear_arith)
        requires
            s * s <= t,
            t * (m * td) <= (2 * x) * tu,
            m * td > 0,
    ;
    assert((m * s * s) * td >= 0) by (nonlinear_arith)
        requires
            m > 0,
            td > 0,
    ;
    lemma_quotient_at_most((m * s * s) * td, x, 2 * tu);
}

/// On a square root curve, with the supply that a reserve pays for: the
/// numerator of the reserve that backs it, and three times the reserve
/// times the denominator's power of ten. The first is no more than the
/// second.
pub proof fn lemma_sqrt_inverse_products(curve: SquareRoot, reserve: nat) -> (r: (int, int))
    requires
        curve.spec_supply(reserve) is Some,
        supply_root(
            curve.normalize.supply_decimals as nat,
            curve.spec_supply(reserve).unwrap(),
        ) is Some,
    ensures
        ({
            let s = curve.spec_supply(reserve).unwrap();
            let root = supply_root(curve.normalize.supply_decimals as nat, s).unwrap();
            let e = curve.slope.scale as nat + curve.normalize.supply_decimals as nat
                + ROOT_DIGITS as nat;
            let rd = curve.normalize.reserve_decimals as nat;
            &&& r.0 == (2 * (curve.slope.mantissa as int) * s * root) * (pow10(rd) as int)
            &&& r.1 == reserve * (3 * (pow10(e) as int))
            &&& 0 <= r.0 <= r.1
        }),
{
    let m = curve.slope.mantissa as int;
    let k = curve.slope.scale as nat;
    let sd = curve.normalize.supply_decimals as nat;
    let rd = curve.normalize.reserve_decimals as nat;
    let e = k + sd + ROOT_DIGITS as nat;
    let x = reserve as int;
    let t_up = pow10(2 * k + 3 * sd) as int;
    let t_down = pow10(2 * rd) as int;
    let t_rd = pow10(rd) as int;
    let t_sd = pow10(sd) as int;
    let t_12 = pow10(2 * (ROOT_DIGITS as nat)) as int;
    let t_e = pow10(e) as int;
    lemma_pow10_positive(2 * k + 3 * sd);
    lemma_pow10_positive(2 * rd);
    lemma_pow10_positive(rd);
    lemma_pow10_positive(sd);
    lemma_pow10_positive(2 * (ROOT_DIGITS as nat));
    lemma_pow10_positive(e);
    lemma_pow10_add(rd, rd);
    lemma_pow10_add(2 * k + 3 * sd, 2 * (ROOT_DIGITS as nat));
    lemma_pow10_add(e, e);
    lemma_pow10_add(e + e, sd);
    assert(2 * k + 3 * sd + 2 * (ROOT_DIGITS as nat) == e + e + sd);
    assert(t_up * t_12 == (t_e * t_e) * t_sd);
    assert(t_down == t_rd * t_rd);

    let den = (4 * m * m) * t_down;
    let num = (9 * x * x) * t_up;
    assert(den > 0) by (nonlinear_arith)
        requires
            den == (4 * m * m) * t_down,
            m > 0,
            t_down > 0,
    ;
    assert(num >= 0) by (nonlinear_arith)
        requires
            num == (9 * x * x) * t_up,
            t_up > 0,
    ;
    let q = num / den;
    vstd::arithmetic::div_mod::lemma_div_pos_is_pos(num, den);
    lemma_quotient_times_divisor(num, den);
    let s = curve.spec_supply(reserve).unwrap() as int;
    assert(4 * (m as nat) * (m as nat) == 4 * m * m);
    assert(s == icbrt(q as nat));
    lemma_icbrt_bounds(q as nat);
    let cube = s * s * s;
    assert(cube <= q);

    let g = (s * t_12) / (1 * t_sd);
    assert(s * t_12 >= 0) by (nonlinear_arith)
        requires
            s >= 0,
            t_12 > 0,
    ;
    vstd::arithmetic::div_mod::lemma_div_pos_is_pos(s * t_12, 1 * t_sd);
    lemma_quotient_times_divisor(s * t_12, 1 * t_sd);
    let root = isqrt(g as nat) as int;
    assert(supply_root(sd, s as nat) == Some(root as nat));
    lemma_isqrt_bounds(g as nat);
    let square = root * root;
    assert(square <= g);
    assert(square * t_sd <= s * t_12) by (nonlinear_arith)
        requires
            square <= g,
            g * (1 * t_sd) <= s * t_12,
            t_sd > 0,
    ;
    let a = (2 * m * s * root) * t_rd;
    let b = x * (3 * t_e);
    let half = (4 * m * m) * t_down;
    assert(a * a == (half * (s * s)) * square) by (nonlinear_arith)
        requires
            a == (2 * m * s * root) * t_rd,
            half == (4 * m * m) * t_down,
            t_down == t_rd * t_rd,
            square == root * root,
    ;
    assert(half * (s * s) >= 0) by (nonlinear_arith)
        requires
            half > 0,
    ;
    assert(((half * (s * s)) * square) * t_sd <= (half * (s * s)) * (s * t_12))
        by (nonlinear_arith)
        requires
            square * t_sd <= s * t_12,
            half * (s * s) >= 0,
    ;
    assert((half * (s * s)) * (s * t_12) == (cube * half) * t_12) by (nonlinear_arith)
        requires
            cube == s * s * s,
    ;
    assert(cube * half <= num) by (nonlinear_arith)
        requires
            cube <= q,
            q * half <= num,
            half > 0,
    ;
    assert((cube * half) * t_12 <= num * t_12) by (nonlinear_arith)
        requires
            cube * half <= num,
            t_12 > 0,
    ;
    assert(num * t_12 == (b * b) * t_sd) by (nonlinear_arith)
        requires
            num == (9 * x * x) * t_up,
            b == x * (3 * t_e),
            t_up * t_12 == (t_e * t_e) * t_sd,
    ;
    assert((a * a) * t_sd <= (b * b) * t_sd);
    assert(a * a <= b * b) by (nonlinear_arith)
        requires
            (a * a) * t_sd <= (b * b) * t_sd,
            t_sd > 0,
    ;
    assert(a >= 0) by (nonlinear_arith)
        requires
            a == (2 * m * s * root) * t_rd,
            m > 0,
            s >= 0,
            root >= 0,
            t_rd > 0,
    ;
    assert(b >= 0) by (nonlinear_arith)
        requires
            b == x * (3 * t_e),
            x >= 0,
            t_e > 0,
    ;
    assert(a <= b) by (nonlinear_arith)
        requires
            a * a <= b * b,
            a >= 0,
            b >= 0,
    ;
    (a, b)
}

/// On a square root curve the supply that a reserve pays for is backed by
/// no more than that reserve.
pub proof fn lemma_sqrt_inverse_bounded(curve: SquareRoot, reserve: nat)
    requires
        curve.spec_supply(reserve) is Some,
    ensures
        curve.spec_reserve(curve.spec_supply(reserve).unwrap()) is Some ==> curve.spec_reserve(
            curve.spec_supply(reserve).unwrap(),
        ).unwrap() <= reserve,
{
    let s = curve.spec_supply(reserve).unwrap();
    if curve.spec_reserve(s) is Some {
        let sd = curve.normalize.supply_decimals as nat;
        let e = curve.slope.scale as nat + sd + ROOT_DIGITS as nat;
        let root = supply_root(sd, s).unwrap();
        let m = curve.slope.mantissa as int;
        let (a, b) = lemma_sqrt_inverse_products(curve, reserve);
        lemma_pow10_positive(e);
        lemma_quotient_at_most(a, reserve as int, 3 * (pow10(e) as int));
        assert(2 * (m as nat) * s * root == 2 * m * s * root);
    }
}

/// A power of ten is the product of what is left of it after cancelling
/// against another and what the two have in common.
pub proof fn lemma_pow10_split(a: nat, b: nat)
    ensures
        pow10(a) == pow10(monus(a, b)) * pow10(if a <= b { a } else { b }),
        pow10(b) == pow10(monus(b, a)) * pow10(if a <= b { a } else { b }),
{
    let c: nat = if a <= b { a } else { b };
    lemma_pow10_add(monus(a, b), c);
    lemma_pow10_add(monus(b, a), c);
    assert(monus(a, b) + c == a);
    assert(monus(b, a) + c == b);
}

/// On a constant curve the reserve that backs the supply that a reserve
/// pays for can be computed.
pub proof fn lemma_constant_inverse_fits(curve: Constant, reserve: nat)
    requires
        curve.spec_supply(reserve) is Some,
    ensures
        curve.spec_reserve(curve.spec_supply(reserve).unwrap()) is Some,
{
    let m = curve.value.mantissa as nat;
    let up = curve.value.scale as nat + curve.normalize.supply_decimals as nat;
    let down = curve.normalize.reserve_decimals as nat;
    let s = curve.spec_supply(reserve).unwrap();
    lemma_scaled_quotient_cancels(reserve, m, up, down);
    let n = scaled_numerator(reserve, up, down) as int;
    let d = scaled_denominator(m, up, down) as int;
    lemma_quotient_times_divisor(n, d);
    let p = pow10(monus(down, up)) as int;
    assert((m * s) * p == s * (m * p)) by (nonlinear_arith);
}

/// On a linear curve the reserve that backs the supply that a reserve pays
/// for can be computed.
pub proof fn lemma_linear_inverse_fits(curve: Linear, reserve: nat)
    requires
        curve.spec_supply(reserve) is Some,
    ensures
        curve.spec_reserve(curve.spec_supply(reserve).unwrap()) is Some,
{
    let m = curve.slope.mantissa as nat;
    let up = curve.slope.scale as nat + 2 * (curve.normalize.supply_decimals as nat);
    let down = curve.normalize.reserve_decimals as nat;
    let s = curve.spec_supply(reserve).unwrap() as int;
    lemma_scaled_quotient_cancels(2 * reserve, m, up, down);
    let n = scaled_numerator(2 * reserve, up, down) as int;
    let d = scaled_denominator(m, up, down) as int;
    let t = n / d;
    lemma_quotient_times_divisor(n, d);
    vstd::arithmetic::div_mod::lemma_div_pos_is_pos(n, d);
    lemma_isqrt_bounds(t as nat);
    let p = pow10(monus(down, up)) as int;
    assert((m * s * s) * p <= n) by (nonlinear_arith)
        requires
            s * s <= t,
            t * d <= n,
            d == m * p,
            d > 0,
    ;
    assert((m * (s as nat) * (s as nat)) * pow10(monus(down, up)) == (m * s * s) * p)
        by (nonlinear_arith)
        requires
            p == pow10(monus(down, up)),
            s >= 0,
    ;
}

/// On a square root curve the reserve that backs the supply that a reserve
/// pays for can be computed.
pub proof fn lemma_sqrt_inverse_fits(curve: SquareRoot, reserve: nat)
    requires
        curve.spec_supply(reserve) is Some,
    ensures
        curve.spec_reserve(curve.spec_supply(reserve).unwrap()) is Some,
{
    let m = curve.slope.mantissa as int;
    let k = curve.slope.scale as nat;
    let sd = curve.normalize.supply_decimals as nat;
    let rd = curve.normalize.reserve_decimals as nat;
    let e = k + sd + ROOT_DIGITS as nat;
    let up = 2 * k + 3 * sd;
    let down = 2 * rd;
    let x = reserve as int;
    let max = u128::MAX as int;
    let s = curve.spec_supply(reserve).unwrap() as int;
    let den = 4 * (m as nat) * (m as nat);
    assert(den > 0) by (nonlinear_arith)
        requires
            den == 4 * (m as nat) * (m as nat),
            m > 0,
    ;
    let work = scaled_numerator((9 * reserve * reserve) as nat, up, down) as int;
    lemma_scaled_quotient_cancels((9 * reserve * reserve) as nat, den, up, down);
    let q = work / (scaled_denominator(den, up, down) as int);
    lemma_quotient_times_divisor(work, scaled_denominator(den, up, down) as int);
    vstd::arithmetic::div_mod::lemma_div_pos_is_pos(work, scaled_denominator(den, up, down) as int);
    assert(q <= work) by (nonlinear_arith)
        requires
            q * (scaled_denominator(den, up, down) as int) <= work,
            scaled_denominator(den, up, down) as int >= 1,
            q >= 0,
    ;
    lemma_icbrt_bounds(q as nat);
    // The supply is a cube root of a `u128`, so its root is cheap to scale.
    assert(s <= 6981463658331) by {
        if s >= 6981463658332 {
            lemma_cube_monotone(6981463658332, s as nat);
            assert(6981463658332int * 6981463658332int * 6981463658332int > u128::MAX);
        }
    }
    let t_12 = pow10(2 * (ROOT_DIGITS as nat)) as int;
    assert(t_12 == 1_000_000_000_000) by {
        reveal_with_fuel(pow10, 13);
    }
    lemma_pow10_positive(monus(2 * (ROOT_DIGITS as nat), sd));
    lemma_pow10_split(2 * (ROOT_DIGITS as nat), sd);
    lemma_pow10_positive(if 2 * (ROOT_DIGITS as nat) <= sd { 2 * (ROOT_DIGITS as nat) } else { sd });
    let part = pow10(monus(2 * (ROOT_DIGITS as nat), sd)) as int;
    assert(part <= t_12) by (nonlinear_arith)
        requires
            t_12 == part * (pow10(
                if 2 * (ROOT_DIGITS as nat) <= sd {
                    2 * (ROOT_DIGITS as nat)
                } else {
                    sd
                },
            ) as int),
            pow10(if 2 * (ROOT_DIGITS as nat) <= sd { 2 * (ROOT_DIGITS as nat) } else { sd }) >= 1,
            part >= 1,
    ;
    assert(s * part <= 6981463658331 * 1_000_000_000_000) by (nonlinear_arith)
        requires
            0 <= s <= 6981463658331,
            0 <= part <= 1_000_000_000_000,
    ;
    assert(supply_root(sd, s as nat) is Some);
    let root = supply_root(sd, s as nat).unwrap() as int;

    // The numerator of the reserve is bounded by three times the reserve,
    // scaled, whose square the computation of the supply has held.
    lemma_sqrt_inverse_scaled(curve, reserve);
    let p_r = pow10(monus(rd, e)) as int;
    let p_e = pow10(monus(e, rd)) as int;
    let a = (2 * m * s * root) * p_r;
    let b = (3 * x) * p_e;
    assert(a <= b);
    lemma_pow10_positive(monus(e, rd));
    lemma_pow10_positive(monus(up, down));
    let p_u = pow10(monus(up, down)) as int;
    assert(work == (9 * x * x) * p_u);
    if e < rd {
        assert(p_e == 1);
        assert(b * b <= max) by (nonlinear_arith)
            requires
                b == (3 * x) * p_e,
                p_e == 1,
                (9 * x * x) * p_u <= max,
                p_u >= 1,
                x >= 0,
        ;
    } else {
        let c: nat = if up <= down { up } else { down };
        lemma_pow10_split(up, down);
        lemma_pow10_positive(c);
        lemma_pow10_positive(down);
        lemma_pow10_positive(sd);
        lemma_pow10_add((e - rd) as nat, (e - rd) as nat);
        lemma_pow10_add(((e - rd) + (e - rd)) as nat, sd);
        lemma_pow10_add(((e - rd) + (e - rd) + sd) as nat, down);
        lemma_pow10_add(up, 2 * (ROOT_DIGITS as nat));
        assert((e - rd) + (e - rd) + sd + down == up + 2 * (ROOT_DIGITS as nat));
        let t_u = pow10(up) as int;
        let t_d = pow10(down) as int;
        let t_sd = pow10(sd) as int;
        let t_c = pow10(c) as int;
        assert(((p_e * p_e) * t_sd) * t_d == t_u * t_12);
        assert(t_u == p_u * t_c);
        assert(t_c <= t_d) by (nonlinear_arith)
            requires
                t_d == (pow10(monus(down, up)) as int) * t_c,
                pow10(monus(down, up)) >= 1,
                t_c >= 1,
        ;
        lemma_pow10_positive(monus(down, up));
        assert(((b * b) * t_sd) * t_d <= (work * t_12) * t_d) by (nonlinear_arith)
            requires
                b == (3 * x) * p_e,
                work == (9 * x * x) * p_u,
                ((p_e * p_e) * t_sd) * t_d == t_u * t_12,
                t_u == p_u * t_c,
                1 <= t_c <= t_d,
                t_12 >= 1,
                p_u >= 1,
                x >= 0,
        ;
        assert((b * b) * t_sd <= work * t_12) by (nonlinear_arith)
            requires
                ((b * b) * t_sd) * t_d <= (work * t_12) * t_d,
                t_d >= 1,
        ;
        assert(b * b <= max * 1_000_000_000_000) by (nonlinear_arith)
            requires
                (b * b) * t_sd <= work * t_12,
                t_sd >= 1,
                work <= max,
                t_12 == 1_000_000_000_000,
                b * b >= 0,
        ;
    }
    assert(b <= max) by (nonlinear_arith)
        requires
            b * b <= max * 1_000_000_000_000,
            max == 0xffff_ffff_ffff_ffff_ffff_ffff_ffff_ffff,
            b >= 0,
    ;
    assert(2 * (m as nat) * (s as nat) * (root as nat) == 2 * m * s * root);
}

/// On a square root curve, with the supply that a reserve pays for, the
/// numerator of the reserve that backs it is no more than three times the
/// reserve, both scaled as the reserve's quotient scales them.
pub proof fn lemma_sqrt_inverse_scaled(curve: SquareRoot, reserve: nat)
    requires
        curve.spec_supply(reserve) is Some,
        supply_root(
            curve.normalize.supply_decimals as nat,
            curve.spec_supply(reserve).unwrap(),
        ) is Some,
    ensures
        ({
            let s = curve.spec_supply(reserve).unwrap();
            let root = supply_root(curve.normalize.supply_decimals as nat, s).unwrap();
            let e = curve.slope.scale as nat + curve.normalize.supply_decimals as nat
                + ROOT_DIGITS as nat;
            let rd = curve.normalize.reserve_decimals as nat;
            (2 * (curve.slope.mantissa as int) * s * root) * pow10(monus(rd, e)) <= (3 * reserve)
                * pow10(monus(e, rd))
        }),
{
    let m = curve.slope.mantissa as int;
    let k = curve.slope.scale as nat;
    let sd = curve.normalize.supply_decimals as nat;
    let rd = curve.normalize.reserve_decimals as nat;
    let e = k + sd + ROOT_DIGITS as nat;
    let x = reserve as int;
    let s = curve.spec_supply(reserve).unwrap() as int;
    let root = supply_root(sd, s as nat).unwrap() as int;
    let (a, b) = lemma_sqrt_inverse_products(curve, reserve);
    let c: nat = if rd <= e { rd } else { e };
    lemma_pow10_split(rd, e);
    lemma_pow10_positive(c);
    let t_c = pow10(c) as int;
    let p_r = pow10(monus(rd, e)) as int;
    let p_e = pow10(monus(e, rd)) as int;
    assert(((2 * m * s * root) * p_r) * t_c == a) by (nonlinear_arith)
        requires
            a == (2 * m * s * root) * (pow10(rd) as int),
            pow10(rd) as int == p_r * t_c,
    ;
    assert(((3 * x) * p_e) * t_c == b) by (nonlinear_arith)
        requires
            b == x * (3 * (pow10(e) as int)),
            pow10(e) as int == p_e * t_c,
    ;
    assert((2 * m * s * root) * p_r <= (3 * x) * p_e) by (nonlinear_arith)
        requires
            ((2 * m * s * root) * p_r) * t_c <= ((3 * x) * p_e) * t_c,
            t_c >= 1,
    ;
}

/// The reserve that backs the supply that a reserve pays for can be
/// computed, and it is no more than that reserve: rounding never favours
/// the buyer.
pub proof fn lemma_inverse_bounded(curve: Curve, reserve: nat)
    requires
        curve.spec_supply(reserve) is Some,
    ensures
        curve.spec_reserve(curve.spec_supply(reserve).unwrap()) is Some,
        curve.spec_reserve(curve.spec_supply(reserve).unwrap()).unwrap() <= reserve,
{
    match curve {
        Curve::Constant(c) => {
            lemma_constant_inverse_fits(c, reserve);
            lemma_constant_inverse_bounded(c, reserve);
        },
        Curve::Linear(c) => {
            lemma_linear_inverse_fits(c, reserve);
            lemma_linear_inverse_bounded(c, reserve);
        },
        Curve::SquareRoot(c) => {
            lemma_sqrt_inverse_fits(c, reserve);
            lemma_sqrt_inverse_bounded(c, reserve);
        },
    }
}

} // verus!
