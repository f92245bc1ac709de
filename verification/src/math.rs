//! Integer building blocks of the curve arithmetic: powers of ten, quotients
//! of decimally scaled numbers, and integer square and cube roots.

use vstd::prelude::*;
use vstd::arithmetic::div_mod::{lemma_div_is_ordered, lemma_div_multiples_vanish_quotient};

verus! {

/// `10^n`.
pub open spec fn pow10(n: nat) -> nat
    decreases n,
{
    if n == 0 {
        1
    } else {
        10 * pow10((n - 1) as nat)
    }
}

/// `a - b`, or zero where `b` is the larger.
pub open spec fn monus(a: nat, b: nat) -> nat {
    if a >= b {
        (a - b) as nat
    } else {
        0
    }
}

/// `num × 10^up / (den × 10^down)`, rounded down.
pub open spec fn scaled_quotient(num: nat, den: nat, up: nat, down: nat) -> nat {
    (num * pow10(up)) / (den * pow10(down))
}

/// The numerator of `scaled_quotient` once the common power of ten is
/// cancelled. It is the largest number the computation has to hold.
pub open spec fn scaled_numerator(num: nat, up: nat, down: nat) -> nat {
    num * pow10(monus(up, down))
}

/// The denominator of `scaled_quotient` once the common power of ten is
/// cancelled.
pub open spec fn scaled_denominator(den: nat, up: nat, down: nat) -> nat {
    den * pow10(monus(down, up))
}

pub proof fn lemma_pow10_positive(n: nat)
    ensures
        pow10(n) >= 1,
    decreases n,
{
    if n > 0 {
        lemma_pow10_positive((n - 1) as nat);
    }
}

pub proof fn lemma_pow10_monotone(a: nat, b: nat)
    requires
        a <= b,
    ensures
        pow10(a) <= pow10(b),
    decreases b,
{
    if a < b {
        lemma_pow10_monotone(a, (b - 1) as nat);
    }
}

pub proof fn lemma_pow10_add(a: nat, b: nat)
    ensures
        pow10(a + b) == pow10(a) * pow10(b),
    decreases a,
{
    if a == 0 {
        assert(pow10(0) == 1);
        assert(pow10(a) * pow10(b) == pow10(b)) by (nonlinear_arith)
            requires
                pow10(a) == 1,
        ;
    } else {
        let a1 = (a - 1) as nat;
        lemma_pow10_add(a1, b);
        assert(pow10(a + b) == 10 * pow10(a1 + b));
        assert(10 * (pow10(a1) * pow10(b)) == (10 * pow10(a1)) * pow10(b)) by (nonlinear_arith);
    }
}

/// Cancelling the common power of ten leaves the quotient unchanged.
pub proof fn lemma_scaled_quotient_cancels(num: nat, den: nat, up: nat, down: nat)
    requires
        den > 0,
    ensures
        scaled_denominator(den, up, down) > 0,
        scaled_quotient(num, den, up, down) == scaled_numerator(num, up, down)
            / scaled_denominator(den, up, down),
{
    let c: nat = if up <= down { up } else { down };
    let u = monus(up, down);
    let d = monus(down, up);
    lemma_pow10_add(u, c);
    lemma_pow10_add(d, c);
    lemma_pow10_positive(c);
    lemma_pow10_positive(d);
    lemma_pow10_positive(u);
    assert(u + c == up);
    assert(d + c == down);
    let pc = pow10(c) as int;
    let a = (num * pow10(u)) as int;
    let b = (den * pow10(d)) as int;
    assert(b > 0) by (nonlinear_arith)
        requires
            b == den * pow10(d),
            den > 0,
            pow10(d) >= 1,
    ;
    assert(a >= 0);
    lemma_div_multiples_vanish_quotient(pc, a, b);
    assert(pc * a == num * pow10(up)) by (nonlinear_arith)
        requires
            a == num * pow10(u),
            pow10(up) == pow10(u) * pow10(c),
            pc == pow10(c),
    ;
    assert(pc * b == den * pow10(down)) by (nonlinear_arith)
        requires
            b == den * pow10(d),
            pow10(down) == pow10(d) * pow10(c),
            pc == pow10(c),
    ;
}

/// A larger numerator never gives a smaller quotient.
pub proof fn lemma_scaled_quotient_monotone(n1: nat, n2: nat, den: nat, up: nat, down: nat)
    requires
        n1 <= n2,
        den > 0,
    ensures
        scaled_quotient(n1, den, up, down) <= scaled_quotient(n2, den, up, down),
{
    lemma_pow10_positive(up);
    lemma_pow10_positive(down);
    let pu = pow10(up) as int;
    let pd = pow10(down) as int;
    assert(n1 * pu <= n2 * pu) by (nonlinear_arith)
        requires
            n1 <= n2,
            pu >= 1,
    ;
    assert(den * pd > 0) by (nonlinear_arith)
        requires
            den > 0,
            pd >= 1,
    ;
    lemma_div_is_ordered(n1 * pu, n2 * pu, den * pd);
}

/// `10^n`, where it fits.
pub fn checked_pow10(n: u64) -> (r: Option<u128>)
    ensures
        match r {
            Some(v) => v == pow10(n as nat),
            None => pow10(n as nat) > u128::MAX,
        },
{
    let mut acc: u128 = 1;
    let mut i: u64 = 0;
    while i < n
        invariant
            i <= n,
            acc == pow10(i as nat),
        decreases n - i,
    {
        match acc.checked_mul(10) {
            Some(next) => {
                acc = next;
            },
            None => {
                proof {
                    assert(pow10((i + 1) as nat) == 10 * pow10(i as nat));
                    lemma_pow10_monotone((i + 1) as nat, n as nat);
                }
                return None;
            },
        }
        i = i + 1;
    }
    Some(acc)
}

/// `num × 10^(up - down)` where `up` is the larger, else `num`: the numerator
/// of a scaled quotient. `None` where it does not fit.
pub fn scale_numerator(num: u128, up: u64, down: u64) -> (r: Option<u128>)
    ensures
        match r {
            Some(v) => v == scaled_numerator(num as nat, up as nat, down as nat),
            None => scaled_numerator(num as nat, up as nat, down as nat) > u128::MAX,
        },
{
    if up <= down {
        assert(pow10(0) == 1);
        assert(num * 1 == num);
        return Some(num);
    }
    if num == 0 {
        assert(0 * pow10((up - down) as nat) == 0) by (nonlinear_arith);
        return Some(0);
    }
    match checked_pow10(up - down) {
        Some(p) => num.checked_mul(p),
        None => {
            proof {
                let p = pow10((up - down) as nat);
                assert(num * p >= p) by (nonlinear_arith)
                    requires
                        num >= 1,
                        p >= 0,
                ;
            }
            None
        },
    }
}

/// `den × 10^(down - up)` where `down` is the larger, else `den`: the
/// denominator of a scaled quotient. `None` where it does not fit.
pub fn scale_denominator(den: u128, up: u64, down: u64) -> (r: Option<u128>)
    requires
        den > 0,
    ensures
        match r {
            Some(v) => v == scaled_denominator(den as nat, up as nat, down as nat) && v > 0,
            None => scaled_denominator(den as nat, up as nat, down as nat) > u128::MAX,
        },
{
    proof {
        lemma_scaled_quotient_cancels(0, den as nat, up as nat, down as nat);
    }
    scale_numerator(den, down, up)
}

/// `num × 10^up / (den × 10^down)`, rounded down. `None` exactly where the
/// cancelled numerator exceeds `u128`.
pub fn quotient(num: u128, den: u128, up: u64, down: u64) -> (r: Option<u128>)
    requires
        den > 0,
    ensures
        match r {
            Some(v) => v == scaled_quotient(num as nat, den as nat, up as nat, down as nat)
                && scaled_numerator(num as nat, up as nat, down as nat) <= u128::MAX,
            None => scaled_numerator(num as nat, up as nat, down as nat) > u128::MAX,
        },
{
    proof {
        lemma_scaled_quotient_cancels(num as nat, den as nat, up as nat, down as nat);
    }
    match scale_numerator(num, up, down) {
        None => None,
        Some(n) => match scale_denominator(den, up, down) {
            Some(d) => Some(n / d),
            None => {
                proof {
                    let big = scaled_denominator(den as nat, up as nat, down as nat) as int;
                    vstd::arithmetic::div_mod::lemma_basic_div(n as int, big);
                }
                Some(0)
            },
        },
    }
}

/// The integer square root: the largest `r` with `r × r <= n`.
pub open spec fn isqrt(n: nat) -> nat
    decreases n,
{
    if n == 0 {
        0
    } else {
        let r = isqrt((n - 1) as nat);
        if (r + 1) * (r + 1) <= n {
            r + 1
        } else {
            r
        }
    }
}

/// The integer cube root: the largest `r` with `r × r × r <= n`.
pub open spec fn icbrt(n: nat) -> nat
    decreases n,
{
    if n == 0 {
        0
    } else {
        let r = icbrt((n - 1) as nat);
        if (r + 1) * (r + 1) * (r + 1) <= n {
            r + 1
        } else {
            r
        }
    }
}

pub proof fn lemma_isqrt_bounds(n: nat)
    ensures
        isqrt(n) * isqrt(n) <= n < (isqrt(n) + 1) * (isqrt(n) + 1),
    decreases n,
{
    let q = isqrt(n);
    if n == 0 {
        assert(q * q <= n < (q + 1) * (q + 1)) by (nonlinear_arith)
            requires
                q == 0,
                n == 0,
        ;
    } else {
        lemma_isqrt_bounds((n - 1) as nat);
        let r = isqrt((n - 1) as nat);
        if (r + 1) * (r + 1) <= n {
            assert(q == r + 1);
            assert(q * q <= n < (q + 1) * (q + 1)) by (nonlinear_arith)
                requires
                    q == r + 1,
                    (r + 1) * (r + 1) <= n,
                    n - 1 < (r + 1) * (r + 1),
            ;
        } else {
            assert(q == r);
        }
    }
}

/// Only one number lies within a square root's bounds.
pub proof fn lemma_isqrt_unique(n: nat, r: nat)
    requires
        r * r <= n < (r + 1) * (r + 1),
    ensures
        r == isqrt(n),
{
    lemma_isqrt_bounds(n);
    let q = isqrt(n);
    assert(r == q) by (nonlinear_arith)
        requires
            r * r <= n < (r + 1) * (r + 1),
            q * q <= n < (q + 1) * (q + 1),
    ;
}

pub proof fn lemma_isqrt_monotone(a: nat, b: nat)
    requires
        a <= b,
    ensures
        isqrt(a) <= isqrt(b),
{
    lemma_isqrt_bounds(a);
    lemma_isqrt_bounds(b);
    let p = isqrt(a);
    let q = isqrt(b);
    assert(p <= q) by (nonlinear_arith)
        requires
            p * p <= a,
            a <= b,
            b < (q + 1) * (q + 1),
    ;
}

pub proof fn lemma_icbrt_bounds(n: nat)
    ensures
        icbrt(n) * icbrt(n) * icbrt(n) <= n < (icbrt(n) + 1) * (icbrt(n) + 1) * (icbrt(n) + 1),
    decreases n,
{
    let q = icbrt(n);
    if n == 0 {
        assert(q * q * q <= n < (q + 1) * (q + 1) * (q + 1)) by (nonlinear_arith)
            requires
                q == 0,
                n == 0,
        ;
    } else {
        lemma_icbrt_bounds((n - 1) as nat);
        let r = icbrt((n - 1) as nat);
        if (r + 1) * (r + 1) * (r + 1) <= n {
            assert(q == r + 1);
            assert(q * q * q <= n < (q + 1) * (q + 1) * (q + 1)) by (nonlinear_arith)
                requires
                    q == r + 1,
                    (r + 1) * (r + 1) * (r + 1) <= n,
                    n - 1 < (r + 1) * (r + 1) * (r + 1),
            ;
        } else {
            assert(q == r);
        }
    }
}

/// Only one number lies within a cube root's bounds.
pub proof fn lemma_icbrt_unique(n: nat, r: nat)
    requires
        r * r * r <= n < (r + 1) * (r + 1) * (r + 1),
    ensures
        r == icbrt(n),
{
    lemma_icbrt_bounds(n);
    let q = icbrt(n);
    if r < q {
        lemma_cube_monotone(r + 1, q);
    } else if q < r {
        lemma_cube_monotone(q + 1, r);
    }
}

pub proof fn lemma_cube_monotone(a: nat, b: nat)
    requires
        a <= b,
    ensures
        a * a * a <= b * b * b,
{
    assert(a * a <= b * b) by (nonlinear_arith)
        requires
            a <= b,
    ;
    assert((a * a) * a <= (b * b) * b) by (nonlinear_arith)
        requires
            a * a <= b * b,
            a <= b,
    ;
}

pub proof fn lemma_icbrt_monotone(a: nat, b: nat)
    requires
        a <= b,
    ensures
        icbrt(a) <= icbrt(b),
{
    lemma_icbrt_bounds(a);
    lemma_icbrt_bounds(b);
    if icbrt(b) < icbrt(a) {
        lemma_cube_monotone(icbrt(b) + 1, icbrt(a));
    }
}

/// The integer square root, by bisection: the bracket starts at
/// `[0, 2^64]` and halves each round, so it closes within 64 rounds.
pub fn integer_sqrt(n: u128) -> (r: u128)
    ensures
        r == isqrt(n as nat),
{
    let mut lo: u128 = 0;
    let mut hi: u128 = 0x1_0000_0000_0000_0000;
    assert(0x1_0000_0000_0000_0000int * 0x1_0000_0000_0000_0000int > u128::MAX);
    while hi - lo > 1
        invariant
            lo < hi <= 0x1_0000_0000_0000_0000,
            lo * lo <= n < hi * hi,
        decreases hi - lo,
    {
        let mid: u128 = lo + (hi - lo) / 2;
        assert(mid * mid <= u128::MAX) by (nonlinear_arith)
            requires
                mid <= 0xffff_ffff_ffff_ffff,
        ;
        if mid * mid <= n {
            lo = mid;
        } else {
            hi = mid;
        }
    }
    proof {
        lemma_isqrt_unique(n as nat, lo as nat);
    }
    lo
}

/// The integer cube root, by bisection: the bracket starts at
/// `[0, 2^43]` and halves each round, so it closes within 43 rounds.
pub fn integer_cbrt(n: u128) -> (r: u128)
    ensures
        r == icbrt(n as nat),
{
    let mut lo: u128 = 0;
    let mut hi: u128 = 0x800_0000_0000;
    assert(0x800_0000_0000int * 0x800_0000_0000int * 0x800_0000_0000int > u128::MAX);
    while hi - lo > 1
        invariant
            lo < hi <= 0x800_0000_0000,
            lo * lo * lo <= n < hi * hi * hi,
        decreases hi - lo,
    {
        let mid: u128 = lo + (hi - lo) / 2;
        assert(mid * mid <= 0x800_0000_0000 * 0x800_0000_0000) by (nonlinear_arith)
            requires
                mid <= 0x800_0000_0000,
        ;
        let square: u128 = mid * mid;
        let fits = match square.checked_mul(mid) {
            Some(cube) => cube <= n,
            None => false,
        };
        if fits {
            lo = mid;
        } else {
            hi = mid;
        }
    }
    proof {
        lemma_icbrt_unique(n as nat, lo as nat);
    }
    lo
}

} // verus!
