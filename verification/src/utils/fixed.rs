//! Fixed-point scalars.
//!
//! Every scalar in the simulation (coordinates, distances, speeds, angles,
//! elapsed time) is an `i64` holding a real value scaled by [`ONE`].  Angles
//! are radians in the same scale, so a full turn is [`TAU`] units.  Division
//! always rounds toward negative infinity, which matches the mathematical
//! `/` on `int` for a positive divisor and keeps every contract exact.

use vstd::prelude::*;

verus! {

use vstd::arithmetic::div_mod::lemma_fundamental_div_mod;

/// Fixed-point steps per unit: all scalars are scaled by this factor.
pub const ONE: i64 = 2048;

/// Half a turn (pi) in fixed-point angle units: round(pi * ONE).
pub const PI: i64 = 6434;

/// A full turn (two pi) in fixed-point angle units.
pub const TAU: i64 = 2 * PI;

/// A quarter turn (pi / 2) in fixed-point angle units.
pub const HALF_PI: i64 = 3217;

/// The product of two fixed-point scalars, as a mathematical integer.
pub open spec fn fx_mul_spec(a: int, b: int) -> int {
    (a * b) / (ONE as int)
}

/// Floor division bounds: for a positive divisor the quotient lies between
/// the dividend and zero.
pub proof fn lemma_div_floor_bounds(a: int, b: int)
    requires
        1 <= b,
    ensures
        a >= 0 ==> 0 <= a / b <= a,
        a < 0 ==> a <= a / b < 0,
{
    lemma_fundamental_div_mod(a, b);
    let q = a / b;
    let r = a % b;
    assert(a >= 0 ==> 0 <= q <= a) by (nonlinear_arith)
        requires
            a == b * q + r,
            0 <= r < b,
            1 <= b,
    ;
    assert(a < 0 ==> a <= q < 0) by (nonlinear_arith)
        requires
            a == b * q + r,
            0 <= r < b,
            1 <= b,
    ;
}

/// Floor division (rounds toward negative infinity), matching `/` on `int`.
pub fn div_floor(a: i64, b: i64) -> (r: i64)
    requires
        1 <= b,
    ensures
        r == a as int / b as int,
{
    proof {
        lemma_div_floor_bounds(a as int, b as int);
    }
    a.checked_div_euclid(b).unwrap()
}

/// The product of two fixed-point scalars: `(a * b) / ONE`, rounded toward
/// negative infinity.
pub fn fx_mul(a: i64, b: i64) -> (r: i64)
    requires
        i64::MIN <= a * b <= i64::MAX,
    ensures
        r == fx_mul_spec(a as int, b as int),
{
    let p = a.checked_mul(b).unwrap();
    div_floor(p, ONE)
}

/// Scaling by a factor of magnitude at most `ONE` never grows a value:
/// the fixed-point product stays within the scaled bound.
pub proof fn lemma_fx_unit_scale(c: int, r: int)
    requires
        -(ONE as int) <= c <= ONE as int,
        0 <= r,
    ensures
        -r <= fx_mul_spec(c, r) <= r,
{
    assert(-((ONE as int) * r) <= c * r <= (ONE as int) * r) by (nonlinear_arith)
        requires
            -(ONE as int) <= c <= ONE as int,
            0 <= r,
    ;
    vstd::arithmetic::div_mod::lemma_div_is_ordered(c * r, (ONE as int) * r, ONE as int);
    vstd::arithmetic::div_mod::lemma_div_is_ordered(
        (ONE as int) * (-r),
        c * r,
        ONE as int,
    );
    vstd::arithmetic::div_mod::lemma_div_multiples_vanish(r, ONE as int);
    vstd::arithmetic::div_mod::lemma_div_multiples_vanish(-r, ONE as int);
    assert((ONE as int) * (-r) == -((ONE as int) * r));
}

/// Scaling any value within `[-m, m]` by a factor of magnitude at most
/// `ONE` keeps it within `[-m, m]`.
pub proof fn lemma_fx_unit_scale_signed(c: int, s: int, m: int)
    requires
        -(ONE as int) <= c <= ONE as int,
        -m <= s <= m,
        0 <= m,
    ensures
        -m <= fx_mul_spec(c, s) <= m,
{
    assert(-((ONE as int) * m) <= c * s <= (ONE as int) * m) by (nonlinear_arith)
        requires
            -(ONE as int) <= c <= ONE as int,
            -m <= s <= m,
            0 <= m,
    ;
    vstd::arithmetic::div_mod::lemma_div_is_ordered(c * s, (ONE as int) * m, ONE as int);
    vstd::arithmetic::div_mod::lemma_div_is_ordered((ONE as int) * (-m), c * s, ONE as int);
    vstd::arithmetic::div_mod::lemma_div_multiples_vanish(m, ONE as int);
    vstd::arithmetic::div_mod::lemma_div_multiples_vanish(-m, ONE as int);
    assert((ONE as int) * (-m) == -((ONE as int) * m));
}

/// `v` forced into the interval `[lo, hi]`.
pub open spec fn clamp_spec(v: int, lo: int, hi: int) -> int {
    if v < lo {
        lo
    } else if v > hi {
        hi
    } else {
        v
    }
}

/// `v` forced into the interval `[lo, hi]`.
pub fn clamp(v: i64, lo: i64, hi: i64) -> (r: i64)
    requires
        lo <= hi,
    ensures
        r == clamp_spec(v as int, lo as int, hi as int),
        lo <= r <= hi,
{
    if v < lo {
        lo
    } else if v > hi {
        hi
    } else {
        v
    }
}

/// The integer square root (largest `r` with `r * r <= n`), defined by
/// counting up from zero.
pub open spec fn sqrt_floor(n: nat) -> nat
    decreases n,
{
    if n == 0 {
        0
    } else {
        let r = sqrt_floor((n - 1) as nat);
        if (r + 1) * (r + 1) <= n {
            r + 1
        } else {
            r
        }
    }
}

/// `sqrt_floor(n)` squares to at most `n`, and is the largest such number.
pub proof fn lemma_sqrt_floor_bounds(n: nat)
    ensures
        sqrt_floor(n) * sqrt_floor(n) <= n,
        n < (sqrt_floor(n) + 1) * (sqrt_floor(n) + 1),
    decreases n,
{
    if n == 0 {
        assert(sqrt_floor(0) == 0);
        assert((sqrt_floor(n) + 1) * (sqrt_floor(n) + 1) == 1) by (nonlinear_arith)
            requires
                sqrt_floor(n) == 0,
        ;
    } else {
        lemma_sqrt_floor_bounds((n - 1) as nat);
        let p = sqrt_floor((n - 1) as nat);
        assert(sqrt_floor(n) == if (p + 1) * (p + 1) <= n {
            p + 1
        } else {
            p
        });
        if (p + 1) * (p + 1) <= n {
            assert(n == (p + 1) * (p + 1));
            assert(sqrt_floor(n) == p + 1);
            assert(sqrt_floor(n) * sqrt_floor(n) == (p + 1) * (p + 1));
            assert((p + 1) * (p + 1) < (p + 2) * (p + 2)) by (nonlinear_arith)
                requires
                    p >= 0,
            ;
            assert((sqrt_floor(n) + 1) * (sqrt_floor(n) + 1) == (p + 2) * (p + 2));
        } else {
            assert(sqrt_floor(n) == p);
        }
    }
}

/// A number whose square brackets `n` is the integer square root of `n`.
pub proof fn lemma_sqrt_floor_unique(n: nat, r: nat)
    requires
        r * r <= n,
        n < (r + 1) * (r + 1),
    ensures
        r == sqrt_floor(n),
{
    lemma_sqrt_floor_bounds(n);
    let s = sqrt_floor(n);
    if r < s {
        assert(s * s <= n);
        assert((r + 1) * (r + 1) <= s * s) by (nonlinear_arith)
            requires
                r + 1 <= s,
        ;
    }
    if s < r {
        assert((s + 1) * (s + 1) <= r * r) by (nonlinear_arith)
            requires
                s + 1 <= r,
        ;
    }
}

/// The integer square root of a non-negative scalar, by bisection.
pub fn isqrt(n: i64) -> (r: i64)
    requires
        0 <= n,
    ensures
        r == sqrt_floor(n as nat),
        0 <= r,
        r * r <= n,
        n < (r + 1) * (r + 1),
{
    let mut lo: i64 = 0;
    let mut hi: i64 = 3037000500;
    assert(n < hi * hi) by (nonlinear_arith)
        requires
            n <= i64::MAX,
            hi == 3037000500i64,
    ;
    while lo + 1 < hi
        invariant
            0 <= lo < hi <= 3037000500,
            lo * lo <= n,
            n < hi * hi,
        decreases hi - lo,
    {
        let mid = lo + div_floor(hi - lo, 2);
        proof {
            lemma_div_floor_bounds(hi - lo, 2);
            assert(2 * ((hi - lo) / 2) > hi - lo - 2) by {
                lemma_fundamental_div_mod(hi - lo, 2);
            }
            assert(mid * mid <= 3037000499i64 * 3037000499i64) by (nonlinear_arith)
                requires
                    0 <= mid <= 3037000499,
            ;
            assert(3037000499i64 * 3037000499i64 <= i64::MAX) by (nonlinear_arith);
        }
        let sq = mid.checked_mul(mid).unwrap();
        if sq <= n {
            lo = mid;
        } else {
            hi = mid;
        }
    }
    proof {
        lemma_sqrt_floor_unique(n as nat, lo as nat);
    }
    lo
}

} // verus!
