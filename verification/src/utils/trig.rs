//! Fixed-point trigonometry.
//!
//! Sine and cosine use Bhaskara's rational approximation on a half turn,
//! extended to the full circle by sign; the results always stay within one
//! fixed-point unit, so a radius times a direction vector never leaves the
//! circle it samples.  `atan2_fp` reduces to the first octant and applies a
//! quadratic approximation of the arctangent.

use vstd::prelude::*;

verus! {

use vstd::arithmetic::div_mod::{
    lemma_div_is_ordered,
    lemma_div_multiples_vanish,
    lemma_div_pos_is_pos,
    lemma_mod_twice,
    lemma_add_mod_noop,
    lemma_mod_bound,
};
use crate::utils::fixed::{ONE, PI, TAU, HALF_PI, div_floor, lemma_div_floor_bounds};
use crate::utils::{norm_spec, normalize_angle};

/// A quarter turn (pi / 4) in fixed-point angle units, as the arctangent
/// approximation uses it.
pub const QUARTER_PI: i64 = 1608;

/// Curvature correction weight of the arctangent approximation:
/// round(0.273 * ONE).
pub const ATAN_K: i64 = 559;

/// Bhaskara's sine approximation on `[0, PI]`:
/// `sin(x) = 16 x (PI - x) * ONE / (5 PI^2 - 4 x (PI - x))`.
pub open spec fn sin_half_spec(x: int) -> int {
    let p = x * (PI - x);
    (16 * p * ONE) / (5 * PI * PI - 4 * p)
}

/// Sine over the full circle: the angle is folded into `[0, TAU)` and the
/// second half turn is the mirrored first half.
pub open spec fn sin_spec(a: int) -> int {
    let n = norm_spec(a);
    if n <= PI {
        sin_half_spec(n)
    } else {
        -sin_half_spec(n - PI)
    }
}

/// Cosine as the sine shifted by a quarter turn.
pub open spec fn cos_spec(a: int) -> int {
    sin_spec(a + HALF_PI)
}

/// The product `x * (PI - x)` stays within `[0, PI^2 / 4]` on the half turn.
proof fn lemma_half_wave_product_bounds(x: int)
    requires
        0 <= x <= PI,
    ensures
        0 <= x * (PI - x),
        4 * (x * (PI - x)) <= PI * PI,
{
    assert(0 <= x * (PI - x)) by (nonlinear_arith)
        requires
            0 <= x <= PI,
    ;
    assert((PI - 2 * x) * (PI - 2 * x) >= 0) by (nonlinear_arith);
    assert(4 * (x * (PI - x)) <= PI * PI) by (nonlinear_arith)
        requires
            (PI - 2 * x) * (PI - 2 * x) >= 0,
    ;
}

/// Bhaskara's half-wave sine; never leaves `[0, ONE]`.
fn sin_half(x: i64) -> (r: i64)
    requires
        0 <= x <= PI,
    ensures
        r == sin_half_spec(x as int),
        0 <= r <= ONE,
{
    proof {
        lemma_half_wave_product_bounds(x as int);
    }
    let p = x * (PI - x);
    let num = 16 * p * ONE;
    let den = 5 * PI * PI - 4 * p;
    let r = div_floor(num, den);
    proof {
        lemma_div_pos_is_pos(num as int, den as int);
        assert(num <= den * ONE) by (nonlinear_arith)
            requires
                4 * p <= PI * PI,
                0 <= p,
                num == 16 * p * ONE,
                den == 5 * PI * PI - 4 * p,
                ONE == 2048i64,
                PI == 6434i64,
        ;
        lemma_div_is_ordered(num as int, den * ONE, den as int);
        lemma_div_multiples_vanish(ONE as int, den as int);
        assert(den * ONE == ONE * den);
    }
    r
}

/// Fixed-point sine of any angle; always within one unit of scale.
pub fn sin_fp(a: i64) -> (r: i64)
    ensures
        r == sin_spec(a as int),
        -ONE <= r <= ONE,
{
    let n = normalize_angle(a);
    if n <= PI {
        sin_half(n)
    } else {
        -sin_half(n - PI)
    }
}

/// Folding before a shift changes nothing: the shifted fold of a folded
/// angle is the fold of the shifted angle.
pub proof fn lemma_norm_shift(a: int, s: int)
    ensures
        norm_spec(norm_spec(a) + s) == norm_spec(a + s),
{
    lemma_add_mod_noop(a, s, TAU as int);
    lemma_mod_twice(s, TAU as int);
    lemma_mod_twice(a, TAU as int);
    lemma_add_mod_noop(a % (TAU as int), s, TAU as int);
}

/// The sine of a folded angle is the sine of the angle itself.
pub proof fn lemma_sin_fold(a: int)
    ensures
        sin_spec(norm_spec(a)) == sin_spec(a),
{
    lemma_mod_twice(a, TAU as int);
}

/// The cosine of a folded angle is the cosine of the angle itself.
pub proof fn lemma_cos_fold(a: int)
    ensures
        cos_spec(norm_spec(a)) == cos_spec(a),
{
    lemma_norm_shift(a, HALF_PI as int);
}

/// Fixed-point cosine of any angle; always within one unit of scale.
pub fn cos_fp(a: i64) -> (r: i64)
    ensures
        r == cos_spec(a as int),
        -ONE <= r <= ONE,
{
    let n = normalize_angle(a);
    let r = sin_fp(n + HALF_PI);
    proof {
        lemma_norm_shift(a as int, HALF_PI as int);
    }
    r
}

/// The first-octant arctangent approximation:
/// `atan(z) = z * (QUARTER_PI + ATAN_K * (ONE - z) / ONE) / ONE` for
/// `z` in `[0, ONE]`.
pub open spec fn atan_unit_spec(z: int) -> int {
    (z * (QUARTER_PI + (ATAN_K * (ONE as int - z)) / (ONE as int))) / (ONE as int)
}

/// Arctangent of a ratio in `[0, ONE]`; the result stays within the first
/// octant.
fn atan_unit(z: i64) -> (r: i64)
    requires
        0 <= z <= ONE,
    ensures
        r == atan_unit_clamped_spec(z as int),
        0 <= r <= QUARTER_PI,
{
    let c = div_floor(ATAN_K * (ONE - z), ONE);
    proof {
        lemma_div_floor_bounds(ATAN_K * (ONE - z), ONE as int);
        assert(ATAN_K * (ONE - z) <= ATAN_K * ONE) by (nonlinear_arith)
            requires
                0 <= z <= ONE,
                ATAN_K == 559i64,
                ONE == 2048i64,
        ;
        assert(0 <= c <= ATAN_K) by {
            lemma_div_is_ordered(ATAN_K * (ONE - z), ATAN_K * ONE, ONE as int);
            lemma_div_multiples_vanish(ATAN_K as int, ONE as int);
            assert(ATAN_K * ONE == ONE * ATAN_K);
            lemma_div_pos_is_pos(ATAN_K * (ONE - z), ONE as int);
            assert(ATAN_K * (ONE - z) >= 0) by (nonlinear_arith)
                requires
                    0 <= z <= ONE,
                    ATAN_K == 559i64,
            ;
        }
    }
    proof {
        assert(0 <= z * (QUARTER_PI + c) <= 2048 * (1608 + 559)) by (nonlinear_arith)
            requires
                0 <= z <= 2048,
                0 <= c <= 559,
        ;
    }
    let r = div_floor(z * (QUARTER_PI + c), ONE);
    proof {
        lemma_div_pos_is_pos(z * (QUARTER_PI + c), ONE as int);
        assert(z * (QUARTER_PI + c) <= ONE * QUARTER_PI + z * c) by (nonlinear_arith)
            requires
                0 <= z <= ONE,
                0 <= c,
                QUARTER_PI == 1608i64,
        ;
        assert(z * c <= ONE * ATAN_K) by (nonlinear_arith)
            requires
                0 <= z <= ONE,
                0 <= c <= ATAN_K,
        ;
        assert(ONE * QUARTER_PI + ONE * ATAN_K == ONE * (QUARTER_PI + ATAN_K));
        lemma_div_is_ordered(z * (QUARTER_PI + c), ONE * (QUARTER_PI + ATAN_K), ONE as int);
        lemma_div_multiples_vanish(QUARTER_PI + ATAN_K, ONE as int);
    }
    if r > QUARTER_PI {
        proof {
            assert(r <= QUARTER_PI + ATAN_K);
        }
        QUARTER_PI
    } else {
        r
    }
}

/// The raw quadrant assembly of the fixed-point arctangent of `y / x`,
/// before the final fold into `[0, TAU)`.
pub open spec fn atan2_raw_spec(y: int, x: int) -> int {
    let ax = abs_spec(x);
    let ay = abs_spec(y);
    if ax == 0 && ay == 0 {
        0
    } else {
        let base = if ax >= ay {
            atan_unit_clamped_spec((ay * ONE) / ax)
        } else {
            HALF_PI - atan_unit_clamped_spec((ax * ONE) / ay)
        };
        if x >= 0 && y >= 0 {
            base
        } else if x < 0 && y >= 0 {
            PI - base
        } else if x < 0 {
            PI + base
        } else {
            TAU - base
        }
    }
}

/// `atan_unit_spec` with its result held inside the first octant, matching
/// the executable clamp.
pub open spec fn atan_unit_clamped_spec(z: int) -> int {
    let r = atan_unit_spec(z);
    if r > QUARTER_PI {
        QUARTER_PI as int
    } else {
        r
    }
}

/// The fixed-point arctangent of `y / x`, folded into `[0, TAU)`.
pub open spec fn atan2_spec(y: int, x: int) -> int {
    norm_spec(atan2_raw_spec(y, x))
}

/// The absolute value, within `int`.
pub open spec fn abs_spec(x: int) -> int {
    if x < 0 {
        -x
    } else {
        x
    }
}

/// Fixed-point two-argument arctangent, folded into `[0, TAU)`.  The zero
/// vector maps to angle zero.
pub fn atan2_fp(y: i64, x: i64) -> (r: i64)
    requires
        i64::MIN < x,
        i64::MIN < y,
        x * ONE <= i64::MAX,
        -(x as int) * ONE <= i64::MAX,
        y * ONE <= i64::MAX,
        -(y as int) * ONE <= i64::MAX,
    ensures
        r == atan2_spec(y as int, x as int),
        0 <= r < TAU,
{
    let ax = if x < 0 {
        -x
    } else {
        x
    };
    let ay = if y < 0 {
        -y
    } else {
        y
    };
    if ax == 0 && ay == 0 {
        proof {
            vstd::arithmetic::div_mod::lemma_small_mod(0nat, TAU as nat);
        }
        return 0;
    }
    let base = if ax >= ay {
        proof {
            assert(ay * ONE <= ax * ONE) by (nonlinear_arith)
                requires
                    0 <= ay <= ax,
                    ONE == 2048i64,
            ;
            lemma_div_is_ordered(ay * ONE, ax * ONE, ax as int);
            lemma_div_multiples_vanish(ONE as int, ax as int);
            assert(ax * ONE == ONE * ax);
            lemma_div_pos_is_pos(ay * ONE, ax as int);
            assert(ay * ONE >= 0) by (nonlinear_arith)
                requires
                    0 <= ay,
                    ONE == 2048i64,
            ;
        }
        let z = div_floor(ay * ONE, ax);
        atan_unit(z)
    } else {
        proof {
            assert(ax * ONE <= ay * ONE) by (nonlinear_arith)
                requires
                    0 <= ax <= ay,
                    ONE == 2048i64,
            ;
            lemma_div_is_ordered(ax * ONE, ay * ONE, ay as int);
            lemma_div_multiples_vanish(ONE as int, ay as int);
            assert(ay * ONE == ONE * ay);
            lemma_div_pos_is_pos(ax * ONE, ay as int);
            assert(ax * ONE >= 0) by (nonlinear_arith)
                requires
                    0 <= ax,
                    ONE == 2048i64,
            ;
        }
        let z = div_floor(ax * ONE, ay);
        HALF_PI - atan_unit(z)
    };
    let raw = if x >= 0 && y >= 0 {
        base
    } else if x < 0 && y >= 0 {
        PI - base
    } else if x < 0 {
        PI + base
    } else {
        TAU - base
    };
    normalize_angle(raw)
}

} // verus!
