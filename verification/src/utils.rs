//! Shared helpers: fixed-point scalars, angle arithmetic, and small
//! supporting types.
//!
//! The angle functions here are the single primitive used both when platform
//! arcs are synthesised and when they are sampled, so the two always agree.

pub mod colors;
pub mod fixed;
pub mod grid;
pub mod trig;
pub mod vec2;

use vstd::prelude::*;

verus! {

use vstd::arithmetic::div_mod::{lemma_mod_bound, lemma_div_is_ordered, lemma_div_multiples_vanish};
use vstd::math::abs;
use crate::utils::fixed::{ONE, PI, TAU, div_floor, lemma_div_floor_bounds};

/// Largest interpolation parameter the angle functions accept; wide enough
/// for any fraction or easing rate the simulation produces.
pub const LERP_T_LIMIT: i64 = 0x100_0000_0000;

/// An angle folded into `[0, TAU)`; the mathematical remainder.
pub open spec fn norm_spec(a: int) -> int {
    a % (TAU as int)
}

/// Folds an angle into `[0, TAU)`.
pub fn normalize_angle(a: i64) -> (r: i64)
    ensures
        r == norm_spec(a as int),
        0 <= r < TAU,
{
    proof {
        lemma_mod_bound(a as int, TAU as int);
    }
    a.checked_rem_euclid(TAU).unwrap()
}

/// The pair of working angles interpolation runs between: both are first
/// folded into `[0, TAU)`, then one of them is lifted by a full turn whenever
/// the plain sweep would take the short way while the caller asked for the
/// long way, or the reverse.
pub open spec fn lerp_endpoints_spec(a: int, b: int, choosing_larger_angle: bool) -> (int, int) {
    let an = norm_spec(a);
    let bn = norm_spec(b);
    if (!choosing_larger_angle && abs(bn - an) > PI) || (choosing_larger_angle && abs(bn - an)
        < PI) {
        if an < bn {
            (an + TAU, bn)
        } else {
            (an, bn + TAU)
        }
    } else {
        (an, bn)
    }
}

/// Angular interpolation: the working start angle plus `t / ONE` of the way
/// toward the working end angle.
pub open spec fn lerp_angle_spec(a: int, b: int, t: int, choosing_larger_angle: bool) -> int {
    let (a2, b2) = lerp_endpoints_spec(a, b, choosing_larger_angle);
    a2 + ((b2 - a2) * t) / (ONE as int)
}

/// Interpolates between two angles, sweeping the larger arc when asked to.
pub fn lerp_angle(a: i64, b: i64, t: i64, choosing_larger_angle: bool) -> (r: i64)
    requires
        -LERP_T_LIMIT <= t <= LERP_T_LIMIT,
    ensures
        r == lerp_angle_spec(a as int, b as int, t as int, choosing_larger_angle),
        -13 * abs(t as int) <= r <= 2 * TAU + 13 * abs(t as int),
{
    let an = normalize_angle(a);
    let bn = normalize_angle(b);
    let gap = if bn >= an {
        bn - an
    } else {
        an - bn
    };
    assert(gap == abs(bn - an));
    let adjust = if !choosing_larger_angle {
        gap > PI
    } else {
        gap < PI
    };
    let (a2, b2) = if adjust {
        if an < bn {
            (an + TAU, bn)
        } else {
            (an, bn + TAU)
        }
    } else {
        (an, bn)
    };
    let d = b2 - a2;
    proof {
        lemma_div_floor_bounds(d * t, ONE as int);
        assert(-2 * TAU * LERP_T_LIMIT <= d * t <= 2 * TAU * LERP_T_LIMIT) by (nonlinear_arith)
            requires
                -2 * TAU < d < 2 * TAU,
                -LERP_T_LIMIT <= t <= LERP_T_LIMIT,
                TAU == 12868i64,
                LERP_T_LIMIT == 0x100_0000_0000i64,
        ;
        let m = abs(t as int) as int;
        assert(-(ONE as int) * (13 * m) <= d * t <= (ONE as int) * (13 * m)) by (nonlinear_arith)
            requires
                -2 * TAU < d < 2 * TAU,
                -m <= t <= m,
                0 <= m,
                TAU == 12868i64,
                ONE == 2048i64,
        ;
        lemma_div_is_ordered(d * t, (ONE as int) * (13 * m), ONE as int);
        lemma_div_is_ordered(-(ONE as int) * (13 * m), d * t, ONE as int);
        lemma_div_multiples_vanish(13 * m, ONE as int);
        lemma_div_multiples_vanish(-(13 * m), ONE as int);
        assert(-(ONE as int) * (13 * m) == (ONE as int) * (-(13 * m)));
    }
    let step = div_floor(d * t, ONE);
    a2 + step
}

/// Interpolation at `t = 0` lands on the working start angle, which folds
/// back to the normalised first argument.
pub proof fn lemma_lerp_angle_at_start(a: int, b: int, choosing_larger_angle: bool)
    ensures
        norm_spec(lerp_angle_spec(a, b, 0, choosing_larger_angle)) == norm_spec(a),
        lerp_angle_spec(a, b, 0, choosing_larger_angle) == lerp_endpoints_spec(
            a,
            b,
            choosing_larger_angle,
        ).0,
{
    let (a2, b2) = lerp_endpoints_spec(a, b, choosing_larger_angle);
    assert((b2 - a2) * 0 == 0);
    assert(0int / (ONE as int) == 0);
    assert(a2 == norm_spec(a) || a2 == norm_spec(a) + TAU);
    proof_norm_stable(a2, norm_spec(a));
}

/// Interpolation at `t = ONE` lands on the working end angle, which folds
/// back to the normalised second argument.
pub proof fn lemma_lerp_angle_at_end(a: int, b: int, choosing_larger_angle: bool)
    ensures
        norm_spec(lerp_angle_spec(a, b, ONE as int, choosing_larger_angle)) == norm_spec(b),
        lerp_angle_spec(a, b, ONE as int, choosing_larger_angle) == lerp_endpoints_spec(
            a,
            b,
            choosing_larger_angle,
        ).1,
{
    let (a2, b2) = lerp_endpoints_spec(a, b, choosing_larger_angle);
    lemma_div_multiples_vanish(b2 - a2, ONE as int);
    assert((b2 - a2) * (ONE as int) == (ONE as int) * (b2 - a2)) by (nonlinear_arith);
    assert(a2 + (b2 - a2) == b2);
    assert(b2 == norm_spec(b) || b2 == norm_spec(b) + TAU);
    proof_norm_stable(b2, norm_spec(b));
}

/// Folding an angle that is already normalised, or normalised plus a full
/// turn, gives the normalised angle back.
proof fn proof_norm_stable(x: int, n: int)
    requires
        0 <= n < TAU,
        x == n || x == n + TAU,
    ensures
        norm_spec(x) == n,
{
    if x == n {
        vstd::arithmetic::div_mod::lemma_small_mod(n as nat, TAU as nat);
    } else {
        vstd::arithmetic::div_mod::lemma_mod_add_multiples_vanish(n, TAU as int);
        vstd::arithmetic::div_mod::lemma_small_mod(n as nat, TAU as nat);
    }
}

/// For a fixed angle pair the interpolated angle moves monotonically with
/// `t`: it never backtracks along the sweep.
pub proof fn lemma_lerp_angle_monotonic(
    a: int,
    b: int,
    t1: int,
    t2: int,
    choosing_larger_angle: bool,
)
    requires
        t1 <= t2,
    ensures
        ({
            let (a2, b2) = lerp_endpoints_spec(a, b, choosing_larger_angle);
            let r1 = lerp_angle_spec(a, b, t1, choosing_larger_angle);
            let r2 = lerp_angle_spec(a, b, t2, choosing_larger_angle);
            &&& a2 <= b2 ==> r1 <= r2
            &&& a2 >= b2 ==> r1 >= r2
        }),
{
    let (a2, b2) = lerp_endpoints_spec(a, b, choosing_larger_angle);
    let d = b2 - a2;
    assert(d >= 0 ==> d * t1 <= d * t2) by (nonlinear_arith)
        requires
            t1 <= t2,
            d == b2 - a2,
    ;
    assert(d <= 0 ==> d * t2 <= d * t1) by (nonlinear_arith)
        requires
            t1 <= t2,
            d == b2 - a2,
    ;
    if d >= 0 {
        lemma_div_is_ordered(d * t1, d * t2, ONE as int);
    } else {
        lemma_div_is_ordered(d * t2, d * t1, ONE as int);
    }
}

/// For `t` in `[0, ONE]` the interpolated angle stays between the two
/// working angles.
pub proof fn lemma_lerp_angle_bounded(a: int, b: int, t: int, choosing_larger_angle: bool)
    requires
        0 <= t <= ONE,
    ensures
        ({
            let (a2, b2) = lerp_endpoints_spec(a, b, choosing_larger_angle);
            let r = lerp_angle_spec(a, b, t, choosing_larger_angle);
            &&& a2 <= b2 ==> a2 <= r <= b2
            &&& a2 >= b2 ==> b2 <= r <= a2
        }),
{
    lemma_lerp_angle_monotonic(a, b, 0, t, choosing_larger_angle);
    lemma_lerp_angle_monotonic(a, b, t, ONE as int, choosing_larger_angle);
    lemma_lerp_angle_at_start(a, b, choosing_larger_angle);
    lemma_lerp_angle_at_end(a, b, choosing_larger_angle);
}

/// The unsigned angular gap swept between two angles, after lifting one of
/// them by a full turn when they sit more than half a turn apart.
pub open spec fn angle_between_spec(a: int, b: int) -> int {
    let a1 = if a < 0 {
        a + TAU
    } else {
        a
    };
    let b1 = if b < 0 {
        b + TAU
    } else {
        b
    };
    if b1 - a1 > PI {
        abs(b1 - (a1 + TAU)) as int
    } else if a1 - b1 > PI {
        abs((b1 + TAU) - a1) as int
    } else {
        abs(b1 - a1) as int
    }
}

/// The unsigned angular gap between two angles, always taking the shorter
/// way around once both lie in `[0, TAU)`.
pub fn angle_between(a: i64, b: i64) -> (r: i64)
    requires
        -TAU <= a < TAU,
        -TAU <= b < TAU,
    ensures
        r == angle_between_spec(a as int, b as int),
        0 <= a < TAU && 0 <= b < TAU ==> 0 <= r <= PI,
{
    let a1 = if a < 0 {
        a + TAU
    } else {
        a
    };
    let b1 = if b < 0 {
        b + TAU
    } else {
        b
    };
    let (a2, b2) = if b1 - a1 > PI {
        (a1 + TAU, b1)
    } else if a1 - b1 > PI {
        (a1, b1 + TAU)
    } else {
        (a1, b1)
    };
    if b2 >= a2 {
        b2 - a2
    } else {
        a2 - b2
    }
}

} // verus!
