//! Fixed-point 2D vectors.
//!
//! Coordinates are fixed-point scalars (see [`crate::utils::fixed`]).  A
//! direction produced by [`Vec2::normalize`] or [`Vec2::from_angle`] has
//! magnitude [`ONE`], so scaling it by a radius through [`Vec2::mul_fx`]
//! yields a point at that radius.

use vstd::prelude::*;

verus! {

use vstd::arithmetic::div_mod::{lemma_div_is_ordered, lemma_div_multiples_vanish};
use vstd::math::abs;
use crate::utils::fixed::{ONE, TAU, div_floor, fx_mul, fx_mul_spec, isqrt, sqrt_floor};
use crate::utils::trig::{atan2_spec, atan2_fp, cos_spec, cos_fp, sin_spec, sin_fp};

/// Every vector the simulation works with stays within this many fixed-point
/// steps per axis; the bound keeps all products inside `i64`.
pub const VEC_RANGE: i64 = 0x4000_0000;

/// A two-dimensional vector of fixed-point scalars.
#[derive(Clone, Copy, PartialEq, Eq, Structural, Debug)]
pub struct Vec2 {
    pub x: i64,
    pub y: i64,
}

/// Both coordinates within `m` steps of zero.
pub open spec fn bounded(v: Vec2, m: int) -> bool {
    -m <= v.x <= m && -m <= v.y <= m
}

/// The squared magnitude of a vector, as a mathematical integer.
pub open spec fn len_sq_spec(v: Vec2) -> int {
    v.x * v.x + v.y * v.y
}

/// The magnitude of a coordinate pair: the integer square root of the sum
/// of squares, in the same fixed-point scale as the coordinates.
pub open spec fn len2_spec(x: int, y: int) -> int {
    sqrt_floor((x * x + y * y) as nat) as int
}

/// The magnitude of a vector, in the same fixed-point scale as the
/// coordinates.
pub open spec fn vec_len_spec(v: Vec2) -> int {
    len2_spec(v.x as int, v.y as int)
}

impl Vec2 {
    /// A vector from its two coordinates.
    pub fn new(x: i64, y: i64) -> (v: Vec2)
        ensures
            v.x == x,
            v.y == y,
    {
        Vec2 { x, y }
    }

    /// Component-wise sum.
    pub fn add(self, o: Vec2) -> (r: Vec2)
        requires
            bounded(self, VEC_RANGE as int),
            bounded(o, VEC_RANGE as int),
        ensures
            r.x == self.x + o.x,
            r.y == self.y + o.y,
    {
        Vec2 { x: self.x + o.x, y: self.y + o.y }
    }

    /// Component-wise difference.
    pub fn sub(self, o: Vec2) -> (r: Vec2)
        requires
            bounded(self, VEC_RANGE as int),
            bounded(o, VEC_RANGE as int),
        ensures
            r.x == self.x - o.x,
            r.y == self.y - o.y,
    {
        Vec2 { x: self.x - o.x, y: self.y - o.y }
    }

    /// The vector rotated a quarter turn counter-clockwise.
    pub fn perp(self) -> (r: Vec2)
        requires
            bounded(self, VEC_RANGE as int),
        ensures
            r.x == -self.y,
            r.y == self.x,
    {
        Vec2 { x: -self.y, y: self.x }
    }

    /// The vector with both components negated.
    pub fn neg(self) -> (r: Vec2)
        requires
            bounded(self, VEC_RANGE as int),
        ensures
            r.x == -self.x,
            r.y == -self.y,
    {
        Vec2 { x: -self.x, y: -self.y }
    }

    /// The dot product, scaled by `ONE * ONE`.
    pub fn dot(self, o: Vec2) -> (r: i64)
        requires
            bounded(self, VEC_RANGE as int),
            bounded(o, VEC_RANGE as int),
        ensures
            r == self.x * o.x + self.y * o.y,
    {
        proof {
            lemma_product_range(self.x as int, o.x as int, VEC_RANGE as int);
            lemma_product_range(self.y as int, o.y as int, VEC_RANGE as int);
        }
        self.x * o.x + self.y * o.y
    }

    /// The magnitude, in the same fixed-point scale as the coordinates.
    pub fn length(self) -> (r: i64)
        requires
            bounded(self, VEC_RANGE as int),
        ensures
            r == vec_len_spec(self),
            0 <= r,
            r * r <= len_sq_spec(self),
            len_sq_spec(self) < (r + 1) * (r + 1),
            self.x != 0 || self.y != 0 ==> 1 <= r,
    {
        proof {
            lemma_product_range(self.x as int, self.x as int, VEC_RANGE as int);
            lemma_product_range(self.y as int, self.y as int, VEC_RANGE as int);
            assert(self.x * self.x >= 0) by (nonlinear_arith);
            assert(self.y * self.y >= 0) by (nonlinear_arith);
        }
        let r = isqrt(self.x * self.x + self.y * self.y);
        proof {
            if self.x != 0 || self.y != 0 {
                assert(self.x != 0 ==> self.x * self.x >= 1) by (nonlinear_arith);
                assert(self.y != 0 ==> self.y * self.y >= 1) by (nonlinear_arith);
                assert(len_sq_spec(self) >= 1);
                if r == 0 {
                    assert((r + 1) * (r + 1) == 1) by (nonlinear_arith)
                        requires
                            r == 0i64,
                    ;
                    assert(false);
                }
            }
        }
        r
    }

    /// The direction of the vector, scaled so its magnitude is `ONE`.
    pub fn normalize(self) -> (r: Vec2)
        requires
            bounded(self, VEC_RANGE as int),
            self.x != 0 || self.y != 0,
        ensures
            r.x == (self.x * ONE) / vec_len_spec(self),
            r.y == (self.y * ONE) / vec_len_spec(self),
            bounded(r, ONE as int),
    {
        let l = self.length();
        proof {
            lemma_coord_le_len(self);
            assert(len_sq_spec(self) <= 2 * (0x4000_0000 * 0x4000_0000)) by (nonlinear_arith)
                requires
                    bounded(self, 0x4000_0000),
            ;
            assert(l <= 0x8000_0000) by (nonlinear_arith)
                requires
                    0 <= l,
                    l * l <= 2 * (0x4000_0000 * 0x4000_0000),
            ;
            lemma_scaled_quotient_unit(self.x as int, l as int);
            lemma_scaled_quotient_unit(self.y as int, l as int);
        }
        let rx = div_floor(self.x * ONE, l);
        let ry = div_floor(self.y * ONE, l);
        Vec2 { x: rx, y: ry }
    }

    /// The unit direction vector of an angle, scaled by `ONE`.
    pub fn from_angle(a: i64) -> (r: Vec2)
        ensures
            r.x == cos_spec(a as int),
            r.y == sin_spec(a as int),
            bounded(r, ONE as int),
    {
        Vec2 { x: cos_fp(a), y: sin_fp(a) }
    }

    /// The angle of the vector, folded into `[0, TAU)`.
    pub fn angle(self) -> (r: i64)
        requires
            bounded(self, VEC_RANGE as int),
        ensures
            r == atan2_spec(self.y as int, self.x as int),
            0 <= r < TAU,
    {
        atan2_fp(self.y, self.x)
    }

    /// The vector scaled by a fixed-point scalar.
    pub fn mul_fx(self, s: i64) -> (r: Vec2)
        requires
            bounded(self, VEC_RANGE as int),
            -VEC_RANGE <= s <= VEC_RANGE,
        ensures
            r.x == fx_mul_spec(self.x as int, s as int),
            r.y == fx_mul_spec(self.y as int, s as int),
    {
        proof {
            lemma_product_range(self.x as int, s as int, VEC_RANGE as int);
            lemma_product_range(self.y as int, s as int, VEC_RANGE as int);
        }
        Vec2 { x: fx_mul(self.x, s), y: fx_mul(self.y, s) }
    }
}

/// A vector's magnitude never exceeds the sum of its coordinate
/// magnitudes.
pub proof fn lemma_len_le_manhattan(v: Vec2)
    ensures
        vec_len_spec(v) <= abs(v.x as int) + abs(v.y as int),
{
    assert(v.x * v.x >= 0) by (nonlinear_arith);
    assert(v.y * v.y >= 0) by (nonlinear_arith);
    crate::utils::fixed::lemma_sqrt_floor_bounds(len_sq_spec(v) as nat);
    let l = vec_len_spec(v);
    let ax = abs(v.x as int) as int;
    let ay = abs(v.y as int) as int;
    assert(v.x * v.x + v.y * v.y <= (ax + ay) * (ax + ay)) by (nonlinear_arith)
        requires
            -ax <= v.x <= ax,
            -ay <= v.y <= ay,
            0 <= ax,
            0 <= ay,
    ;
    if l > ax + ay {
        assert((ax + ay + 1) * (ax + ay + 1) <= l * l) by (nonlinear_arith)
            requires
                0 <= ax + ay,
                ax + ay + 1 <= l,
        ;
        assert((ax + ay) * (ax + ay) < (ax + ay + 1) * (ax + ay + 1)) by (nonlinear_arith)
            requires
                0 <= ax + ay,
        ;
        assert(false);
    }
}

/// Two scalars within a common bound have a product within its square.
proof fn lemma_product_range(a: int, b: int, m: int)
    requires
        -m <= a <= m,
        -m <= b <= m,
        0 <= m <= 0x4000_0000,
    ensures
        -0x1000_0000_0000_0000 <= a * b <= 0x1000_0000_0000_0000,
{
    assert(-(m * m) <= a * b <= m * m) by (nonlinear_arith)
        requires
            -m <= a <= m,
            -m <= b <= m,
            0 <= m,
    ;
    assert(m * m <= 0x4000_0000i64 * 0x4000_0000i64) by (nonlinear_arith)
        requires
            0 <= m <= 0x4000_0000,
    ;
}

/// No coordinate exceeds the vector's magnitude.
proof fn lemma_coord_le_len(v: Vec2)
    requires
        bounded(v, VEC_RANGE as int),
    ensures
        -vec_len_spec(v) <= v.x <= vec_len_spec(v),
        -vec_len_spec(v) <= v.y <= vec_len_spec(v),
{
    crate::utils::fixed::lemma_sqrt_floor_bounds(len_sq_spec(v) as nat);
    let l = vec_len_spec(v);
    assert(v.x * v.x >= 0) by (nonlinear_arith);
    assert(v.y * v.y >= 0) by (nonlinear_arith);
    assert(v.x * v.x <= len_sq_spec(v));
    assert(len_sq_spec(v) < (l + 1) * (l + 1));
    assert(-(l + 1) < v.x < l + 1) by (nonlinear_arith)
        requires
            v.x * v.x < (l + 1) * (l + 1),
            l >= 0,
    ;
    assert(-(l + 1) < v.y < l + 1) by (nonlinear_arith)
        requires
            v.y * v.y < (l + 1) * (l + 1),
            l >= 0,
    ;
}

/// A coordinate no larger than the divisor scales to at most `ONE`.
proof fn lemma_scaled_quotient_unit(x: int, l: int)
    requires
        1 <= l,
        -l <= x <= l,
        l <= 0x8000_0000,
    ensures
        -(ONE as int) <= (x * ONE) / (l as int) <= ONE as int,
        -0x1000_0000_0000_0000 <= x * ONE <= 0x1000_0000_0000_0000,
{
    assert(-(l * ONE) <= x * ONE <= l * ONE) by (nonlinear_arith)
        requires
            -l <= x <= l,
            ONE == 2048i64,
    ;
    assert(l * ONE <= 0x8000_0000i64 * 2048) by (nonlinear_arith)
        requires
            0 <= l <= 0x8000_0000,
    ;
    lemma_div_is_ordered(x * ONE, l * ONE, l);
    lemma_div_is_ordered(-(l * ONE), x * ONE, l);
    lemma_div_multiples_vanish(ONE as int, l);
    lemma_div_multiples_vanish(-(ONE as int), l);
    assert(l * ONE == ONE * l) by (nonlinear_arith);
    assert(-(l * ONE) == (-(ONE as int)) * l) by (nonlinear_arith);
}

} // verus!
