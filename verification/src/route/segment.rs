//! Path segments: the geometric primitives a route is realised as.
//!
//! A segment is either a straight run (`Moving`), a straight run whose one
//! end is a route terminus (`LastPlatform`), or a platform arc into or out
//! of a station (`ArrivePlatform` / `LeavePlatform`).  Each maps a distance
//! travelled from its start to a position and a heading, through the same
//! angle primitives that built it.

use vstd::prelude::*;

verus! {

use vstd::arithmetic::div_mod::{
    lemma_div_is_ordered,
    lemma_div_multiples_vanish,
    lemma_div_pos_is_pos,
};
use crate::utils::fixed::{
    ONE,
    PI,
    TAU,
    HALF_PI,
    clamp,
    clamp_spec,
    div_floor,
    fx_mul_spec,
    lemma_div_floor_bounds,
    lemma_fx_unit_scale,
};
use crate::utils::{
    angle_between,
    angle_between_spec,
    lerp_angle,
    lerp_angle_spec,
    lerp_endpoints_spec,
    lemma_lerp_angle_at_start,
    lemma_lerp_angle_at_end,
    lemma_lerp_angle_monotonic,
    norm_spec,
};
use crate::utils::trig::{cos_spec, sin_spec, lemma_cos_fold, lemma_sin_fold, atan2_spec};
use crate::utils::vec2::{Vec2, bounded, len2_spec};

/// Positions on a route stay within this many fixed-point steps per axis.
pub const POS_LIMIT: i64 = 0x400_0000;

/// Platform radii stay within this many fixed-point steps.
pub const RADIUS_LIMIT: i64 = 0x10_0000;

/// No single segment is longer than this many fixed-point steps.
pub const LEN_LIMIT: i64 = 0x1000_0000;

/// A vehicle's distance into a segment stays within this bound, overshoot
/// during a large tick included.
pub const DIST_LIMIT: i64 = 0x2000_0000;

/// What a segment is geometrically, and how a vehicle behaves on it.  The
/// platform variants carry the circle centre, the radius, the entrance,
/// middle and exit angles, and whether the longer sweep was chosen.  The
/// terminal variant carries `-1` when its start is the route terminus and
/// `1` when its end is.
#[derive(Clone, Copy, PartialEq, Eq, Structural, Debug)]
pub enum VehicleState {
    Moving,
    LastPlatform(i64),
    ArrivePlatform(Vec2, i64, i64, i64, i64, bool),
    LeavePlatform(Vec2, i64, i64, i64, i64, bool),
}

/// One geometric piece of a route's path.
#[derive(Clone, Copy, PartialEq, Eq, Structural, Debug)]
pub struct Segment {
    pub begin_pos: Vec2,
    pub end_pos: Vec2,
    pub connecting_station: usize,
    pub state: VehicleState,
}

/// The length of a segment: Euclidean for straight runs, radius times
/// angular span for arcs, through the same angle primitive sampling uses.
pub open spec fn seg_len_spec(s: Segment) -> int {
    match s.state {
        VehicleState::Moving | VehicleState::LastPlatform(_) => len2_spec(
            s.end_pos.x - s.begin_pos.x,
            s.end_pos.y - s.begin_pos.y,
        ),
        VehicleState::ArrivePlatform(_, radius, entrance_angle, center_angle, _, _) => fx_mul_spec(
            radius as int,
            angle_between_spec(center_angle as int, entrance_angle as int),
        ),
        VehicleState::LeavePlatform(_, radius, _, center_angle, exit_angle, _) => fx_mul_spec(
            radius as int,
            angle_between_spec(exit_angle as int, center_angle as int),
        ),
    }
}

/// A segment the rest of the simulation can rely on: coordinates in range,
/// arc data normalised, and a strictly positive length.
pub open spec fn seg_wf(s: Segment) -> bool {
    &&& bounded(s.begin_pos, POS_LIMIT as int)
    &&& bounded(s.end_pos, POS_LIMIT as int)
    &&& 1 <= seg_len_spec(s) <= LEN_LIMIT
    &&& match s.state {
        VehicleState::Moving => true,
        VehicleState::LastPlatform(d) => d == -1 || d == 1,
        VehicleState::ArrivePlatform(center, radius, entrance_angle, center_angle, exit_angle, _)
            | VehicleState::LeavePlatform(
            center,
            radius,
            entrance_angle,
            center_angle,
            exit_angle,
            _,
        ) => {
            &&& bounded(center, POS_LIMIT as int)
            &&& 1 <= radius <= RADIUS_LIMIT
            &&& 0 <= entrance_angle < TAU
            &&& 0 <= center_angle < TAU
            &&& 0 <= exit_angle < TAU
        },
    }
}

/// The fraction of the segment covered at distance `d`, scaled by `ONE` and
/// clamped to the segment, so sampling never leaves the geometry.
pub open spec fn frac_spec(s: Segment, d: int) -> int {
    clamp_spec((d * ONE) / seg_len_spec(s), 0, ONE as int)
}

/// The pair of angles an arc sweeps between while being sampled.
pub open spec fn arc_angles_spec(s: Segment) -> (int, int) {
    match s.state {
        VehicleState::ArrivePlatform(_, _, entrance_angle, center_angle, _, _) => (
            entrance_angle as int,
            center_angle as int,
        ),
        VehicleState::LeavePlatform(_, _, _, center_angle, exit_angle, _) => (
            center_angle as int,
            exit_angle as int,
        ),
        _ => (0, 0),
    }
}

/// The sampled angle of an arc at distance `d`: angular interpolation over
/// the covered fraction, always taking the short way between the two stored
/// angles.
pub open spec fn arc_angle_spec(s: Segment, d: int) -> int {
    let (a, b) = arc_angles_spec(s);
    lerp_angle_spec(a, b, frac_spec(s, d), false)
}

/// The horizontal coordinate sampled at distance `d` from the segment's
/// start.
pub open spec fn pos_x_spec(s: Segment, d: int) -> int {
    match s.state {
        VehicleState::Moving | VehicleState::LastPlatform(_) => s.begin_pos.x + ((s.end_pos.x
            - s.begin_pos.x) * frac_spec(s, d)) / (ONE as int),
        VehicleState::ArrivePlatform(center, radius, _, _, _, _)
            | VehicleState::LeavePlatform(center, radius, _, _, _, _) => center.x + fx_mul_spec(
            cos_spec(arc_angle_spec(s, d)),
            radius as int,
        ),
    }
}

/// The vertical coordinate sampled at distance `d` from the segment's
/// start.
pub open spec fn pos_y_spec(s: Segment, d: int) -> int {
    match s.state {
        VehicleState::Moving | VehicleState::LastPlatform(_) => s.begin_pos.y + ((s.end_pos.y
            - s.begin_pos.y) * frac_spec(s, d)) / (ONE as int),
        VehicleState::ArrivePlatform(center, radius, _, _, _, _)
            | VehicleState::LeavePlatform(center, radius, _, _, _, _) => center.y + fx_mul_spec(
            sin_spec(arc_angle_spec(s, d)),
            radius as int,
        ),
    }
}

/// The heading of an arc at the interpolated angle between `from` and `to`:
/// a quarter turn off the radius direction, flipped so the vehicle faces
/// forward along the sweep.
pub open spec fn rot_platform_spec(s: Segment, from: int, to: int, d: int) -> int {
    let angle = lerp_angle_spec(from, to, (d * ONE) / seg_len_spec(s), false);
    if -(PI as int) <= to - from <= PI as int {
        if to > from {
            angle + HALF_PI
        } else {
            angle - HALF_PI
        }
    } else {
        if to > from {
            angle - HALF_PI
        } else {
            angle + HALF_PI
        }
    }
}

/// The heading sampled at distance `d` from the segment's start.
pub open spec fn rot_spec(s: Segment, d: int) -> int {
    match s.state {
        VehicleState::Moving | VehicleState::LastPlatform(_) => atan2_spec(
            s.end_pos.y - s.begin_pos.y,
            s.end_pos.x - s.begin_pos.x,
        ),
        VehicleState::ArrivePlatform(_, _, entrance_angle, center_angle, _, _) =>
            rot_platform_spec(s, entrance_angle as int, center_angle as int, d),
        VehicleState::LeavePlatform(_, _, _, center_angle, exit_angle, _) => rot_platform_spec(
            s,
            center_angle as int,
            exit_angle as int,
            d,
        ),
    }
}

/// The fraction of the segment covered in the direction of travel, scaled
/// by `ONE`; `0` at the point being left, `ONE` at the point being
/// approached, unclamped so overshoot is visible.
pub open spec fn progress_spec(s: Segment, distance: int, direction: int) -> int {
    if direction > 0 {
        (distance * ONE) / seg_len_spec(s)
    } else {
        ONE - (distance * ONE) / seg_len_spec(s)
    }
}

/// The segment's stored endpoints are exactly its samples at distance zero
/// and at its full length.
#[verifier::opaque]
pub open spec fn ends_sampled(s: Segment) -> bool {
    &&& pos_x_spec(s, 0) == s.begin_pos.x
    &&& pos_y_spec(s, 0) == s.begin_pos.y
    &&& pos_x_spec(s, seg_len_spec(s)) == s.end_pos.x
    &&& pos_y_spec(s, seg_len_spec(s)) == s.end_pos.y
}

impl Segment {
    /// A segment from its geometric description.
    pub fn new(state: VehicleState, begin_pos: Vec2, end_pos: Vec2, connecting_station: usize) -> (
        s: Segment)
        ensures
            s.state == state,
            s.begin_pos == begin_pos,
            s.end_pos == end_pos,
            s.connecting_station == connecting_station,
    {
        Segment { state, begin_pos, end_pos, connecting_station }
    }

    /// The point the segment starts at.
    pub fn begin_pos(&self) -> (p: Vec2)
        ensures
            p == self.begin_pos,
    {
        self.begin_pos
    }

    /// The point the segment ends at.
    pub fn end_pos(&self) -> (p: Vec2)
        ensures
            p == self.end_pos,
    {
        self.end_pos
    }

    /// The segment's geometric description.
    pub fn state(&self) -> (st: VehicleState)
        ensures
            st == self.state,
    {
        self.state
    }

    /// Replaces the segment's geometric description.
    pub fn set_state(&mut self, state: VehicleState)
        ensures
            final(self).state == state,
            final(self).begin_pos == old(self).begin_pos,
            final(self).end_pos == old(self).end_pos,
            final(self).connecting_station == old(self).connecting_station,
    {
        self.state = state;
    }

    /// The station this segment belongs to.
    pub fn station(&self) -> (id: usize)
        ensures
            id == self.connecting_station,
    {
        self.connecting_station
    }

    /// The segment's length.
    pub fn length(&self) -> (r: i64)
        requires
            seg_wf(*self),
        ensures
            r == seg_len_spec(*self),
            1 <= r <= LEN_LIMIT,
    {
        match self.state {
            VehicleState::Moving | VehicleState::LastPlatform(_) => {
                self.end_pos.sub(self.begin_pos).length()
            },
            VehicleState::ArrivePlatform(_, radius, entrance_angle, center_angle, _, _) => {
                let span = angle_between(center_angle, entrance_angle);
                proof {
                    lemma_radius_span_product(radius as int, span as int);
                }
                div_floor(radius * span, ONE)
            },
            VehicleState::LeavePlatform(_, radius, _, center_angle, exit_angle, _) => {
                let span = angle_between(exit_angle, center_angle);
                proof {
                    lemma_radius_span_product(radius as int, span as int);
                }
                div_floor(radius * span, ONE)
            },
        }
    }

    /// The fraction of the segment covered in the direction of travel,
    /// scaled by `ONE`.
    pub fn progress(&self, distance: i64, direction: i64) -> (r: i64)
        requires
            seg_wf(*self),
            -DIST_LIMIT <= distance <= DIST_LIMIT,
            direction == 1 || direction == -1,
        ensures
            r == progress_spec(*self, distance as int, direction as int),
            -0x200_0000_0000 <= r <= 0x200_0000_0000,
    {
        let len = self.length();
        proof {
            lemma_scaled_distance_bounds(distance as int, len as int);
        }
        if direction > 0 {
            div_floor(distance * ONE, len)
        } else {
            ONE - div_floor(distance * ONE, len)
        }
    }

    /// The distance covered from the point the vehicle is moving away from.
    pub fn distance_to_start(&self, distance: i64, direction: i64) -> (r: i64)
        requires
            seg_wf(*self),
            -DIST_LIMIT <= distance <= DIST_LIMIT,
            direction == 1 || direction == -1,
        ensures
            direction == 1 ==> r == distance,
            direction == -1 ==> r == seg_len_spec(*self) - distance,
    {
        if direction > 0 {
            distance
        } else {
            self.length() - distance
        }
    }

    /// The distance left to the point the vehicle is moving toward.
    pub fn distance_to_end(&self, distance: i64, direction: i64) -> (r: i64)
        requires
            seg_wf(*self),
            -DIST_LIMIT <= distance <= DIST_LIMIT,
            direction == 1 || direction == -1,
        ensures
            direction == 1 ==> r == seg_len_spec(*self) - distance,
            direction == -1 ==> r == distance,
    {
        if direction > 0 {
            self.length() - distance
        } else {
            distance
        }
    }

    /// Whether the vehicle has covered the whole segment in its direction
    /// of travel.
    pub fn end(&self, distance: i64, direction: i64) -> (r: bool)
        requires
            seg_wf(*self),
            -DIST_LIMIT <= distance <= DIST_LIMIT,
            direction == 1 || direction == -1,
        ensures
            r == (progress_spec(*self, distance as int, direction as int) >= ONE),
    {
        self.progress(distance, direction) >= ONE
    }

    /// The position sampled at `distance` from the segment's start; the
    /// fraction is clamped, so the result always lies on the segment.
    pub fn calculate_position(&self, distance: i64) -> (p: Vec2)
        requires
            seg_wf(*self),
            -DIST_LIMIT <= distance <= DIST_LIMIT,
        ensures
            p.x == pos_x_spec(*self, distance as int),
            p.y == pos_y_spec(*self, distance as int),
            bounded(p, POS_LIMIT + RADIUS_LIMIT),
    {
        let len = self.length();
        proof {
            lemma_scaled_distance_bounds(distance as int, len as int);
        }
        let t = clamp(div_floor(distance * ONE, len), 0, ONE);
        match self.state {
            VehicleState::Moving | VehicleState::LastPlatform(_) => {
                let dx = self.end_pos.x - self.begin_pos.x;
                let dy = self.end_pos.y - self.begin_pos.y;
                proof {
                    lemma_step_within(self.begin_pos.x as int, self.end_pos.x as int, t as int);
                    lemma_step_within(self.begin_pos.y as int, self.end_pos.y as int, t as int);
                }
                let sx = div_floor(dx * t, ONE);
                let sy = div_floor(dy * t, ONE);
                Vec2 { x: self.begin_pos.x + sx, y: self.begin_pos.y + sy }
            },
            VehicleState::ArrivePlatform(center, radius, entrance_angle, center_angle, _, _) => {
                let angle = lerp_angle(entrance_angle, center_angle, t, false);
                let offset = Vec2::from_angle(angle).mul_fx(radius);
                proof {
                    lemma_fx_unit_scale(cos_spec(angle as int), radius as int);
                    lemma_fx_unit_scale(sin_spec(angle as int), radius as int);
                }
                center.add(offset)
            },
            VehicleState::LeavePlatform(center, radius, _, center_angle, exit_angle, _) => {
                let angle = lerp_angle(center_angle, exit_angle, t, false);
                let offset = Vec2::from_angle(angle).mul_fx(radius);
                proof {
                    lemma_fx_unit_scale(cos_spec(angle as int), radius as int);
                    lemma_fx_unit_scale(sin_spec(angle as int), radius as int);
                }
                center.add(offset)
            },
        }
    }

    /// The heading sampled at `distance` from the segment's start.
    pub fn calculate_rotation(&self, distance: i64) -> (r: i64)
        requires
            seg_wf(*self),
            -DIST_LIMIT <= distance <= DIST_LIMIT,
        ensures
            r == rot_spec(*self, distance as int),
            -0x2000_0000_0000 <= r <= 0x2000_0000_0000,
    {
        match self.state {
            VehicleState::Moving | VehicleState::LastPlatform(_) => {
                self.end_pos.sub(self.begin_pos).angle()
            },
            VehicleState::ArrivePlatform(_, _, entrance_angle, center_angle, _, _) => {
                self.calculate_rotation_on_platform(entrance_angle, center_angle, distance)
            },
            VehicleState::LeavePlatform(_, _, _, center_angle, exit_angle, _) => {
                self.calculate_rotation_on_platform(center_angle, exit_angle, distance)
            },
        }
    }

    /// The heading along a platform arc between the two given stored
    /// angles.
    fn calculate_rotation_on_platform(&self, from: i64, to: i64, distance: i64) -> (r: i64)
        requires
            seg_wf(*self),
            -DIST_LIMIT <= distance <= DIST_LIMIT,
            -TAU <= from <= TAU,
            -TAU <= to <= TAU,
        ensures
            r == rot_platform_spec(*self, from as int, to as int, distance as int),
            -0x2000_0000_0000 <= r <= 0x2000_0000_0000,
    {
        let len = self.length();
        proof {
            lemma_scaled_distance_bounds(distance as int, len as int);
        }
        let t = div_floor(distance * ONE, len);
        let angle = lerp_angle(from, to, t, false);
        let gap = if to >= from {
            to - from
        } else {
            from - to
        };
        if gap <= PI {
            if to > from {
                angle + HALF_PI
            } else {
                angle - HALF_PI
            }
        } else {
            if to > from {
                angle - HALF_PI
            } else {
                angle + HALF_PI
            }
        }
    }
}

/// Travelling forward, the segment is fully covered exactly when the
/// distance has reached the segment's length.
pub proof fn lemma_end_forward(s: Segment, d: int)
    requires
        seg_wf(s),
    ensures
        (progress_spec(s, d, 1) >= ONE) <==> d >= seg_len_spec(s),
{
    let len = seg_len_spec(s);
    let q = (d * ONE) / len;
    vstd::arithmetic::div_mod::lemma_fundamental_div_mod(d * ONE, len);
    if q >= ONE {
        assert(q * len >= (ONE as int) * len) by (nonlinear_arith)
            requires
                q >= ONE as int,
                len >= 1,
        ;
        assert(d * ONE >= (ONE as int) * len);
        assert(d >= len) by (nonlinear_arith)
            requires
                d * (ONE as int) >= (ONE as int) * len,
                ONE == 2048i64,
        ;
    }
    if d >= len {
        assert(len * (ONE as int) <= d * (ONE as int)) by (nonlinear_arith)
            requires
                len <= d,
        ;
        lemma_div_is_ordered(len * ONE, d * ONE, len);
        lemma_div_multiples_vanish(ONE as int, len);
        assert(len * ONE == (len as int) * (ONE as int));
    }
}

/// Travelling backward, the segment is fully covered exactly when the
/// scaled distance has fallen below the length's resolution; the distance
/// is then strictly inside the segment.
pub proof fn lemma_end_backward(s: Segment, d: int)
    requires
        seg_wf(s),
    ensures
        (progress_spec(s, d, -1) >= ONE) <==> d * ONE < seg_len_spec(s),
        d * ONE < seg_len_spec(s) ==> d < seg_len_spec(s),
        d * ONE >= seg_len_spec(s) ==> d >= 1,
{
    let len = seg_len_spec(s);
    let q = (d * ONE) / len;
    vstd::arithmetic::div_mod::lemma_fundamental_div_mod(d * ONE, len);
    vstd::arithmetic::div_mod::lemma_mod_bound(d * ONE, len);
    if q <= 0 {
        assert(q * len <= 0) by (nonlinear_arith)
            requires
                q <= 0,
                len >= 1,
        ;
    }
    if d * ONE < len {
        if q >= 1 {
            assert(q * len >= len) by (nonlinear_arith)
                requires
                    q >= 1,
                    len >= 1,
            ;
        }
        assert(d < len) by (nonlinear_arith)
            requires
                d * (ONE as int) < len,
                len >= 1,
                ONE == 2048i64,
        ;
    }
    if d * ONE >= len {
        assert(d >= 1) by (nonlinear_arith)
            requires
                d * (ONE as int) >= len,
                len >= 1,
                ONE == 2048i64,
        ;
    }
}

/// The circle centre of an arc segment.
pub open spec fn arc_center_spec(s: Segment) -> Vec2 {
    match s.state {
        VehicleState::ArrivePlatform(center, _, _, _, _, _) => center,
        VehicleState::LeavePlatform(center, _, _, _, _, _) => center,
        _ => s.begin_pos,
    }
}

/// The radius of an arc segment.
pub open spec fn arc_radius_spec(s: Segment) -> int {
    match s.state {
        VehicleState::ArrivePlatform(_, radius, _, _, _, _) => radius as int,
        VehicleState::LeavePlatform(_, radius, _, _, _, _) => radius as int,
        _ => 0,
    }
}

/// Length consistency: an arc segment's length is its radius times the
/// angular span measured by the same angle primitive sampling uses; there
/// is no second formula to drift from.
pub proof fn lemma_arc_length_consistency(s: Segment)
    ensures
        s.state matches VehicleState::ArrivePlatform(c, radius, entrance_angle, center_angle, e, p)
            ==> seg_len_spec(s) == fx_mul_spec(
            radius as int,
            angle_between_spec(center_angle as int, entrance_angle as int),
        ),
        s.state matches VehicleState::LeavePlatform(c, radius, e, center_angle, exit_angle, p)
            ==> seg_len_spec(s) == fx_mul_spec(
            radius as int,
            angle_between_spec(exit_angle as int, center_angle as int),
        ),
{
}

/// The covered fraction at distance zero is zero, and at the full length it
/// is exactly `ONE`.
proof fn lemma_frac_at_ends(s: Segment)
    requires
        seg_wf(s),
    ensures
        frac_spec(s, 0) == 0,
        frac_spec(s, seg_len_spec(s)) == ONE,
{
    let len = seg_len_spec(s);
    assert(0 * ONE == 0);
    vstd::arithmetic::div_mod::lemma_div_of0(len);
    lemma_div_multiples_vanish(ONE as int, len);
    assert(len * ONE == (len as int) * (ONE as int));
}

/// Sampling clamps: the position at any distance equals the position at
/// that distance forced into `[0, length]`, so overshoot never leaves the
/// segment.
pub proof fn lemma_position_clamped(s: Segment, d: int)
    requires
        seg_wf(s),
        -(DIST_LIMIT as int) <= d <= DIST_LIMIT as int,
    ensures
        pos_x_spec(s, d) == pos_x_spec(s, clamp_spec(d, 0, seg_len_spec(s))),
        pos_y_spec(s, d) == pos_y_spec(s, clamp_spec(d, 0, seg_len_spec(s))),
{
    let len = seg_len_spec(s);
    lemma_frac_at_ends(s);
    if d < 0 {
        assert(d * ONE < 0) by (nonlinear_arith)
            requires
                d < 0,
                ONE == 2048i64,
        ;
        lemma_div_floor_bounds(d * ONE, len);
        assert(frac_spec(s, d) == 0);
    } else if d > len {
        assert(len * ONE <= d * ONE) by (nonlinear_arith)
            requires
                len <= d,
                ONE == 2048i64,
        ;
        lemma_div_is_ordered(len * ONE, d * ONE, len);
        lemma_div_multiples_vanish(ONE as int, len);
        assert(len * ONE == (len as int) * (ONE as int));
        assert(frac_spec(s, d) == ONE);
    }
}

/// A straight segment's stored endpoints are exactly its samples at
/// distance zero and at its full length.
pub proof fn lemma_line_ends_sampled(s: Segment)
    requires
        seg_wf(s),
        s.state is Moving || s.state is LastPlatform,
    ensures
        ends_sampled(s),
{
    reveal(ends_sampled);
    let len = seg_len_spec(s);
    let dx = s.end_pos.x - s.begin_pos.x;
    let dy = s.end_pos.y - s.begin_pos.y;
    lemma_frac_at_ends(s);
    assert(dx * 0 == 0 && dy * 0 == 0);
    vstd::arithmetic::div_mod::lemma_div_of0(ONE as int);
    lemma_div_multiples_vanish(dx, ONE as int);
    lemma_div_multiples_vanish(dy, ONE as int);
    assert(dx * ONE == (ONE as int) * dx && dy * ONE == (ONE as int) * dy);
}

/// An arc segment whose stored endpoints are the circle samples of its two
/// sweep angles has those endpoints as its samples at distance zero and at
/// its full length.
pub proof fn lemma_arc_ends_sampled(s: Segment)
    requires
        seg_wf(s),
        s.state is ArrivePlatform || s.state is LeavePlatform,
        s.begin_pos.x == arc_center_spec(s).x + fx_mul_spec(
            cos_spec(arc_angles_spec(s).0),
            arc_radius_spec(s),
        ),
        s.begin_pos.y == arc_center_spec(s).y + fx_mul_spec(
            sin_spec(arc_angles_spec(s).0),
            arc_radius_spec(s),
        ),
        s.end_pos.x == arc_center_spec(s).x + fx_mul_spec(
            cos_spec(arc_angles_spec(s).1),
            arc_radius_spec(s),
        ),
        s.end_pos.y == arc_center_spec(s).y + fx_mul_spec(
            sin_spec(arc_angles_spec(s).1),
            arc_radius_spec(s),
        ),
    ensures
        ends_sampled(s),
{
    reveal(ends_sampled);
    let (a, b) = arc_angles_spec(s);
    lemma_frac_at_ends(s);
    lemma_lerp_angle_at_start(a, b, false);
    lemma_lerp_angle_at_end(a, b, false);
    vstd::arithmetic::div_mod::lemma_small_mod(a as nat, TAU as nat);
    vstd::arithmetic::div_mod::lemma_small_mod(b as nat, TAU as nat);
    lemma_cos_fold(arc_angle_spec(s, 0));
    lemma_sin_fold(arc_angle_spec(s, 0));
    lemma_cos_fold(arc_angle_spec(s, seg_len_spec(s)));
    lemma_sin_fold(arc_angle_spec(s, seg_len_spec(s)));
    lemma_cos_fold(a);
    lemma_sin_fold(a);
    lemma_cos_fold(b);
    lemma_sin_fold(b);
}

/// Monotonic progress: within `[0, length]` the covered fraction never
/// decreases with distance; a straight segment's sample moves monotonically
/// toward its end on both axes, and an arc's sampled angle moves
/// monotonically along its sweep.  The parametrisation never backtracks.
pub proof fn lemma_position_monotonic(s: Segment, d1: int, d2: int)
    requires
        seg_wf(s),
        0 <= d1 <= d2 <= seg_len_spec(s),
    ensures
        frac_spec(s, d1) <= frac_spec(s, d2),
        s.state is Moving || s.state is LastPlatform ==> {
            &&& s.end_pos.x >= s.begin_pos.x ==> pos_x_spec(s, d1) <= pos_x_spec(s, d2)
            &&& s.end_pos.x <= s.begin_pos.x ==> pos_x_spec(s, d1) >= pos_x_spec(s, d2)
            &&& s.end_pos.y >= s.begin_pos.y ==> pos_y_spec(s, d1) <= pos_y_spec(s, d2)
            &&& s.end_pos.y <= s.begin_pos.y ==> pos_y_spec(s, d1) >= pos_y_spec(s, d2)
        },
        s.state is ArrivePlatform || s.state is LeavePlatform ==> {
            let (a2, b2) = lerp_endpoints_spec(arc_angles_spec(s).0, arc_angles_spec(s).1, false);
            &&& a2 <= b2 ==> arc_angle_spec(s, d1) <= arc_angle_spec(s, d2)
            &&& a2 >= b2 ==> arc_angle_spec(s, d1) >= arc_angle_spec(s, d2)
        },
{
    let len = seg_len_spec(s);
    assert(d1 * ONE <= d2 * ONE) by (nonlinear_arith)
        requires
            d1 <= d2,
            ONE == 2048i64,
    ;
    lemma_div_is_ordered(d1 * ONE, d2 * ONE, len);
    let t1 = frac_spec(s, d1);
    let t2 = frac_spec(s, d2);
    assert(t1 <= t2);
    match s.state {
        VehicleState::Moving | VehicleState::LastPlatform(_) => {
            let dx = s.end_pos.x - s.begin_pos.x;
            let dy = s.end_pos.y - s.begin_pos.y;
            lemma_axis_step_monotonic(dx, t1, t2);
            lemma_axis_step_monotonic(dy, t1, t2);
        },
        VehicleState::ArrivePlatform(_, _, _, _, _, _) | VehicleState::LeavePlatform(
            _,
            _,
            _,
            _,
            _,
            _,
        ) => {
            let (a, b) = arc_angles_spec(s);
            lemma_lerp_angle_monotonic(a, b, t1, t2, false);
        },
    }
}

/// Along one axis the interpolation step grows with the fraction when the
/// axis difference is positive, and shrinks when it is negative.
proof fn lemma_axis_step_monotonic(d: int, t1: int, t2: int)
    requires
        t1 <= t2,
    ensures
        d >= 0 ==> (d * t1) / (ONE as int) <= (d * t2) / (ONE as int),
        d <= 0 ==> (d * t1) / (ONE as int) >= (d * t2) / (ONE as int),
{
    assert(d >= 0 ==> d * t1 <= d * t2) by (nonlinear_arith)
        requires
            t1 <= t2,
    ;
    assert(d <= 0 ==> d * t2 <= d * t1) by (nonlinear_arith)
        requires
            t1 <= t2,
    ;
    if d >= 0 {
        lemma_div_is_ordered(d * t1, d * t2, ONE as int);
    } else {
        lemma_div_is_ordered(d * t2, d * t1, ONE as int);
    }
}

/// An in-range radius and an angular span of at most a half turn keep their
/// product inside `i64`.
proof fn lemma_radius_span_product(radius: int, span: int)
    requires
        0 <= radius <= RADIUS_LIMIT,
        0 <= span <= TAU,
    ensures
        0 <= radius * span <= RADIUS_LIMIT * TAU,
{
    assert(0 <= radius * span <= RADIUS_LIMIT * TAU) by (nonlinear_arith)
        requires
            0 <= radius <= RADIUS_LIMIT,
            0 <= span <= TAU,
            RADIUS_LIMIT == 0x10_0000i64,
            TAU == 12868i64,
    ;
}

/// A bounded distance scaled by `ONE` stays inside `i64`, and its quotient
/// by a positive length stays within the scaled bound.
proof fn lemma_scaled_distance_bounds(distance: int, len: int)
    requires
        -DIST_LIMIT <= distance <= DIST_LIMIT,
        1 <= len,
    ensures
        -DIST_LIMIT * ONE <= distance * ONE <= DIST_LIMIT * ONE,
        -DIST_LIMIT * ONE <= (distance * ONE) / len <= DIST_LIMIT * ONE,
{
    assert(-DIST_LIMIT * ONE <= distance * ONE <= DIST_LIMIT * ONE) by (nonlinear_arith)
        requires
            -DIST_LIMIT <= distance <= DIST_LIMIT,
            DIST_LIMIT == 0x2000_0000i64,
            ONE == 2048i64,
    ;
    lemma_div_floor_bounds(distance * ONE, len);
}

/// One interpolation step along an axis stays between the two endpoint
/// coordinates and inside `i64`.
proof fn lemma_step_within(b: int, e: int, t: int)
    requires
        -(POS_LIMIT as int) <= b <= POS_LIMIT as int,
        -(POS_LIMIT as int) <= e <= POS_LIMIT as int,
        0 <= t <= ONE,
    ensures
        -2 * (POS_LIMIT as int) * (ONE as int) <= (e - b) * t <= 2 * (POS_LIMIT as int) * (
        ONE as int),
        e >= b ==> 0 <= ((e - b) * t) / (ONE as int) <= e - b,
        e < b ==> e - b <= ((e - b) * t) / (ONE as int) <= 0,
{
    let d = e - b;
    assert(-2 * (POS_LIMIT as int) * (ONE as int) <= d * t <= 2 * (POS_LIMIT as int) * (
    ONE as int)) by (nonlinear_arith)
        requires
            -2 * (POS_LIMIT as int) <= d <= 2 * (POS_LIMIT as int),
            0 <= t <= ONE,
            POS_LIMIT == 0x400_0000i64,
            ONE == 2048i64,
    ;
    if d >= 0 {
        assert(0 <= d * t <= d * ONE) by (nonlinear_arith)
            requires
                0 <= t <= ONE,
                d >= 0,
        ;
        lemma_div_pos_is_pos(d * t, ONE as int);
        lemma_div_is_ordered(d * t, d * ONE, ONE as int);
        lemma_div_multiples_vanish(d, ONE as int);
        assert(d * ONE == (ONE as int) * d);
    } else {
        assert(d * ONE <= d * t <= 0) by (nonlinear_arith)
            requires
                0 <= t <= ONE,
                d < 0,
        ;
        lemma_div_is_ordered(d * ONE, d * t, ONE as int);
        lemma_div_floor_bounds(d * t, ONE as int);
        lemma_div_multiples_vanish(d, ONE as int);
        assert(d * ONE == (ONE as int) * d);
    }
}

} // verus!
