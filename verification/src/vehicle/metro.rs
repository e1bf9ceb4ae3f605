//! The metro vehicle and its traversal state machine.
//!
//! A metro is either dwelling (stopped at a platform with its timer
//! running) or running (advancing along segments).  Speed is always kept
//! between zero and the vehicle's top speed, and direction reverses only
//! at a terminal segment whose tag matches the direction of travel.

use vstd::prelude::*;

verus! {

use crate::passenger::Passenger;
use crate::route::handler::RouteHandler;
use crate::route::segment::{
    DIST_LIMIT,
    LEN_LIMIT,
    Segment,
    VehicleState,
    lemma_end_backward,
    lemma_end_forward,
    lemma_position_clamped,
    pos_x_spec,
    pos_y_spec,
    progress_spec,
    rot_spec,
    seg_len_spec,
    seg_wf,
};
use crate::utils::fixed::PI;
use crate::route::path_traversable;
use crate::utils::lerp_angle_spec;
use crate::utils::fixed::{ONE, TAU, clamp, clamp_spec, div_floor, fx_mul, fx_mul_spec};
use crate::utils::vec2::Vec2;
use crate::vehicle::{
    ACCELERATION_RATE,
    DELTA_LIMIT,
    MAX_SPEED,
    SLOW_DIVISOR,
    SPEED_LIMIT,
    TERMINAL_CREEP,
    WAIT_LIMIT,
};

/// A metro: its route, where on the route it is, its motion state, and the
/// passengers aboard.
pub struct Metro {
    pub id: usize,
    pub route: usize,
    pub segment: usize,
    pub distance: i64,
    pub stopping: bool,
    pub speed: i64,
    pub max_speed: i64,
    pub waiting_time: i64,
    pub max_waiting_time: i64,
    pub direction: i64,
    pub position: Vec2,
    pub rotation: i64,
    pub next_rotation: i64,
    pub passengers: Vec<Passenger>,
}

/// A metro the state machine can run: speed within `[0, max_speed]`,
/// direction a unit sign, timers and distance in range.
pub open spec fn metro_wf(m: Metro) -> bool {
    &&& 0 <= m.speed <= m.max_speed
    &&& 1 <= m.max_speed <= SPEED_LIMIT
    &&& m.direction == 1 || m.direction == -1
    &&& 0 <= m.waiting_time <= m.max_waiting_time + DELTA_LIMIT
    &&& (m.stopping ==> m.waiting_time <= m.max_waiting_time)
    &&& 1 <= m.max_waiting_time <= WAIT_LIMIT
    &&& -DIST_LIMIT <= m.distance <= DIST_LIMIT
    &&& -0x1000_0000 <= m.rotation <= 0x1000_0000
    &&& 0 <= m.next_rotation < TAU
}

/// The metro sits on an existing, fully built route, at an existing
/// segment index.
pub open spec fn on_valid_route(m: Metro, routes: RouteHandler) -> bool {
    &&& (m.route as int) < routes.routes@.len()
    &&& path_traversable(routes.routes@[m.route as int])
    &&& (m.segment as int) < routes.routes@[m.route as int].path_nodes@.len()
}

/// The realised path of the route a metro runs on.
pub open spec fn path_of(m: Metro, routes: RouteHandler) -> Seq<Segment> {
    routes.routes@[m.route as int].path_nodes@
}

/// Whether a segment kind slows the vehicle toward a stop in the given
/// direction of travel: a terminal approached toward its tagged end, an
/// arrival arc ridden forward, or a departure arc ridden backward.
pub open spec fn braking_spec(st: VehicleState, dir: int) -> bool {
    match st {
        VehicleState::Moving => false,
        VehicleState::LastPlatform(t) => t == dir,
        VehicleState::ArrivePlatform(_, _, _, _, _, _) => dir > 0,
        VehicleState::LeavePlatform(_, _, _, _, _, _) => dir < 0,
    }
}

/// The next segment index in the direction of travel, wrapping only on a
/// looped route.
pub open spec fn next_segment_spec(seg: int, dir: int, len: int, looped: bool) -> int {
    if dir > 0 {
        if looped && seg == len - 1 {
            0
        } else {
            seg + 1
        }
    } else {
        if looped && seg == 0 {
            len - 1
        } else {
            seg - 1
        }
    }
}

/// Easing on a straight run: a quarter of the remaining speed gap per
/// second, capped at the top speed.
#[verifier::opaque]
pub open spec fn moving_speed_spec(max: int, speed: int, delta: int) -> int {
    let cand = speed + fx_mul_spec(fx_mul_spec(max - speed, ACCELERATION_RATE as int), delta);
    if cand > max {
        max
    } else {
        cand
    }
}

/// The speed the state machine sets while running, by segment kind and
/// direction of travel: easing toward top speed on straight runs,
/// proportional slow-down toward stops and termini, proportional speed-up
/// away from them, always within `[0, max]`.  Departing factors hold at
/// least the terminal creep: the proportional term alone is zero exactly
/// at the start-of-travel point, and a departure must be able to begin to
/// move.
#[verifier::opaque]
pub open spec fn target_speed_spec(
    s: Segment,
    max: int,
    speed: int,
    dir: int,
    distance: int,
    delta: int,
) -> int {
    match s.state {
        VehicleState::Moving => moving_speed_spec(max, speed, delta),
        VehicleState::LastPlatform(t) => if dir == t as int {
            fx_mul_spec(
                max,
                clamp_spec(
                    TERMINAL_CREEP + (if dir > 0 {
                        seg_len_spec(s) - distance
                    } else {
                        distance
                    }) / (SLOW_DIVISOR as int),
                    0,
                    ONE as int,
                ),
            )
        } else {
            fx_mul_spec(
                max,
                clamp_spec(
                    (if dir > 0 {
                        distance
                    } else {
                        seg_len_spec(s) - distance
                    }) / (SLOW_DIVISOR as int),
                    TERMINAL_CREEP as int,
                    ONE as int,
                ),
            )
        },
        VehicleState::ArrivePlatform(_, _, _, _, _, _) => if dir > 0 {
            fx_mul_spec(
                max,
                clamp_spec(
                    ONE + TERMINAL_CREEP - progress_spec(s, distance, dir),
                    0,
                    ONE as int,
                ),
            )
        } else {
            fx_mul_spec(
                max,
                clamp_spec(progress_spec(s, distance, dir), TERMINAL_CREEP as int, ONE as int),
            )
        },
        VehicleState::LeavePlatform(_, _, _, _, _, _) => if dir < 0 {
            fx_mul_spec(
                max,
                clamp_spec(
                    ONE + TERMINAL_CREEP - progress_spec(s, distance, dir),
                    0,
                    ONE as int,
                ),
            )
        } else {
            fx_mul_spec(
                max,
                clamp_spec(progress_spec(s, distance, dir), TERMINAL_CREEP as int, ONE as int),
            )
        },
    }
}

/// How one dwell-or-depart phase relates the vehicle before and after.
/// While dwelling the timer runs and the vehicle is pinned at its
/// platform; the tick that crosses the threshold departs: at a terminal
/// tagged with the travel direction it reverses in place, otherwise it
/// advances to the next segment's start-of-travel point at rest.  A
/// vehicle that entered the phase running keeps its place and takes the
/// speed its current segment dictates, beginning a new dwell when a
/// braking segment is fully covered.
pub open spec fn dwell_phase_rel(
    pre: Metro,
    post: Metro,
    path: Seq<Segment>,
    looped: bool,
    delta: int,
) -> bool {
    let seg = path[pre.segment as int];
    let dwell_on = pre.stopping && pre.waiting_time + delta <= pre.max_waiting_time;
    let departs = pre.stopping && pre.waiting_time + delta > pre.max_waiting_time;
    let reverses = departs && seg.state == VehicleState::LastPlatform(pre.direction);
    let advances = departs && seg.state != VehicleState::LastPlatform(pre.direction);
    let nseg = next_segment_spec(
        pre.segment as int,
        pre.direction as int,
        path.len() as int,
        looped,
    );
    let start_dist = if pre.direction == 1 {
        0int
    } else {
        seg_len_spec(path[nseg])
    };
    &&& post.id == pre.id
    &&& post.route == pre.route
    &&& post.max_speed == pre.max_speed
    &&& post.max_waiting_time == pre.max_waiting_time
    &&& post.position == pre.position
    &&& post.rotation == pre.rotation
    &&& post.next_rotation == pre.next_rotation
    &&& post.passengers == pre.passengers
    &&& (dwell_on ==> {
        &&& post.stopping
        &&& post.waiting_time == pre.waiting_time + delta
        &&& post.segment == pre.segment
        &&& post.direction == pre.direction
        &&& post.speed == pre.speed
        &&& post.distance == pinned_distance_spec(seg, pre.direction as int)
    })
    &&& (reverses ==> {
        &&& !post.stopping
        &&& post.waiting_time == pre.waiting_time + delta
        &&& post.segment == pre.segment
        &&& post.direction == -pre.direction
        &&& post.distance == pre.distance
        &&& post.speed == pre.speed
    })
    &&& (advances ==> {
        &&& !post.stopping
        &&& post.waiting_time == pre.waiting_time + delta
        &&& post.segment == nseg
        &&& post.direction == pre.direction
        &&& post.distance == start_dist
        &&& post.speed == 0
    })
    &&& (!pre.stopping ==> {
        &&& post.segment == pre.segment
        &&& post.direction == pre.direction
        &&& post.distance == pre.distance
        &&& post.speed == target_speed_spec(
            seg,
            pre.max_speed as int,
            pre.speed as int,
            pre.direction as int,
            pre.distance as int,
            delta,
        )
        &&& post.stopping == (braking_spec(seg.state, pre.direction as int) && progress_spec(
            seg,
            pre.distance as int,
            pre.direction as int,
        ) >= ONE)
        &&& post.waiting_time == if post.stopping {
            0int
        } else {
            pre.waiting_time as int
        }
    })
    &&& (post.direction != pre.direction ==> reverses)
}

/// Where a dwelling vehicle is pinned: the end of its current segment in
/// the direction of travel — the segment's full length travelling
/// forward, its start travelling backward.
pub open spec fn pinned_distance_spec(s: Segment, dir: int) -> int {
    if dir == 1 {
        seg_len_spec(s)
    } else {
        0
    }
}

/// How one movement phase relates the vehicle before and after: segment
/// ends are consumed (reversing only at a terminal tagged with the old
/// direction), the position and eased heading are the samples at the
/// settled distance, and the distance then advances by the tick's travel.
pub open spec fn move_phase_rel(pre: Metro, post: Metro, path: Seq<Segment>, delta: int) -> bool {
    let fseg = path[post.segment as int];
    let travel = fx_mul_spec(pre.speed as int, delta);
    &&& post.id == pre.id
    &&& post.route == pre.route
    &&& post.stopping == pre.stopping
    &&& post.speed == pre.speed
    &&& post.max_speed == pre.max_speed
    &&& post.waiting_time == pre.waiting_time
    &&& post.max_waiting_time == pre.max_waiting_time
    &&& post.passengers == pre.passengers
    &&& post.rotation == pre.rotation
    &&& (post.direction != pre.direction ==> fseg.state == VehicleState::LastPlatform(
        pre.direction,
    ))
    &&& exists|dp: int|
        0 <= dp <= seg_len_spec(fseg) && post.position.x == pos_x_spec(fseg, dp)
            && post.position.y == pos_y_spec(fseg, dp)
    &&& exists|d: int|
        {
            &&& -DIST_LIMIT <= d <= DIST_LIMIT
            &&& #[trigger] progress_spec(fseg, d, post.direction as int) < ONE
            &&& post.position.x == pos_x_spec(fseg, d)
            &&& post.position.y == pos_y_spec(fseg, d)
            &&& post.next_rotation == crate::utils::norm_spec(
                rot_spec(fseg, d) + (if post.direction == -1 {
                    PI as int
                } else {
                    0int
                }),
            )
            &&& post.distance == d + (if post.direction == 1 {
                travel
            } else {
                -travel
            })
        }
    &&& (progress_spec(path[pre.segment as int], pre.distance as int, pre.direction as int) < ONE
        ==> {
        &&& post.segment == pre.segment
        &&& post.direction == pre.direction
        &&& post.position.x == pos_x_spec(path[pre.segment as int], pre.distance as int)
        &&& post.position.y == pos_y_spec(path[pre.segment as int], pre.distance as int)
        &&& post.next_rotation == crate::utils::norm_spec(
            rot_spec(path[pre.segment as int], pre.distance as int) + (if pre.direction == -1 {
                PI as int
            } else {
                0int
            }),
        )
        &&& post.distance == pre.distance + (if pre.direction == 1 {
            travel
        } else {
            -travel
        })
    })
}

/// How one full tick relates the vehicle before and after: a dwell-or-
/// depart phase, then — only if the vehicle came out running — one
/// movement phase followed by easing the drawn heading toward the sampled
/// one at a fixed angular rate.
pub open spec fn tick_rel(
    pre: Metro,
    post: Metro,
    path: Seq<Segment>,
    looped: bool,
    delta: int,
) -> bool {
    exists|mid: Metro|
        {
            &&& #[trigger] dwell_phase_rel(pre, mid, path, looped, delta)
            &&& (mid.stopping ==> post == mid)
            &&& (!mid.stopping ==> exists|moved: Metro|
                {
                    &&& #[trigger] move_phase_rel(mid, moved, path, delta)
                    &&& post == (Metro { rotation: post.rotation, ..moved })
                    &&& post.rotation == lerp_angle_spec(
                        moved.rotation as int,
                        moved.next_rotation as int,
                        clamp_spec(25 * delta, 0, ONE as int),
                        false,
                    )
                })
        }
}

impl Metro {
    /// A metro at the start of the given route: dwelling on segment zero,
    /// facing forward, at rest, with the default top speed and a one
    /// second dwell threshold.
    pub fn new(route: usize) -> (m: Metro)
        ensures
            metro_wf(m),
            m.id == 0,
            m.route == route,
            m.segment == 0,
            m.distance == 0,
            m.stopping,
            m.speed == 0,
            m.max_speed == MAX_SPEED,
            m.direction == 1,
            m.position == (Vec2 { x: 0, y: 0 }),
            m.rotation == 0,
            m.next_rotation == 0,
            m.waiting_time == 0,
            m.max_waiting_time == ONE,
            m.passengers@.len() == 0,
    {
        Metro {
            id: 0,
            route,
            segment: 0,
            distance: 0,
            stopping: true,
            speed: 0,
            max_speed: MAX_SPEED,
            direction: 1,
            position: Vec2 { x: 0, y: 0 },
            rotation: 0,
            next_rotation: 0,
            passengers: Vec::new(),
            waiting_time: 0,
            max_waiting_time: ONE,
        }
    }

    /// The vehicle's id.
    pub fn id(&self) -> (r: usize)
        ensures
            r == self.id,
    {
        self.id
    }

    /// Renames the vehicle.
    pub fn set_id(&mut self, id: usize)
        ensures
            *final(self) == (Metro { id, ..*old(self) }),
    {
        self.id = id;
    }

    /// The current speed.
    pub fn speed(&self) -> (r: i64)
        ensures
            r == self.speed,
    {
        self.speed
    }

    /// The direction of travel: `1` forward along the segment order, `-1`
    /// backward.
    pub fn direction(&self) -> (r: i64)
        ensures
            r == self.direction,
    {
        self.direction
    }

    /// Flips the direction of travel.
    pub fn reverse_direction(&mut self)
        requires
            old(self).direction == 1 || old(self).direction == -1,
        ensures
            *final(self) == (Metro { direction: (-old(self).direction) as i64, ..*old(self) }),
    {
        self.direction = -self.direction;
    }

    /// The route the vehicle runs on.
    pub fn route(&self) -> (r: usize)
        ensures
            r == self.route,
    {
        self.route
    }

    /// The current segment index.
    pub fn segment(&self) -> (r: usize)
        ensures
            r == self.segment,
    {
        self.segment
    }

    /// Moves the vehicle to another segment index.
    pub fn set_segment(&mut self, segment: usize)
        ensures
            *final(self) == (Metro { segment, ..*old(self) }),
    {
        self.segment = segment;
    }

    /// The distance travelled into the current segment.
    pub fn distance(&self) -> (r: i64)
        ensures
            r == self.distance,
    {
        self.distance
    }

    /// Places the vehicle at a distance into the current segment.
    pub fn set_distance(&mut self, distance: i64)
        ensures
            *final(self) == (Metro { distance, ..*old(self) }),
    {
        self.distance = distance;
    }

    /// Places the vehicle at a position.
    pub fn set_position(&mut self, position: Vec2)
        ensures
            *final(self) == (Metro { position, ..*old(self) }),
    {
        self.position = position;
    }

    /// Sets the heading the drawn vehicle eases toward, folded into a
    /// full turn.
    pub fn set_rotation(&mut self, rotation: i64)
        ensures
            *final(self) == (Metro {
                next_rotation: crate::utils::norm_spec(rotation as int) as i64,
                ..*old(self)
            }),
            0 <= final(self).next_rotation < TAU,
    {
        self.next_rotation = crate::utils::normalize_angle(rotation);
    }

    /// The passengers aboard.
    pub fn passengers(&self) -> (r: &Vec<Passenger>)
        ensures
            r == &self.passengers,
    {
        &self.passengers
    }

    /// The top speed scaled by a factor forced into `[0, ONE]`; the result
    /// can never leave `[0, max_speed]`.
    fn scaled_speed(&self, factor_raw: i64, floor: i64) -> (s: i64)
        requires
            1 <= self.max_speed <= SPEED_LIMIT,
            -0x4000_0000_0000 <= factor_raw <= 0x4000_0000_0000,
            0 <= floor <= ONE,
        ensures
            s == fx_mul_spec(
                self.max_speed as int,
                clamp_spec(factor_raw as int, floor as int, ONE as int),
            ),
            0 <= s <= self.max_speed,
    {
        let f = clamp(factor_raw, floor, ONE);
        proof {
            assert((self.max_speed as int) * (f as int) == (f as int) * (self.max_speed as int))
                by (nonlinear_arith);
            assert(0 <= self.max_speed * f <= 0x10_0000i64 * 2048) by (nonlinear_arith)
                requires
                    0 <= self.max_speed <= 0x10_0000,
                    0 <= f <= 2048,
            ;
            crate::utils::fixed::lemma_fx_unit_scale(f as int, self.max_speed as int);
            vstd::arithmetic::div_mod::lemma_div_pos_is_pos(
                (self.max_speed as int) * (f as int),
                ONE as int,
            );
        }
        fx_mul(self.max_speed, f)
    }

    /// One dwell-or-depart step: while dwelling the timer runs and the
    /// vehicle stays pinned at its platform; when the timer crosses the
    /// threshold the vehicle departs, reversing at a matching terminal and
    /// otherwise advancing to the next segment at rest.  While running,
    /// the speed follows the current segment's kind, and reaching the end
    /// of a braking segment begins a new dwell.  Returns whether the
    /// vehicle is dwelling after the step.
    #[verifier::rlimit(100)]
    #[verifier::spinoff_prover]
    pub fn is_vehicle_stopping(&mut self, routes: &RouteHandler, delta: i64) -> (stopping: bool)
        requires
            metro_wf(*old(self)),
            on_valid_route(*old(self), *routes),
            0 <= delta <= DELTA_LIMIT,
        ensures
            metro_wf(*final(self)),
            on_valid_route(*final(self), *routes),
            stopping == final(self).stopping,
            final(self).id == old(self).id,
            final(self).route == old(self).route,
            final(self).max_speed == old(self).max_speed,
            final(self).max_waiting_time == old(self).max_waiting_time,
            final(self).position == old(self).position,
            final(self).rotation == old(self).rotation,
            final(self).next_rotation == old(self).next_rotation,
            final(self).passengers == old(self).passengers,
            dwell_phase_rel(
                *old(self),
                *final(self),
                path_of(*old(self), *routes),
                routes.routes@[old(self).route as int].is_looped,
                delta as int,
            ),
    {
        let route = routes.get(self.route);
        proof {
            assert(seg_wf(route.path_nodes@[self.segment as int]));
        }
        let entry_seg = *route.get(self.segment);
        if self.stopping {
            self.waiting_time = self.waiting_time + delta;
            if self.waiting_time > self.max_waiting_time {
                self.stopping = false;
                if !self.try_reverse_direction_at_end(routes) {
                    self.start_next_segment(routes);
                    proof {
                        assert(seg_wf(route.path_nodes@[self.segment as int]));
                    }
                    let ns = route.get(self.segment);
                    let nslen = ns.length();
                    self.distance = if self.direction > 0 {
                        0
                    } else {
                        nslen
                    };
                    self.speed = 0;
                }
            } else {
                proof {
                    assert(seg_wf(route.path_nodes@[self.segment as int]));
                }
                let l = route.get(self.segment).length();
                self.distance = if self.direction > 0 {
                    l
                } else {
                    0
                };
            }
        } else {
            self.running_speed_step(&entry_seg, delta);
        }
        self.stopping
    }

    /// Sets the running speed from the current segment's kind and checks
    /// whether a braking segment has been fully covered, in which case the
    /// vehicle begins to dwell.
    #[verifier::rlimit(100)]
    #[verifier::spinoff_prover]
    fn running_speed_step(&mut self, seg: &Segment, delta: i64)
        requires
            metro_wf(*old(self)),
            seg_wf(*seg),
            0 <= delta <= DELTA_LIMIT,
            !old(self).stopping,
        ensures
            metro_wf(*final(self)),
            final(self).segment == old(self).segment,
            final(self).route == old(self).route,
            final(self).id == old(self).id,
            final(self).route == old(self).route,
            final(self).segment == old(self).segment,
            final(self).direction == old(self).direction,
            final(self).distance == old(self).distance,
            final(self).max_speed == old(self).max_speed,
            final(self).max_waiting_time == old(self).max_waiting_time,
            final(self).position == old(self).position,
            final(self).rotation == old(self).rotation,
            final(self).next_rotation == old(self).next_rotation,
            final(self).passengers == old(self).passengers,
            final(self).speed == target_speed_spec(
                *seg,
                old(self).max_speed as int,
                old(self).speed as int,
                old(self).direction as int,
                old(self).distance as int,
                delta as int,
            ),
            final(self).stopping == (braking_spec(seg.state, old(self).direction as int)
                && progress_spec(*seg, old(self).distance as int, old(self).direction as int)
                >= ONE),
            final(self).waiting_time == if final(self).stopping {
                0int
            } else {
                old(self).waiting_time as int
            },
    {
        {
            proof {
                reveal(target_speed_spec);
                reveal(moving_speed_spec);
            }
            let seg = *seg;
            match seg.state() {
                VehicleState::Moving => {
                    let gap = self.max_speed - self.speed;
                    let a = fx_mul(gap, ACCELERATION_RATE);
                    proof {
                        assert((gap as int) * (ACCELERATION_RATE as int) == (
                        ACCELERATION_RATE as int) * (gap as int)) by (nonlinear_arith);
                        crate::utils::fixed::lemma_fx_unit_scale(
                            ACCELERATION_RATE as int,
                            gap as int,
                        );
                        vstd::arithmetic::div_mod::lemma_div_pos_is_pos(
                            (gap as int) * (ACCELERATION_RATE as int),
                            ONE as int,
                        );
                        assert((gap as int) * (ACCELERATION_RATE as int) >= 0)
                            by (nonlinear_arith)
                            requires
                                0 <= gap,
                                ACCELERATION_RATE == 512i64,
                        ;
                    }
                    proof {
                        assert(0 <= (a as int) * (delta as int) <= 0x10_0000i64 * 0x2_0000i64)
                            by (nonlinear_arith)
                            requires
                                0 <= a <= 0x10_0000,
                                0 <= delta <= 0x2_0000,
                        ;
                        vstd::arithmetic::div_mod::lemma_div_pos_is_pos(
                            (a as int) * (delta as int),
                            ONE as int,
                        );
                    }
                    let incr = fx_mul(a, delta);
                    let cand = self.speed + incr;
                    self.speed = if cand > self.max_speed {
                        self.max_speed
                    } else {
                        cand
                    };
                },
                VehicleState::LastPlatform(tag) => {
                    if self.direction == tag {
                        let dte = seg.distance_to_end(self.distance, self.direction);
                        self.speed = self.scaled_speed(
                            TERMINAL_CREEP + div_floor(dte, SLOW_DIVISOR),
                            0,
                        );
                        if seg.end(self.distance, self.direction) {
                            self.stopping = true;
                            self.waiting_time = 0;
                        }
                    } else {
                        let dts = seg.distance_to_start(self.distance, self.direction);
                        self.speed = self.scaled_speed(
                            div_floor(dts, SLOW_DIVISOR),
                            TERMINAL_CREEP,
                        );
                    }
                },
                VehicleState::ArrivePlatform(_, _, _, _, _, _) => {
                    let p = seg.progress(self.distance, self.direction);
                    if self.direction > 0 {
                        self.speed = self.scaled_speed(ONE + TERMINAL_CREEP - p, 0);
                        if seg.end(self.distance, self.direction) {
                            self.stopping = true;
                            self.waiting_time = 0;
                        }
                    } else {
                        self.speed = self.scaled_speed(p, TERMINAL_CREEP);
                    }
                },
                VehicleState::LeavePlatform(_, _, _, _, _, _) => {
                    let p = seg.progress(self.distance, self.direction);
                    if self.direction < 0 {
                        self.speed = self.scaled_speed(ONE + TERMINAL_CREEP - p, 0);
                        if seg.end(self.distance, self.direction) {
                            self.stopping = true;
                            self.waiting_time = 0;
                        }
                    } else {
                        self.speed = self.scaled_speed(p, TERMINAL_CREEP);
                    }
                },
            }
        }
    }

    /// Reverses the direction of travel exactly when the current segment
    /// is a terminal whose tagged end matches it; otherwise changes
    /// nothing.
    pub fn try_reverse_direction_at_end(&mut self, routes: &RouteHandler) -> (reversed: bool)
        requires
            metro_wf(*old(self)),
            on_valid_route(*old(self), *routes),
        ensures
            metro_wf(*final(self)),
            on_valid_route(*final(self), *routes),
            reversed == (path_of(*old(self), *routes)[old(self).segment as int].state
                == VehicleState::LastPlatform(old(self).direction)),
            reversed ==> *final(self) == (Metro {
                direction: (-old(self).direction) as i64,
                ..*old(self)
            }),
            !reversed ==> *final(self) == *old(self),
    {
        let route = routes.get(self.route);
        let seg = route.get(self.segment);
        match seg.state() {
            VehicleState::LastPlatform(direction) => {
                if direction == self.direction {
                    self.reverse_direction();
                    return true;
                }
                false
            },
            _ => false,
        }
    }

    /// Advances to the next segment in the direction of travel, wrapping
    /// only on a looped route, and shifts the distance so it measures from
    /// the new segment's start.
    #[verifier::rlimit(100)]
    #[verifier::spinoff_prover]
    pub fn start_next_segment(&mut self, routes: &RouteHandler)
        requires
            metro_wf(*old(self)),
            on_valid_route(*old(self), *routes),
            old(self).direction == 1 && !routes.routes@[old(self).route as int].is_looped
                ==> old(self).segment < path_of(*old(self), *routes).len() - 1,
            old(self).direction == -1 && !routes.routes@[old(self).route as int].is_looped
                ==> old(self).segment > 0,
        ensures
            on_valid_route(*final(self), *routes),
            ({
                let path = path_of(*old(self), *routes);
                let looped = routes.routes@[old(self).route as int].is_looped;
                let nseg = next_segment_spec(
                    old(self).segment as int,
                    old(self).direction as int,
                    path.len() as int,
                    looped,
                );
                &&& final(self).segment == nseg
                &&& (old(self).direction == 1 ==> final(self).distance == old(self).distance
                    - seg_len_spec(path[old(self).segment as int]))
                &&& (old(self).direction == -1 ==> final(self).distance == old(self).distance
                    + seg_len_spec(path[nseg]))
            }),
            final(self).id == old(self).id,
            final(self).route == old(self).route,
            final(self).stopping == old(self).stopping,
            final(self).speed == old(self).speed,
            final(self).max_speed == old(self).max_speed,
            final(self).waiting_time == old(self).waiting_time,
            final(self).max_waiting_time == old(self).max_waiting_time,
            final(self).direction == old(self).direction,
            final(self).position == old(self).position,
            final(self).rotation == old(self).rotation,
            final(self).next_rotation == old(self).next_rotation,
            final(self).passengers == old(self).passengers,
            -DIST_LIMIT - LEN_LIMIT <= final(self).distance <= DIST_LIMIT + LEN_LIMIT,
    {
        let route = routes.get(self.route);
        let looped = route.is_looped();
        let len = route.length();
        if self.direction < 0 {
            if looped && self.segment == 0 {
                self.segment = len - 1;
            } else {
                self.segment = self.segment - 1;
            }
            proof {
                assert(seg_wf(route.path_nodes@[self.segment as int]));
            }
            let l = route.get(self.segment).length();
            self.distance = self.distance + l;
        } else {
            proof {
                assert(seg_wf(route.path_nodes@[self.segment as int]));
            }
            let l = route.get(self.segment).length();
            self.distance = self.distance - l;
            if looped && self.segment == len - 1 {
                self.segment = 0;
            } else {
                self.segment = self.segment + 1;
            }
        }
    }

    /// Samples the vehicle's position, consumes as many segment ends as the
    /// accumulated distance covers (reversing at a matching terminal),
    /// eases the drawn heading toward the sampled one, and advances the
    /// distance by the tick's travel.  The loop terminates for any tick
    /// length because each pass consumes one whole segment.
    #[verifier::rlimit(100)]
    #[verifier::spinoff_prover]
    pub fn move_vehicle(&mut self, routes: &RouteHandler, delta: i64)
        requires
            metro_wf(*old(self)),
            on_valid_route(*old(self), *routes),
            0 <= delta <= DELTA_LIMIT,
        ensures
            metro_wf(*final(self)),
            on_valid_route(*final(self), *routes),
            move_phase_rel(*old(self), *final(self), path_of(*old(self), *routes), delta as int),
    {
        let route = routes.get(self.route);
        let ghost path = path_of(*old(self), *routes);
        let ghost dir0 = old(self).direction;
        let ghost s0 = old(self).segment;
        let ghost d0 = old(self).distance;
        let ghost entry_end = progress_spec(path[s0 as int], d0 as int, dir0 as int) >= ONE;
        proof {
            assert(seg_wf(path[self.segment as int]));
        }
        let mut pos = route.calculate_position(self.segment, self.distance);
        loop
            invariant_except_break
                metro_wf(Metro { position: pos, ..*self }),
                on_valid_route(*self, *routes),
                route == &routes.routes@[self.route as int],
                path == path_of(*self, *routes),
                self.direction == dir0,
                dir0 == 1 || dir0 == -1,
                entry_end == (progress_spec(path[s0 as int], d0 as int, dir0 as int) >= ONE),
                s0 < path.len(),
                self.id == old(self).id,
                self.route == old(self).route,
                self.stopping == old(self).stopping,
                self.speed == old(self).speed,
                self.max_speed == old(self).max_speed,
                self.waiting_time == old(self).waiting_time,
                self.max_waiting_time == old(self).max_waiting_time,
                self.passengers == old(self).passengers,
                self.rotation == old(self).rotation,
                self.next_rotation == old(self).next_rotation,
                pos.x == pos_x_spec(path[self.segment as int], self.distance as int),
                pos.y == pos_y_spec(path[self.segment as int], self.distance as int),
                !entry_end ==> self.segment == s0 && self.distance == d0,
            ensures
                metro_wf(Metro { position: pos, ..*self }),
                on_valid_route(*self, *routes),
                route == &routes.routes@[self.route as int],
                path == path_of(*self, *routes),
                self.id == old(self).id,
                self.route == old(self).route,
                self.stopping == old(self).stopping,
                self.speed == old(self).speed,
                self.max_speed == old(self).max_speed,
                self.waiting_time == old(self).waiting_time,
                self.max_waiting_time == old(self).max_waiting_time,
                self.passengers == old(self).passengers,
                self.rotation == old(self).rotation,
                self.next_rotation == old(self).next_rotation,
                pos.x == pos_x_spec(path[self.segment as int], self.distance as int),
                pos.y == pos_y_spec(path[self.segment as int], self.distance as int),
                progress_spec(path[self.segment as int], self.distance as int, self.direction as int) < ONE,
                self.direction == dir0 || (self.direction == -dir0 && path[self.segment as int].state == VehicleState::LastPlatform(dir0 as i64)),
                !entry_end ==> self.segment == s0 && self.distance == d0 && self.direction == dir0,
            decreases (if self.direction > 0 {
                self.distance as int
            } else {
                (DIST_LIMIT + LEN_LIMIT) as int - self.distance
            }),
        {
            proof {
                assert(seg_wf(path[self.segment as int]));
            }
            let at_end = route.get(self.segment).end(self.distance, self.direction);
            if !at_end {
                break;
            }
            proof {
                if self.direction == 1 {
                    lemma_end_forward(path[self.segment as int], self.distance as int);
                } else {
                    lemma_end_backward(path[self.segment as int], self.distance as int);
                }
                if !entry_end {
                    assert(false);
                }
            }
            if self.try_reverse_direction_at_end(routes) {
                proof {
                    assert(seg_wf(path[self.segment as int]));
                    if self.direction == 1 {
                        lemma_end_forward(path[self.segment as int], self.distance as int);
                    } else {
                        lemma_end_backward(path[self.segment as int], self.distance as int);
                    }
                }
                pos = route.calculate_position(self.segment, self.distance);
                break;
            }
            self.start_next_segment(routes);
            proof {
                assert(seg_wf(path[self.segment as int]));
            }
            pos = route.calculate_position(self.segment, self.distance);
        }
        self.position = pos;
        proof {
            assert(seg_wf(path[self.segment as int]));
        }
        let rot = route.calculate_rotation(self.segment, self.distance);
        let heading = if self.direction == -1 {
            rot + PI
        } else {
            rot
        };
        self.set_rotation(heading);
        proof {
            assert(0 <= (self.speed as int) * (delta as int) <= 0x10_0000i64 * 0x2_0000i64)
                by (nonlinear_arith)
                requires
                    0 <= self.speed <= 0x10_0000,
                    0 <= delta <= 0x2_0000,
            ;
            vstd::arithmetic::div_mod::lemma_div_pos_is_pos(
                (self.speed as int) * (delta as int),
                ONE as int,
            );
            crate::utils::fixed::lemma_div_floor_bounds(
                (self.speed as int) * (delta as int),
                ONE as int,
            );
            if self.direction == 1 {
                lemma_end_forward(path[self.segment as int], self.distance as int);
            } else {
                lemma_end_backward(path[self.segment as int], self.distance as int);
            }
        }
        let ghost d_exit = self.distance as int;
        let travel = fx_mul(self.speed, delta);
        self.distance = if self.direction > 0 {
            self.distance + travel
        } else {
            self.distance - travel
        };
        proof {
            let fseg = path[self.segment as int];
            lemma_position_clamped(fseg, d_exit);
            let dp = clamp_spec(d_exit, 0, seg_len_spec(fseg));
            assert(0 <= dp <= seg_len_spec(fseg));
            assert(self.position.x == pos_x_spec(fseg, dp) && self.position.y == pos_y_spec(
                fseg,
                dp,
            ));
            assert(progress_spec(fseg, d_exit, self.direction as int) < ONE);
            assert(self.position.x == pos_x_spec(fseg, d_exit) && self.position.y == pos_y_spec(
                fseg,
                d_exit,
            ));
            assert(self.next_rotation == crate::utils::norm_spec(
                rot_spec(fseg, d_exit) + (if self.direction == -1 {
                    PI as int
                } else {
                    0int
                }),
            ));
        }
    }

    /// Clamps the vehicle back onto its route after a rebuild: a stale
    /// segment index is pulled to the last segment, and the distance is
    /// forced inside the segment, so no vehicle is ever left dangling.
    pub fn revalidate(&mut self, routes: &RouteHandler)
        requires
            metro_wf(*old(self)),
            (old(self).route as int) < routes.routes@.len(),
            crate::route::path_traversable(routes.routes@[old(self).route as int]),
        ensures
            metro_wf(*final(self)),
            on_valid_route(*final(self), *routes),
            final(self).id == old(self).id,
            final(self).route == old(self).route,
            final(self).direction == old(self).direction,
            final(self).speed == old(self).speed,
            final(self).stopping == old(self).stopping,
            final(self).passengers == old(self).passengers,
            ({
                let path = path_of(*final(self), *routes);
                let nseg = if (old(self).segment as int) < path.len() {
                    old(self).segment as int
                } else {
                    path.len() - 1
                };
                &&& final(self).segment == nseg
                &&& final(self).distance == clamp_spec(
                    old(self).distance as int,
                    0,
                    seg_len_spec(path[nseg]),
                )
            }),
    {
        let route = routes.get(self.route);
        let len = route.length();
        if self.segment >= len {
            self.segment = len - 1;
        }
        proof {
            assert(seg_wf(route.path_nodes@[self.segment as int]));
        }
        let l = route.get(self.segment).length();
        self.distance = clamp(self.distance, 0, l);
    }

    /// One full tick: dwell or depart, then move if running, then ease the
    /// drawn heading toward the sampled one.  Speed stays within
    /// `[0, max_speed]` on every tick, and the direction of travel changes
    /// only at a terminal segment tagged with the pre-reversal direction.
    #[verifier::rlimit(100)]
    #[verifier::spinoff_prover]
    pub fn update(&mut self, routes: &RouteHandler, delta: i64)
        requires
            metro_wf(*old(self)),
            on_valid_route(*old(self), *routes),
            0 <= delta <= DELTA_LIMIT,
        ensures
            metro_wf(*final(self)),
            on_valid_route(*final(self), *routes),
            final(self).id == old(self).id,
            final(self).route == old(self).route,
            final(self).max_speed == old(self).max_speed,
            final(self).max_waiting_time == old(self).max_waiting_time,
            final(self).passengers == old(self).passengers,
            0 <= final(self).speed <= final(self).max_speed,
            ({
                let path = path_of(*old(self), *routes);
                &&& (routes.routes@[old(self).route as int].is_looped ==> final(self).direction
                    == old(self).direction)
                &&& (final(self).direction != old(self).direction ==> (old(self).stopping
                    && path[old(self).segment as int].state == VehicleState::LastPlatform(
                    old(self).direction,
                )) || path[final(self).segment as int].state == VehicleState::LastPlatform(
                    old(self).direction,
                ))
                &&& (old(self).stopping && old(self).waiting_time + delta <= old(
                    self,
                ).max_waiting_time ==> {
                    &&& final(self).stopping
                    &&& final(self).waiting_time == old(self).waiting_time + delta
                    &&& final(self).segment == old(self).segment
                    &&& final(self).direction == old(self).direction
                    &&& final(self).position == old(self).position
                    &&& final(self).distance == pinned_distance_spec(
                        path[old(self).segment as int],
                        old(self).direction as int,
                    )
                })
                &&& tick_rel(
                    *old(self),
                    *final(self),
                    path,
                    routes.routes@[old(self).route as int].is_looped,
                    delta as int,
                )
            }),
    {
        let ghost path = path_of(*old(self), *routes);
        let ghost looped = routes.routes@[old(self).route as int].is_looped;
        let stopping = self.is_vehicle_stopping(routes, delta);
        let ghost mid = *self;
        if stopping {
            proof {
                assert(dwell_phase_rel(*old(self), mid, path, looped, delta as int));
            }
            return;
        }
        self.move_vehicle(routes, delta);
        let ghost moved = *self;
        proof {
            assert(25 * delta <= 0x32_0000);
        }
        let t = clamp(25 * delta, 0, ONE);
        let r = crate::utils::lerp_angle(self.rotation, self.next_rotation, t, false);
        proof {
            assert(vstd::math::abs(t as int) <= 2048);
        }
        self.rotation = r;
        proof {
            assert(dwell_phase_rel(*old(self), mid, path, looped, delta as int));
            assert(move_phase_rel(mid, moved, path, delta as int));
            assert(*self == (Metro { rotation: self.rotation, ..moved }));
        }
    }
}

} // verus!
