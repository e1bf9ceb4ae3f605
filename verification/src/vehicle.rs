//! Vehicles: the traversal state machine that moves a metro along its
//! route's segments, easing into stops, dwelling, and reversing at the
//! termini of open routes.

pub mod handler;
pub mod metro;

use vstd::prelude::*;

verus! {

/// The default top speed of a metro, in fixed-point steps per second.
pub const MAX_SPEED: i64 = 409600;

/// No vehicle's top speed exceeds this, keeping travel per tick in range.
pub const SPEED_LIMIT: i64 = 0x10_0000;

/// The longest single tick the state machine accepts, in fixed-point
/// seconds; far beyond any real frame time.
pub const DELTA_LIMIT: i64 = 0x2_0000;

/// How strongly a straight run eases toward top speed: a quarter of the
/// speed gap per second, in fixed-point.
pub const ACCELERATION_RATE: i64 = 512;

/// The floor of the terminal approach speed factor: five percent, in
/// fixed-point.
pub const TERMINAL_CREEP: i64 = 102;

/// Over how many world units speed scales in and out of termini.
pub const SLOW_DIVISOR: i64 = 50;

/// How quickly the drawn heading eases toward the true heading, per
/// second.
pub const HEADING_EASE_RATE: i64 = 25;

/// No dwell threshold exceeds this many fixed-point seconds.
pub const WAIT_LIMIT: i64 = 0x10_0000;

} // verus!
