//! A stop: a station reference plus the side the platform sits on.

use vstd::prelude::*;

verus! {

/// Which side of the travel direction the platform offset points to when a
/// route leaves a station; fixed for the lifetime of the route.
#[derive(Copy, Clone, PartialEq, Eq, Structural, Debug)]
pub enum StopSide {
    Left,
    Right,
}

/// A station index together with the side its platform takes on this route.
#[derive(Clone, Copy, PartialEq, Eq, Structural, Debug)]
pub struct Stop {
    pub index: usize,
    pub side: StopSide,
}

/// The other platform side.
pub open spec fn opposite_side_spec(side: StopSide) -> StopSide {
    match side {
        StopSide::Left => StopSide::Right,
        StopSide::Right => StopSide::Left,
    }
}

/// The sign a stop's side contributes to perpendicular offsets.
pub open spec fn side_factor_spec(side: StopSide) -> int {
    match side {
        StopSide::Left => -1,
        StopSide::Right => 1,
    }
}

impl Stop {
    /// A stop at the station with the given index, on the given side.
    pub fn new(index: usize, side: StopSide) -> (s: Stop)
        ensures
            s.index == index,
            s.side == side,
    {
        Stop { index, side }
    }

    /// The index of the station this stop visits.
    pub fn index(&self) -> (i: usize)
        ensures
            i == self.index,
    {
        self.index
    }

    /// The side the platform sits on.
    pub fn side(&self) -> (s: StopSide)
        ensures
            s == self.side,
    {
        self.side
    }

    /// The side as a sign: `-1` for left, `1` for right.
    pub fn side_factor(&self) -> (f: i64)
        ensures
            f == side_factor_spec(self.side),
            f == -1 || f == 1,
    {
        match self.side {
            StopSide::Left => -1,
            StopSide::Right => 1,
        }
    }
}

} // verus!
