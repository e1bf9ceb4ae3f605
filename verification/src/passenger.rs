//! Passengers: where each one stands and which station shape it wants.

use vstd::prelude::*;

verus! {

use crate::station::types::StationShape;
use crate::utils::vec2::Vec2;

/// Where a passenger currently is; the leaving states carry the id of the
/// vehicle involved and the position it was seen at.
#[derive(Debug, Clone, Copy, PartialEq, Eq, Structural)]
pub enum PassengerState {
    OnStation,
    OnVehicle,
    LeavingStation(usize, Vec2),
    LeavingVehicle(usize, Vec2),
}

/// A passenger: the shape of the station it wants to reach, and where it is.
#[derive(Debug, Clone, Copy, PartialEq, Eq, Structural)]
pub struct Passenger {
    pub kind: StationShape,
    pub state: PassengerState,
}

impl Passenger {
    /// A passenger waiting on a station for the given destination shape.
    pub fn new(kind: StationShape) -> (p: Passenger)
        ensures
            p.kind == kind,
            p.state == PassengerState::OnStation,
    {
        Passenger { kind, state: PassengerState::OnStation }
    }

    /// The destination shape.
    pub fn kind(&self) -> (k: StationShape)
        ensures
            k == self.kind,
    {
        self.kind
    }

    /// Where the passenger currently is.
    pub fn state(&self) -> (s: PassengerState)
        ensures
            s == self.state,
    {
        self.state
    }

    /// Moves the passenger to a new state.
    pub fn set_state(&mut self, state: PassengerState)
        ensures
            final(self).kind == old(self).kind,
            final(self).state == state,
    {
        self.state = state;
    }
}

} // verus!
