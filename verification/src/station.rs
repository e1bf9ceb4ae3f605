//! Stations: fixed points in the world that routes stop at.
//!
//! A station's effective radius grows with the number of routes using it;
//! that computation lives with the route synthesis.  Here live the station
//! itself and the passengers waiting on it.

pub mod handler;
pub mod types;

use vstd::prelude::*;

verus! {

use crate::passenger::{Passenger, PassengerState};
use crate::station::types::StationShape;
use crate::utils::vec2::{Vec2, bounded};

/// Station base sizes stay within this many fixed-point steps, so effective
/// radii stay in range.
pub const SIZE_LIMIT: i64 = 0x8000;

/// Station positions stay within this many fixed-point steps per axis, so
/// every point route synthesis derives from them stays on the map.
pub const STATION_POS_LIMIT: i64 = 0x40_0000;

/// A station: a glyph shape at a fixed position, with a base size and the
/// passengers currently waiting on it.
pub struct Station {
    pub id: usize,
    pub kind: StationShape,
    pub size: i64,
    pub position: Vec2,
    pub passengers: Vec<Passenger>,
    pub capacity: usize,
}

/// A station the rest of the simulation can rely on: positive size within
/// range, position on the map.
pub open spec fn station_wf(s: Station) -> bool {
    &&& 1 <= s.size <= SIZE_LIMIT
    &&& bounded(s.position, STATION_POS_LIMIT as int)
}

/// The passengers of a sequence that are waiting on the station, in order.
pub open spec fn waiting_spec(ps: Seq<Passenger>) -> Seq<Passenger>
    decreases ps.len(),
{
    if ps.len() == 0 {
        Seq::empty()
    } else {
        let rest = waiting_spec(ps.drop_last());
        if ps.last().state is OnStation {
            rest.push(ps.last())
        } else {
            rest
        }
    }
}

/// What one passenger becomes when a vehicle with space arrives: a waiting
/// passenger starts leaving toward the vehicle, anyone else is unchanged.
pub open spec fn boarded_spec(p: Passenger, vehicle_id: int, vehicle_position: Vec2) -> Passenger {
    if p.state is OnStation {
        Passenger {
            kind: p.kind,
            state: PassengerState::LeavingStation(vehicle_id as usize, vehicle_position),
        }
    } else {
        p
    }
}

impl Station {
    /// A station from its description.  The size must be positive.
    pub fn new(id: usize, kind: StationShape, size: i64, position: Vec2, capacity: usize) -> (s:
        Station)
        requires
            1 <= size <= SIZE_LIMIT,
            bounded(position, STATION_POS_LIMIT as int),
        ensures
            station_wf(s),
            s.id == id,
            s.kind == kind,
            s.size == size,
            s.position == position,
            s.capacity == capacity,
            s.passengers@.len() == 0,
    {
        Station { id, kind, size, position, passengers: Vec::new(), capacity }
    }

    /// The station's unique id.
    pub fn id(&self) -> (r: usize)
        ensures
            r == self.id,
    {
        self.id
    }

    /// The station's glyph shape.
    pub fn kind(&self) -> (r: StationShape)
        ensures
            r == self.kind,
    {
        self.kind
    }

    /// The station's position.
    pub fn position(&self) -> (r: Vec2)
        ensures
            r == self.position,
    {
        self.position
    }

    /// The station's drawn size: fifteen times its base size.
    pub fn size(&self) -> (r: i64)
        requires
            station_wf(*self),
        ensures
            r == 15 * self.size,
    {
        15 * self.size
    }

    /// Adds a passenger waiting for the given destination shape.
    pub fn spawn_passenger(&mut self, kind: StationShape)
        ensures
            final(self).passengers@ == old(self).passengers@.push(
                Passenger { kind, state: PassengerState::OnStation },
            ),
            final(self).id == old(self).id,
            final(self).kind == old(self).kind,
            final(self).size == old(self).size,
            final(self).position == old(self).position,
            final(self).capacity == old(self).capacity,
    {
        self.passengers.push(Passenger::new(kind));
    }

    /// Boards waiting passengers onto a vehicle standing at the platform.
    /// With no space or no passengers nothing happens; otherwise every
    /// waiting passenger starts leaving toward the vehicle, and the
    /// passengers that moved are returned in order.
    pub fn try_take_vehicle(
        &mut self,
        vehicle_id: usize,
        vehicle_position: Vec2,
        available_spaces: usize,
    ) -> (moved: Vec<Passenger>)
        ensures
            final(self).id == old(self).id,
            final(self).kind == old(self).kind,
            final(self).size == old(self).size,
            final(self).position == old(self).position,
            final(self).capacity == old(self).capacity,
            available_spaces == 0 || old(self).passengers@.len() == 0 ==> {
                &&& moved@.len() == 0
                &&& final(self).passengers@ == old(self).passengers@
            },
            available_spaces > 0 && old(self).passengers@.len() > 0 ==> {
                &&& moved@ == waiting_spec(old(self).passengers@)
                &&& final(self).passengers@.len() == old(self).passengers@.len()
                &&& forall|i: int|
                    0 <= i < old(self).passengers@.len() ==> final(self).passengers@[i]
                        == boarded_spec(
                        old(self).passengers@[i],
                        vehicle_id as int,
                        vehicle_position,
                    )
            },
    {
        if available_spaces == 0 || self.passengers.len() == 0 {
            return Vec::new();
        }
        let mut moved: Vec<Passenger> = Vec::new();
        let ghost orig = self.passengers@;
        let mut i: usize = 0;
        while i < self.passengers.len()
            invariant
                i <= self.passengers@.len(),
                self.passengers@.len() == orig.len(),
                self.id == old(self).id,
                self.kind == old(self).kind,
                self.size == old(self).size,
                self.position == old(self).position,
                self.capacity == old(self).capacity,
                moved@ == waiting_spec(orig.take(i as int)),
                forall|j: int|
                    0 <= j < i ==> self.passengers@[j] == boarded_spec(
                        orig[j],
                        vehicle_id as int,
                        vehicle_position,
                    ),
                forall|j: int| i <= j < orig.len() ==> self.passengers@[j] == orig[j],
            decreases self.passengers@.len() - i,
        {
            proof {
                assert(orig.take(i + 1).drop_last() == orig.take(i as int));
                assert(orig.take(i + 1).last() == orig[i as int]);
            }
            let p = self.passengers[i];
            if p.state() == PassengerState::OnStation {
                moved.push(p);
                let boarded = Passenger {
                    kind: p.kind,
                    state: PassengerState::LeavingStation(vehicle_id, vehicle_position),
                };
                self.passengers.set(i, boarded);
            }
            i = i + 1;
        }
        proof {
            assert(orig.take(orig.len() as int) == orig);
        }
        moved
    }
}

} // verus!
