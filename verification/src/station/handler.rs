//! The directory of all stations in the world.

use vstd::prelude::*;

verus! {

use crate::station::{SIZE_LIMIT, STATION_POS_LIMIT, Station, station_wf};
use crate::station::types::StationShape;
use crate::utils::fixed::ONE;
use crate::utils::vec2::{Vec2, bounded};

/// Owns every station, in id order, together with the set of glyph shapes
/// in use.
pub struct StationHandler {
    pub available_shapes: Vec<StationShape>,
    pub stations: Vec<Station>,
}

/// Every station is well formed and sits at the index its id names.
pub open spec fn stations_wf(h: StationHandler) -> bool {
    forall|i: int|
        0 <= i < h.stations@.len() ==> station_wf(#[trigger] h.stations@[i]) && h.stations@[i].id
            == i
}

impl StationHandler {
    /// An empty directory.
    pub fn new() -> (h: StationHandler)
        ensures
            stations_wf(h),
            h.stations@.len() == 0,
            h.available_shapes@.len() == 0,
    {
        StationHandler { available_shapes: Vec::new(), stations: Vec::new() }
    }

    /// Adds a station of the given shape at the given position, with the
    /// default base size and capacity; its id is its index.  The shape is
    /// recorded if it is new.
    pub fn add_station(&mut self, kind: StationShape, position: Vec2)
        requires
            stations_wf(*old(self)),
            bounded(position, STATION_POS_LIMIT as int),
        ensures
            stations_wf(*final(self)),
            final(self).stations@.len() == old(self).stations@.len() + 1,
            forall|i: int|
                0 <= i < old(self).stations@.len() ==> final(self).stations@[i] == old(
                    self,
                ).stations@[i],
            ({
                let s = final(self).stations@.last();
                &&& s.id == old(self).stations@.len()
                &&& s.kind == kind
                &&& s.size == ONE
                &&& s.position == position
                &&& s.capacity == 10
                &&& s.passengers@.len() == 0
            }),
    {
        proof {
            assert(1 <= ONE <= SIZE_LIMIT);
        }
        let id = self.stations.len();
        let station = Station::new(id, kind, ONE, position, 10);
        self.stations.push(station);
        if !self.has_shape(kind) {
            self.available_shapes.push(kind);
        }
    }

    /// Whether the given shape is already recorded.
    fn has_shape(&self, kind: StationShape) -> (r: bool)
        ensures
            r == self.available_shapes@.contains(kind),
    {
        let mut i: usize = 0;
        while i < self.available_shapes.len()
            invariant
                i <= self.available_shapes@.len(),
                forall|j: int| 0 <= j < i ==> self.available_shapes@[j] != kind,
            decreases self.available_shapes@.len() - i,
        {
            if self.available_shapes[i] == kind {
                return true;
            }
            i = i + 1;
        }
        false
    }

    /// All stations, in id order.
    pub fn stations(&self) -> (r: &Vec<Station>)
        ensures
            r == &self.stations,
    {
        &self.stations
    }

    /// The station with the given index.
    pub fn get(&self, index: usize) -> (r: &Station)
        requires
            index < self.stations@.len(),
        ensures
            r == &self.stations@[index as int],
    {
        &self.stations[index]
    }
}

} // verus!
