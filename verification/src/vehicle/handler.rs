//! The fleet of vehicles in the world.

use vstd::prelude::*;

verus! {

use crate::route::handler::RouteHandler;
use crate::vehicle::DELTA_LIMIT;
use crate::vehicle::metro::{Metro, metro_wf, on_valid_route, tick_rel};

/// The indices of the metros in a fleet that run on the given route, in
/// id order.
pub open spec fn on_route_spec(metros: Seq<Metro>, route: int) -> Seq<usize>
    decreases metros.len(),
{
    if metros.len() == 0 {
        Seq::empty()
    } else {
        let rest = on_route_spec(metros.drop_last(), route);
        if metros.last().route == route {
            rest.push((metros.len() - 1) as usize)
        } else {
            rest
        }
    }
}

/// Owns every vehicle, in id order, up to a fixed fleet size.
pub struct VehicleHandler {
    pub metros: Vec<Metro>,
    pub max_count: u32,
}

impl VehicleHandler {
    /// An empty fleet with the given size limit.
    pub fn new(max_count: u32) -> (h: VehicleHandler)
        ensures
            h.metros@.len() == 0,
            h.max_count == max_count,
    {
        VehicleHandler { metros: Vec::new(), max_count }
    }

    /// All vehicles, in id order.
    pub fn vehicles(&self) -> (r: &Vec<Metro>)
        ensures
            r == &self.metros,
    {
        &self.metros
    }

    /// The vehicle with the given index.
    pub fn get(&self, index: usize) -> (r: &Metro)
        requires
            index < self.metros@.len(),
        ensures
            r == &self.metros@[index as int],
    {
        &self.metros[index]
    }

    /// The indices of the vehicles running on the given route.
    pub fn metros_on_route(&self, route: usize) -> (r: Vec<usize>)
        ensures
            r@ == on_route_spec(self.metros@, route as int),
    {
        let mut r: Vec<usize> = Vec::new();
        let mut i: usize = 0;
        while i < self.metros.len()
            invariant
                i <= self.metros@.len(),
                r@ == on_route_spec(self.metros@.take(i as int), route as int),
            decreases self.metros@.len() - i,
        {
            proof {
                assert(self.metros@.take(i + 1).drop_last() == self.metros@.take(i as int));
                assert(self.metros@.take(i + 1).last() == self.metros@[i as int]);
            }
            if self.metros[i].route() == route {
                r.push(i);
            }
            i = i + 1;
        }
        proof {
            assert(self.metros@.take(self.metros@.len() as int) == self.metros@);
        }
        r
    }

    /// Adds a vehicle to the fleet unless the fleet is full; its id is its
    /// index.
    pub fn add_vehicle(&mut self, vehicle: Metro)
        ensures
            final(self).max_count == old(self).max_count,
            old(self).metros@.len() == old(self).max_count ==> final(self).metros@ == old(
                self,
            ).metros@,
            old(self).metros@.len() != old(self).max_count ==> {
                &&& final(self).metros@.len() == old(self).metros@.len() + 1
                &&& forall|i: int|
                    0 <= i < old(self).metros@.len() ==> final(self).metros@[i] == old(
                        self,
                    ).metros@[i]
                &&& final(self).metros@.last() == (Metro {
                    id: old(self).metros@.len() as usize,
                    ..vehicle
                })
            },
    {
        if self.max_count as usize == self.metros.len() {
            return;
        }
        let mut vehicle = vehicle;
        let id = self.metros.len();
        vehicle.set_id(id);
        self.metros.push(vehicle);
    }

    /// Advances every vehicle by one tick.
    pub fn update(&mut self, delta: i64, routes: &RouteHandler)
        requires
            0 <= delta <= DELTA_LIMIT,
            forall|k: int|
                0 <= k < old(self).metros@.len() ==> metro_wf(#[trigger] old(self).metros@[k])
                    && on_valid_route(old(self).metros@[k], *routes),
        ensures
            final(self).max_count == old(self).max_count,
            final(self).metros@.len() == old(self).metros@.len(),
            forall|k: int|
                0 <= k < final(self).metros@.len() ==> metro_wf(#[trigger] final(self).metros@[k])
                    && on_valid_route(final(self).metros@[k], *routes),
            forall|k: int|
                0 <= k < final(self).metros@.len() ==> (#[trigger] final(self).metros@[k]).route
                    == old(self).metros@[k].route,
            forall|k: int|
                0 <= k < final(self).metros@.len() ==> {
                    let pre = old(self).metros@[k];
                    tick_rel(
                        pre,
                        #[trigger] final(self).metros@[k],
                        routes.routes@[pre.route as int].path_nodes@,
                        routes.routes@[pre.route as int].is_looped,
                        delta as int,
                    )
                },
    {
        let count = self.metros.len();
        let mut k: usize = 0;
        while k < count
            invariant
                count == self.metros@.len(),
                self.metros@.len() == old(self).metros@.len(),
                self.max_count == old(self).max_count,
                k <= count,
                0 <= delta <= DELTA_LIMIT,
                forall|i: int|
                    k <= i < count ==> #[trigger] self.metros@[i] == old(self).metros@[i],
                forall|i: int|
                    0 <= i < count ==> metro_wf(#[trigger] old(self).metros@[i]) && on_valid_route(
                        old(self).metros@[i],
                        *routes,
                    ),
                forall|i: int|
                    0 <= i < k ==> metro_wf(#[trigger] self.metros@[i]) && on_valid_route(
                        self.metros@[i],
                        *routes,
                    ) && self.metros@[i].route == old(self).metros@[i].route,
                forall|i: int|
                    0 <= i < k ==> {
                        let pre = old(self).metros@[i];
                        tick_rel(
                            pre,
                            #[trigger] self.metros@[i],
                            routes.routes@[pre.route as int].path_nodes@,
                            routes.routes@[pre.route as int].is_looped,
                            delta as int,
                        )
                    },
            decreases count - k,
        {
            let ghost before = self.metros@;
            let mut vehicle = self.metros.remove(k);
            proof {
                assert(vehicle == before[k as int]);
                assert(before[k as int] == old(self).metros@[k as int]);
            }
            vehicle.update(routes, delta);
            self.metros.insert(k, vehicle);
            proof {
                assert forall|i: int| 0 <= i < count implies #[trigger] self.metros@[i] == (if i
                    == k {
                    vehicle
                } else {
                    before[i]
                }) by {
                    if i < k {
                        assert(self.metros@[i] == before.remove(k as int).insert(
                            k as int,
                            vehicle,
                        )[i]);
                    }
                }
            }
            k = k + 1;
        }
    }
}

} // verus!
