//! The collection of all routes in the world.
//!
//! Each tick the handler rebuilds whatever routes are out of date, feeding
//! every rebuild the per-station occupancy counts accumulated from the
//! routes updated before it, so shared stations push later tracks outward.

use vstd::prelude::*;

verus! {

use crate::route::{
    COUNT_LIMIT,
    GeometryError,
    Route,
    built_path_ok,
    path_anchored,
    synthesis_rejects,
    uses_below,
};
use crate::route::stop::Stop;
use crate::station::handler::{StationHandler, stations_wf};
use crate::utils::colors::{Colors, Rgb};

/// The total number of interior stops of the first `k` routes: what the
/// occupancy counts can grow to beyond their base of one.
pub open spec fn interior_total(routes: Seq<Route>, k: int) -> int
    decreases k,
{
    if k <= 0 {
        0
    } else {
        interior_total(routes, k - 1) + routes[k - 1].stops@.len() - 2
    }
}

/// The occupancy count of station `j` that the route at position `k` is
/// rebuilt against: one, plus the interior stops of every route before it.
pub open spec fn counts_before(routes: Seq<Route>, k: int, j: int) -> int
    decreases k,
{
    if k <= 0 {
        1
    } else {
        counts_before(routes, k - 1, j) + uses_below(
            routes[k - 1].stops@,
            j,
            routes[k - 1].stops@.len() - 1,
        )
    }
}

/// Those counts as one vector over the whole station directory.
pub open spec fn counts_before_seq(routes: Seq<Route>, k: int, n: int) -> Seq<u32> {
    Seq::new(n as nat, |j: int| counts_before(routes, k, j) as u32)
}

/// The interior total only grows as more routes are counted.
proof fn lemma_interior_total_mono(routes: Seq<Route>, a: int, b: int)
    requires
        0 <= a <= b,
        forall|k: int| 0 <= k < b ==> (#[trigger] routes[k]).stops@.len() >= 2,
    ensures
        interior_total(routes, a) <= interior_total(routes, b),
    decreases b,
{
    if a < b {
        lemma_interior_total_mono(routes, a, b - 1);
    }
}

/// A route's interior stops bump each station at most once per stop.
proof fn lemma_uses_below_bound(stops: Seq<Stop>, j: int, k: int)
    requires
        1 <= k,
    ensures
        0 <= uses_below(stops, j, k) <= k - 1,
    decreases k,
{
    if k > 1 {
        lemma_uses_below_bound(stops, j, k - 1);
    }
}

/// Owns every route, in id order, and the palette new routes take their
/// colours from.
pub struct RouteHandler {
    pub routes: Vec<Route>,
    pub palette: Vec<Rgb>,
}

/// The topology constraints every route in the handler obeys, against a
/// given station directory.
pub open spec fn routes_topology_ok(routes: Seq<Route>, n_stations: int) -> bool {
    forall|k: int|
        0 <= k < routes.len() ==> {
            let r = #[trigger] routes[k];
            &&& 2 <= r.stops@.len() < 0x10000
            &&& forall|i: int| 0 <= i < r.stops@.len() ==> (#[trigger] r.stops@[i]).index < n_stations
        }
}

impl RouteHandler {
    /// An empty collection with the default palette.
    pub fn new() -> (h: RouteHandler)
        ensures
            h.routes@.len() == 0,
            h.palette@.len() == 7,
    {
        RouteHandler { routes: Vec::new(), palette: Colors::default_palette() }
    }

    /// The route with the given index.
    pub fn get(&self, index: usize) -> (r: &Route)
        requires
            index < self.routes@.len(),
        ensures
            r == &self.routes@[index as int],
    {
        &self.routes[index]
    }

    /// Adds a route over the given stops, taking the next palette colour;
    /// its id is its index.
    pub fn add_route(&mut self, stops: Vec<Stop>, is_looped: bool)
        requires
            stops@.len() >= 2,
            old(self).routes@.len() < old(self).palette@.len(),
        ensures
            final(self).palette == old(self).palette,
            final(self).routes@.len() == old(self).routes@.len() + 1,
            forall|k: int|
                0 <= k < old(self).routes@.len() ==> final(self).routes@[k] == old(
                    self,
                ).routes@[k],
            ({
                let r = final(self).routes@.last();
                &&& r.id == old(self).routes@.len()
                &&& r.stops == stops
                &&& r.color == old(self).palette@[old(self).routes@.len() as int]
                &&& r.is_looped == is_looped
                &&& r.dirty
            }),
    {
        let id = self.routes.len();
        let color = self.palette[id];
        let route = Route::new(id, stops, color, is_looped);
        self.routes.push(route);
    }

    /// Rebuilds every out-of-date route against the current station
    /// directory.  Occupancy starts at one per station and accumulates the
    /// interior stops of each route as it is processed, in route order.
    #[verifier::rlimit(100)]
    #[verifier::spinoff_prover]
    pub fn update(&mut self, stations: &StationHandler) -> (r: Result<(), GeometryError>)
        requires
            stations_wf(*stations),
            routes_topology_ok(old(self).routes@, stations.stations@.len() as int),
            1 + interior_total(old(self).routes@, old(self).routes@.len() as int) <= COUNT_LIMIT,
            forall|k: int|
                0 <= k < old(self).routes@.len() ==> (!(#[trigger] old(self).routes@[k]).dirty
                    ==> built_path_ok(old(self).routes@[k])),
        ensures
            final(self).palette == old(self).palette,
            final(self).routes@.len() == old(self).routes@.len(),
            forall|k: int|
                0 <= k < final(self).routes@.len() ==> {
                    let post = #[trigger] final(self).routes@[k];
                    let pre = old(self).routes@[k];
                    &&& post.id == pre.id
                    &&& post.stops == pre.stops
                    &&& post.color == pre.color
                    &&& post.is_looped == pre.is_looped
                },
            r is Ok ==> forall|k: int|
                0 <= k < final(self).routes@.len() ==> !(#[trigger] final(self).routes@[k]).dirty
                    && built_path_ok(final(self).routes@[k]),
            r is Ok ==> forall|k: int|
                0 <= k < final(self).routes@.len() && old(self).routes@[k].dirty
                    ==> path_anchored(
                    (#[trigger] final(self).routes@[k]).path_nodes@,
                    final(self).routes@[k].stops@,
                    final(self).routes@[k].is_looped,
                    *stations,
                    counts_before_seq(old(self).routes@, k, stations.stations@.len() as int),
                ),
            r is Ok ==> forall|k: int|
                0 <= k < final(self).routes@.len() && !old(self).routes@[k].dirty
                    ==> (#[trigger] final(self).routes@[k]).path_nodes == old(
                    self,
                ).routes@[k].path_nodes,
            (r is Err) == exists|k: int|
                0 <= k < old(self).routes@.len() && (#[trigger] old(self).routes@[k]).dirty
                    && synthesis_rejects(
                    *stations,
                    counts_before_seq(old(self).routes@, k, stations.stations@.len() as int),
                    old(self).routes@[k].stops@,
                    old(self).routes@[k].is_looped,
                ),
    {
        let n_stations = stations.stations().len();
        let mut routes_on_station: Vec<u32> = Vec::new();
        while routes_on_station.len() < n_stations
            invariant
                routes_on_station@.len() <= n_stations,
                forall|j: int|
                    0 <= j < routes_on_station@.len() ==> #[trigger] routes_on_station@[j] == 1,
            decreases n_stations - routes_on_station@.len(),
        {
            routes_on_station.push(1);
        }
        let route_count = self.routes.len();
        let mut k: usize = 0;
        while k < route_count
            invariant
                stations_wf(*stations),
                n_stations == stations.stations@.len(),
                route_count == self.routes@.len(),
                self.routes@.len() == old(self).routes@.len(),
                self.palette == old(self).palette,
                routes_topology_ok(old(self).routes@, n_stations as int),
                1 + interior_total(old(self).routes@, route_count as int) <= COUNT_LIMIT,
                k <= route_count,
                routes_on_station@.len() == n_stations,
                forall|r: int|
                    0 <= r < route_count ==> {
                        let post = #[trigger] self.routes@[r];
                        let pre = old(self).routes@[r];
                        &&& post.id == pre.id
                        &&& post.stops == pre.stops
                        &&& post.color == pre.color
                        &&& post.is_looped == pre.is_looped
                    },
                forall|r: int|
                    k <= r < route_count ==> #[trigger] self.routes@[r] == old(self).routes@[r],
                forall|r: int|
                    0 <= r < route_count ==> (!(#[trigger] old(self).routes@[r]).dirty
                        ==> built_path_ok(old(self).routes@[r])),
                forall|r: int|
                    0 <= r < k ==> !(#[trigger] self.routes@[r]).dirty && built_path_ok(
                        self.routes@[r],
                    ),
                forall|j: int|
                    0 <= j < routes_on_station@.len() ==> 1 <= #[trigger] routes_on_station@[j]
                        <= 1 + interior_total(old(self).routes@, k as int),
                forall|j: int|
                    0 <= j < routes_on_station@.len() ==> #[trigger] routes_on_station@[j]
                        == counts_before(old(self).routes@, k as int, j),
                forall|i: int|
                    0 <= i < k && old(self).routes@[i].dirty ==> path_anchored(
                        (#[trigger] self.routes@[i]).path_nodes@,
                        self.routes@[i].stops@,
                        self.routes@[i].is_looped,
                        *stations,
                        counts_before_seq(old(self).routes@, i, n_stations as int),
                    ),
                forall|i: int|
                    0 <= i < k && !old(self).routes@[i].dirty ==> (#[trigger] self.routes@[i])
                        .path_nodes == old(self).routes@[i].path_nodes,
                forall|i: int|
                    0 <= i < k ==> !((#[trigger] old(self).routes@[i]).dirty && synthesis_rejects(
                        *stations,
                        counts_before_seq(old(self).routes@, i, n_stations as int),
                        old(self).routes@[i].stops@,
                        old(self).routes@[i].is_looped,
                    )),
            decreases route_count - k,
        {
            proof {
                lemma_interior_total_mono(old(self).routes@, k as int, route_count as int);
            }
            let ghost before = self.routes@;
            let mut route = self.routes.remove(k);
            proof {
                assert(route == before[k as int]);
                assert(before[k as int] == old(self).routes@[k as int]);
                assert(routes_on_station@ =~= counts_before_seq(
                    old(self).routes@,
                    k as int,
                    n_stations as int,
                ));
            }
            let ghost counts_at_call = routes_on_station@;
            let res = route.update(stations, &mut routes_on_station);
            self.routes.insert(k, route);
            proof {
                assert forall|r: int| 0 <= r < route_count implies #[trigger] self.routes@[r]
                    == (if r == k {
                    route
                } else {
                    before[r]
                }) by {
                    if r < k {
                        assert(self.routes@[r] == before.remove(k as int).insert(
                            k as int,
                            route,
                        )[r]);
                    }
                }
            }
            match res {
                Ok(u) => u,
                Err(e) => {
                    proof {
                        assert(old(self).routes@[k as int].dirty && synthesis_rejects(
                            *stations,
                            counts_before_seq(
                                old(self).routes@,
                                k as int,
                                stations.stations@.len() as int,
                            ),
                            old(self).routes@[k as int].stops@,
                            old(self).routes@[k as int].is_looped,
                        ));
                    }
                    return Err(e);
                },
            }
            proof {
                let stops_k = old(self).routes@[k as int].stops@;
                lemma_uses_below_bound(stops_k, 0, stops_k.len() - 1);
                assert forall|j: int| 0 <= j < routes_on_station@.len() implies 1
                    <= #[trigger] routes_on_station@[j] <= 1 + interior_total(
                    old(self).routes@,
                    k + 1,
                ) by {
                    lemma_uses_below_bound(stops_k, j, stops_k.len() - 1);
                }
            }
            k = k + 1;
        }
        Ok(())
    }
}

} // verus!
