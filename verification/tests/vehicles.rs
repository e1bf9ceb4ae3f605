//! Scenario checks of the vehicle traversal state machine.

use rusty_metro::route::handler::RouteHandler;
use rusty_metro::route::segment::VehicleState;
use rusty_metro::route::stop::{Stop, StopSide};
use rusty_metro::station::handler::StationHandler;
use rusty_metro::station::types::StationShape;
use rusty_metro::station::Station;
use rusty_metro::passenger::PassengerState;
use rusty_metro::utils::fixed::ONE;
use rusty_metro::utils::vec2::Vec2;
use rusty_metro::vehicle::handler::VehicleHandler;
use rusty_metro::vehicle::metro::Metro;

fn unit(worth: i64) -> i64 {
    worth * ONE
}

/// A sixtieth of a second, the normal frame time, in fixed-point seconds.
const FRAME: i64 = 34;

fn open_world() -> (StationHandler, RouteHandler) {
    let mut stations = StationHandler::new();
    stations.add_station(StationShape::Circle, Vec2::new(0, 0));
    stations.add_station(StationShape::Circle, Vec2::new(unit(100), 0));
    stations.add_station(StationShape::Circle, Vec2::new(unit(200), unit(60)));
    let mut routes = RouteHandler::new();
    routes.add_route(
        vec![
            Stop::new(0, StopSide::Right),
            Stop::new(1, StopSide::Left),
            Stop::new(2, StopSide::Right),
        ],
        false,
    );
    routes.update(&stations).expect("synthesis should succeed");
    (stations, routes)
}

#[test]
fn dwelling_vehicle_stays_pinned_until_threshold() {
    let (_stations, routes) = open_world();
    let mut metro = Metro::new(0);
    assert!(metro.stopping);
    // Three ticks summing to less than the one second threshold: still
    // dwelling, pinned to the same spot.
    metro.update(&routes, 614);
    assert!(metro.stopping);
    // Pinned exactly at the travel-direction end of the current segment.
    let pinned = metro.distance;
    assert_eq!(pinned, routes.get(0).get(0).length());
    metro.update(&routes, 614);
    assert!(metro.stopping);
    assert_eq!(metro.distance, pinned);
    metro.update(&routes, 614);
    assert!(metro.stopping);
    assert_eq!(metro.distance, pinned);
    assert_eq!(metro.segment, 0);
    // The tick that crosses one second departs: the vehicle advances to
    // the next segment's start-of-travel point, at rest.
    metro.update(&routes, 614);
    assert!(!metro.stopping);
    assert_eq!(metro.segment, 1);
    assert_eq!(metro.distance, 0);
    assert_eq!(metro.speed, 0);
}

#[test]
fn speed_stays_within_bounds_every_tick() {
    let (_stations, routes) = open_world();
    let mut metro = Metro::new(0);
    let deltas = [FRAME, 614, 3 * FRAME, 100 * FRAME, FRAME, 2048, 7];
    for round in 0..300 {
        let delta = deltas[round % deltas.len()];
        metro.update(&routes, delta);
        assert!(metro.speed >= 0, "negative speed on round {round}");
        assert!(metro.speed <= metro.max_speed, "speed above top on round {round}");
    }
}

#[test]
fn reversal_happens_only_at_matching_terminal() {
    let (_stations, routes) = open_world();
    let route = routes.get(0);
    let mut metro = Metro::new(0);
    let mut reversals = 0;
    let mut prev_direction = metro.direction;
    let mut prev_segment = metro.segment;
    for _ in 0..40000 {
        metro.update(&routes, FRAME);
        if metro.direction != prev_direction {
            reversals += 1;
            // The reversal happened on a terminal segment tagged with the
            // old direction: either the platform the vehicle was dwelling
            // at, or the terminal it ran into.
            let at_dwell = matches!(
                route.get(prev_segment).state(),
                VehicleState::LastPlatform(t) if t == prev_direction
            );
            let at_run = matches!(
                route.get(metro.segment).state(),
                VehicleState::LastPlatform(t) if t == prev_direction
            );
            assert!(at_dwell || at_run);
        }
        prev_direction = metro.direction;
        prev_segment = metro.segment;
    }
    assert!(reversals >= 2, "vehicle never ran the line back and forth");
}

#[test]
fn looped_route_never_reverses() {
    let mut stations = StationHandler::new();
    stations.add_station(StationShape::Circle, Vec2::new(0, 0));
    stations.add_station(StationShape::Square, Vec2::new(unit(100), 0));
    stations.add_station(StationShape::Diamond, Vec2::new(unit(50), unit(80)));
    let mut routes = RouteHandler::new();
    routes.add_route(
        vec![
            Stop::new(0, StopSide::Right),
            Stop::new(1, StopSide::Right),
            Stop::new(2, StopSide::Right),
        ],
        true,
    );
    routes.update(&stations).expect("synthesis should succeed");
    let mut metro = Metro::new(0);
    for _ in 0..20000 {
        metro.update(&routes, FRAME);
        assert_eq!(metro.direction, 1);
        assert!(metro.segment < routes.get(0).length());
    }
}

#[test]
fn large_delta_stays_on_route() {
    let (_stations, routes) = open_world();
    let route = routes.get(0);
    let mut metro = Metro::new(0);
    // One hundred times the normal frame time, repeatedly: the integrator
    // consumes several segments per tick and never leaves the route.
    for _ in 0..500 {
        metro.update(&routes, 100 * FRAME);
        assert!(metro.segment < route.length());
        let seg = route.get(metro.segment);
        let here = seg.calculate_position(metro.distance);
        // The sampled position lies on the current segment, which the
        // clamped sampling guarantees; the vehicle's drawn position was
        // itself such a sample.
        let lo_x = seg.begin_pos().x.min(seg.end_pos().x) - unit(30);
        let hi_x = seg.begin_pos().x.max(seg.end_pos().x) + unit(30);
        assert!(here.x >= lo_x && here.x <= hi_x);
        assert!(metro.speed >= 0 && metro.speed <= metro.max_speed);
    }
}

#[test]
fn revalidate_clamps_stale_vehicle_state() {
    let (_stations, routes) = open_world();
    let mut metro = Metro::new(0);
    metro.segment = 999;
    metro.distance = -unit(500);
    metro.revalidate(&routes);
    assert_eq!(metro.segment, routes.get(0).length() - 1);
    assert_eq!(metro.distance, 0);
    metro.distance = unit(500);
    metro.revalidate(&routes);
    assert_eq!(metro.distance, routes.get(0).get(metro.segment).length());
}

#[test]
fn fleet_respects_its_size_limit() {
    let mut fleet = VehicleHandler::new(2);
    fleet.add_vehicle(Metro::new(0));
    fleet.add_vehicle(Metro::new(1));
    fleet.add_vehicle(Metro::new(0));
    assert_eq!(fleet.vehicles().len(), 2);
    assert_eq!(fleet.get(0).id, 0);
    assert_eq!(fleet.get(1).id, 1);
    assert_eq!(fleet.get(1).route, 1);
}

#[test]
fn metros_on_route_lists_matching_indices() {
    let mut fleet = VehicleHandler::new(7);
    fleet.add_vehicle(Metro::new(0));
    fleet.add_vehicle(Metro::new(1));
    fleet.add_vehicle(Metro::new(0));
    assert_eq!(fleet.metros_on_route(0), vec![0, 2]);
    assert_eq!(fleet.metros_on_route(1), vec![1]);
    assert_eq!(fleet.metros_on_route(9), Vec::<usize>::new());
}

#[test]
fn fleet_update_moves_every_vehicle() {
    let (_stations, routes) = open_world();
    let mut fleet = VehicleHandler::new(7);
    fleet.add_vehicle(Metro::new(0));
    fleet.add_vehicle(Metro::new(0));
    for _ in 0..120 {
        fleet.update(FRAME, &routes);
    }
    for k in 0..fleet.vehicles().len() {
        let m = fleet.get(k);
        assert!(m.speed >= 0 && m.speed <= m.max_speed);
        assert!(m.segment < routes.get(0).length());
    }
}

#[test]
fn boarding_moves_waiting_passengers() {
    let mut station = Station::new(0, StationShape::Circle, ONE, Vec2::new(0, 0), 10);
    station.spawn_passenger(StationShape::Square);
    station.spawn_passenger(StationShape::Diamond);
    let vehicle_pos = Vec2::new(unit(5), 0);
    let moved = station.try_take_vehicle(3, vehicle_pos, 4);
    assert_eq!(moved.len(), 2);
    assert_eq!(moved[0].kind, StationShape::Square);
    assert_eq!(moved[1].kind, StationShape::Diamond);
    for p in station.passengers.iter() {
        assert_eq!(p.state, PassengerState::LeavingStation(3, vehicle_pos));
    }
}

#[test]
fn boarding_needs_space_and_passengers() {
    let mut station = Station::new(0, StationShape::Circle, ONE, Vec2::new(0, 0), 10);
    let moved = station.try_take_vehicle(3, Vec2::new(0, 0), 4);
    assert!(moved.is_empty());
    station.spawn_passenger(StationShape::Square);
    let moved = station.try_take_vehicle(3, Vec2::new(0, 0), 0);
    assert!(moved.is_empty());
    assert_eq!(station.passengers[0].state, PassengerState::OnStation);
}

#[test]
fn straight_run_easing_is_exact() {
    let (_stations, routes) = open_world();
    let mut metro = Metro::new(0);
    // Place the vehicle at rest at the start of the first plain straight
    // run and tick it once: a quarter of the speed gap per second, scaled
    // by the tick, all in exact fixed-point steps.
    metro.stopping = false;
    metro.segment = 1;
    metro.distance = 0;
    metro.speed = 0;
    metro.update(&routes, 614);
    assert_eq!(metro.speed, 30700);
    assert_eq!(metro.distance, 9204);
    assert_eq!(metro.segment, 1);
}
