//! Scenario checks of route geometry synthesis.

use rusty_metro::route::handler::RouteHandler;
use rusty_metro::route::segment::VehicleState;
use rusty_metro::route::stop::{Stop, StopSide};
use rusty_metro::route::GeometryError;
use rusty_metro::station::handler::StationHandler;
use rusty_metro::station::types::StationShape;
use rusty_metro::utils::fixed::ONE;
use rusty_metro::utils::vec2::Vec2;

fn unit(worth: i64) -> i64 {
    worth * ONE
}

fn two_stop_world() -> (StationHandler, RouteHandler) {
    let mut stations = StationHandler::new();
    stations.add_station(StationShape::Circle, Vec2::new(0, 0));
    stations.add_station(StationShape::Circle, Vec2::new(unit(100), 0));
    let mut routes = RouteHandler::new();
    routes.add_route(
        vec![Stop::new(0, StopSide::Right), Stop::new(1, StopSide::Right)],
        false,
    );
    (stations, routes)
}

#[test]
fn two_stop_route_is_a_terminal_line_pair() {
    let (stations, mut routes) = two_stop_world();
    routes.update(&stations).expect("synthesis should succeed");
    let route = routes.get(0);
    // One consecutive pair, two straight runs, no arcs; both runs carry
    // the terminal tags of an open route.
    assert_eq!(route.length(), 2);
    assert!(matches!(route.get(0).state(), VehicleState::LastPlatform(d) if d == -1));
    assert!(matches!(route.get(1).state(), VehicleState::LastPlatform(d) if d == 1));
    // The track detours via the turning point and the platform offsets,
    // so it is near the hundred-unit station gap without matching it.
    let total = route.get(0).length() + route.get(1).length();
    assert!(total > unit(80) && total < unit(150), "one-way length {total}");
}

#[test]
fn two_stop_route_is_continuous() {
    let (stations, mut routes) = two_stop_world();
    routes.update(&stations).expect("synthesis should succeed");
    let route = routes.get(0);
    for i in 0..route.length() - 1 {
        assert_eq!(route.get(i).end_pos(), route.get(i + 1).begin_pos());
    }
}

#[test]
fn looped_three_stop_route_closes_on_itself() {
    let mut stations = StationHandler::new();
    stations.add_station(StationShape::Circle, Vec2::new(0, 0));
    stations.add_station(StationShape::Square, Vec2::new(unit(100), 0));
    stations.add_station(StationShape::Diamond, Vec2::new(unit(50), unit(80)));
    let mut routes = RouteHandler::new();
    routes.add_route(
        vec![
            Stop::new(0, StopSide::Right),
            Stop::new(1, StopSide::Right),
            Stop::new(2, StopSide::Right),
        ],
        true,
    );
    routes.update(&stations).expect("synthesis should succeed");
    let route = routes.get(0);
    // Three pairs of straight runs and three platform arc pairs.
    assert!(route.length() >= 9 && route.length() <= 12, "segments {}", route.length());
    assert_eq!(route.length(), 12);
    // No terminal tag anywhere on a loop.
    for i in 0..route.length() {
        assert!(!matches!(route.get(i).state(), VehicleState::LastPlatform(_)));
    }
    // Chained throughout, and the last segment meets the first.
    for i in 0..route.length() - 1 {
        assert_eq!(route.get(i).end_pos(), route.get(i + 1).begin_pos());
    }
    let last = route.length() - 1;
    assert_eq!(route.get(last).end_pos(), route.get(0).begin_pos());
}

#[test]
fn arc_samples_meet_stored_endpoints() {
    let mut stations = StationHandler::new();
    stations.add_station(StationShape::Circle, Vec2::new(0, 0));
    stations.add_station(StationShape::Circle, Vec2::new(unit(100), 0));
    stations.add_station(StationShape::Circle, Vec2::new(unit(200), unit(60)));
    let mut routes = RouteHandler::new();
    routes.add_route(
        vec![
            Stop::new(0, StopSide::Right),
            Stop::new(1, StopSide::Left),
            Stop::new(2, StopSide::Right),
        ],
        false,
    );
    routes.update(&stations).expect("synthesis should succeed");
    let route = routes.get(0);
    for i in 0..route.length() {
        let seg = route.get(i);
        let len = seg.length();
        assert!(len >= 1);
        assert_eq!(seg.calculate_position(0), seg.begin_pos());
        assert_eq!(seg.calculate_position(len), seg.end_pos());
    }
}

#[test]
fn coincident_adjacent_stops_are_rejected() {
    let mut stations = StationHandler::new();
    stations.add_station(StationShape::Circle, Vec2::new(unit(10), unit(10)));
    stations.add_station(StationShape::Circle, Vec2::new(unit(10), unit(10)));
    let mut routes = RouteHandler::new();
    routes.add_route(
        vec![Stop::new(0, StopSide::Right), Stop::new(1, StopSide::Right)],
        false,
    );
    let r = routes.update(&stations);
    assert_eq!(r, Err(GeometryError::CoincidentStations));
}

#[test]
fn occupancy_pushes_later_routes_outward() {
    // Two routes through the same middle station: the second is rebuilt
    // with a higher occupancy there, so its platform arcs use a larger
    // radius than the first route's.
    let mut stations = StationHandler::new();
    stations.add_station(StationShape::Circle, Vec2::new(0, 0));
    stations.add_station(StationShape::Circle, Vec2::new(unit(100), 0));
    stations.add_station(StationShape::Circle, Vec2::new(unit(200), 0));
    stations.add_station(StationShape::Circle, Vec2::new(unit(100), unit(100)));
    let mut routes = RouteHandler::new();
    routes.add_route(
        vec![
            Stop::new(0, StopSide::Right),
            Stop::new(1, StopSide::Right),
            Stop::new(2, StopSide::Right),
        ],
        false,
    );
    routes.add_route(
        vec![
            Stop::new(3, StopSide::Right),
            Stop::new(1, StopSide::Left),
            Stop::new(0, StopSide::Left),
        ],
        false,
    );
    routes.update(&stations).expect("synthesis should succeed");
    let radius_of = |route: &rusty_metro::route::Route| -> i64 {
        for i in 0..route.length() {
            if let VehicleState::ArrivePlatform(_, radius, _, _, _, _) = route.get(i).state() {
                return radius;
            }
        }
        panic!("route has no arc");
    };
    let first = radius_of(routes.get(0));
    let second = radius_of(routes.get(1));
    assert!(second > first, "second route radius {second} vs {first}");
}

#[test]
fn arc_length_equals_radius_times_span() {
    let mut stations = StationHandler::new();
    stations.add_station(StationShape::Circle, Vec2::new(0, 0));
    stations.add_station(StationShape::Circle, Vec2::new(unit(100), 0));
    stations.add_station(StationShape::Circle, Vec2::new(unit(200), unit(60)));
    let mut routes = RouteHandler::new();
    routes.add_route(
        vec![
            Stop::new(0, StopSide::Right),
            Stop::new(1, StopSide::Left),
            Stop::new(2, StopSide::Right),
        ],
        false,
    );
    routes.update(&stations).expect("synthesis should succeed");
    let route = routes.get(0);
    let mut arcs = 0;
    for i in 0..route.length() {
        let seg = route.get(i);
        match seg.state() {
            VehicleState::ArrivePlatform(_, radius, entrance, center, _, _) => {
                arcs += 1;
                let span = rusty_metro::utils::angle_between(center, entrance);
                assert_eq!(seg.length(), radius * span / ONE);
            }
            VehicleState::LeavePlatform(_, radius, _, center, exit, _) => {
                arcs += 1;
                let span = rusty_metro::utils::angle_between(exit, center);
                assert_eq!(seg.length(), radius * span / ONE);
            }
            _ => {}
        }
    }
    assert_eq!(arcs, 2);
}

#[test]
fn line_samples_advance_monotonically() {
    let (stations, mut routes) = two_stop_world();
    routes.update(&stations).expect("synthesis should succeed");
    let route = routes.get(0);
    for i in 0..route.length() {
        let seg = route.get(i);
        let len = seg.length();
        let rising = seg.end_pos().x >= seg.begin_pos().x;
        let mut prev = seg.calculate_position(0).x;
        for step in 1..=8i64 {
            let here = seg.calculate_position(len * step / 8).x;
            if rising {
                assert!(here >= prev, "sample fell back on segment {i}");
            } else {
                assert!(here <= prev, "sample fell back on segment {i}");
            }
            prev = here;
        }
    }
}

#[test]
fn arc_samples_stay_on_their_circle() {
    let mut stations = StationHandler::new();
    stations.add_station(StationShape::Circle, Vec2::new(0, 0));
    stations.add_station(StationShape::Circle, Vec2::new(unit(100), 0));
    stations.add_station(StationShape::Circle, Vec2::new(unit(200), unit(60)));
    let mut routes = RouteHandler::new();
    routes.add_route(
        vec![
            Stop::new(0, StopSide::Right),
            Stop::new(1, StopSide::Left),
            Stop::new(2, StopSide::Right),
        ],
        false,
    );
    routes.update(&stations).expect("synthesis should succeed");
    let route = routes.get(0);
    for i in 0..route.length() {
        let seg = route.get(i);
        if let VehicleState::ArrivePlatform(center, radius, _, _, _, _)
        | VehicleState::LeavePlatform(center, radius, _, _, _, _) = seg.state()
        {
            let len = seg.length();
            for step in 0..=8i64 {
                let here = seg.calculate_position(len * step / 8);
                let off = Vec2::new(here.x - center.x, here.y - center.y);
                let r = off.length();
                // Within a couple of steps of the circle: the only error
                // is the fixed-point rounding of the direction vector.
                assert!((r - radius).abs() <= radius / 256 + 2, "off circle: {r} vs {radius}");
            }
        }
    }
}
