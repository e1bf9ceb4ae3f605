//! Checks of the supporting types: stops, grid, colours, passengers.

use rusty_metro::passenger::{Passenger, PassengerState};
use rusty_metro::route::stop::{Stop, StopSide};
use rusty_metro::station::handler::StationHandler;
use rusty_metro::station::types::{StationShape, StationType};
use rusty_metro::utils::colors::{Colors, Rgb};
use rusty_metro::utils::fixed::ONE;
use rusty_metro::utils::grid::{Grid, Vec2i};
use rusty_metro::utils::vec2::Vec2;

#[test]
fn stop_carries_station_and_side() {
    let s = Stop::new(4, StopSide::Left);
    assert_eq!(s.index(), 4);
    assert_eq!(s.side(), StopSide::Left);
    assert_eq!(s.side_factor(), -1);
    assert_eq!(Stop::new(0, StopSide::Right).side_factor(), 1);
}

#[test]
fn vec2i_accessors() {
    let v = Vec2i::new(-3, 8);
    assert_eq!(v.x(), -3);
    assert_eq!(v.y(), 8);
}

#[test]
fn grid_fill_and_can_fill() {
    let mut g = Grid::new(3, 2);
    assert!(g.can_fill(0, 0));
    assert!(g.can_fill(2, 1));
    assert!(!g.can_fill(3, 0));
    assert!(!g.can_fill(0, 2));
    g.fill(1, 1, StationShape::Triangle, StationType::Normal);
    assert!(!g.can_fill(1, 1));
    assert!(g.can_fill(1, 0));
}

#[test]
fn default_palette_holds_seven_colours() {
    let palette = Colors::default_palette();
    assert_eq!(palette.len(), 7);
    assert_eq!(palette[0], Rgb { r: 235, g: 64, b: 52 });
    assert_eq!(palette[6], Rgb { r: 184, g: 12, b: 232 });
    assert_eq!(Colors::background(), Rgb { r: 237, g: 237, b: 235 });
}

#[test]
fn new_passenger_waits_on_the_station() {
    let p = Passenger::new(StationShape::Diamond);
    assert_eq!(p.kind(), StationShape::Diamond);
    assert_eq!(p.state(), PassengerState::OnStation);
    let mut p = p;
    p.set_state(PassengerState::OnVehicle);
    assert_eq!(p.state(), PassengerState::OnVehicle);
}

#[test]
fn station_directory_records_shapes_once() {
    let mut stations = StationHandler::new();
    stations.add_station(StationShape::Circle, Vec2::new(0, 0));
    stations.add_station(StationShape::Circle, Vec2::new(ONE, ONE));
    stations.add_station(StationShape::Square, Vec2::new(2 * ONE, 0));
    assert_eq!(stations.stations().len(), 3);
    assert_eq!(stations.available_shapes.len(), 2);
    assert_eq!(stations.get(1).id(), 1);
    assert_eq!(stations.get(2).kind(), StationShape::Square);
    assert_eq!(stations.get(0).size(), 15 * ONE);
}
