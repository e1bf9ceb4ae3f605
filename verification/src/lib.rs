//! A small transit simulation: routes are synthesised from ordered station
//! stops into sequences of geometric path segments (straight runs and platform
//! arcs), and vehicles advance along those segments tick by tick, easing into
//! stops, dwelling, and reversing at line termini.
//!
//! All geometry is carried out in fixed-point arithmetic (see [`utils::fixed`])
//! so that every computation has an exact mathematical description.

pub mod passenger;
pub mod route;
pub mod station;
pub mod utils;
pub mod vehicle;
