//! The closed sets of station glyph shapes and station kinds.

use vstd::prelude::*;

verus! {

/// The glyph a station is drawn with; passengers carry the shape of the
/// station they want to reach.
#[derive(Clone, Copy, Debug, PartialEq, Eq, Structural)]
pub enum StationShape {
    Circle,
    Square,
    Diamond,
    Triangle,
}

/// The kind of a station; today there is a single kind.
#[derive(Clone, Copy, Debug, PartialEq, Eq, Structural)]
pub enum StationType {
    Normal,
}

} // verus!
