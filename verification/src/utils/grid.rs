//! A screen-layout grid of cells that stations can be placed into.

use vstd::prelude::*;

verus! {

use crate::station::types::{StationShape, StationType};
use crate::utils::fixed::ONE;

/// A pair of integer grid coordinates.
#[derive(Clone, Copy, PartialEq, Eq, Structural, Debug)]
pub struct Vec2i {
    pub x: i32,
    pub y: i32,
}

impl Vec2i {
    /// A coordinate pair.
    pub fn new(x: i32, y: i32) -> (v: Vec2i)
        ensures
            v.x == x,
            v.y == y,
    {
        Vec2i { x, y }
    }

    /// The horizontal coordinate.
    pub fn x(&self) -> (r: i32)
        ensures
            r == self.x,
    {
        self.x
    }

    /// The vertical coordinate.
    pub fn y(&self) -> (r: i32)
        ensures
            r == self.y,
    {
        self.y
    }
}

/// A rectangular grid of optional station placements, column by column.
pub struct Grid {
    pub width: usize,
    pub height: usize,
    pub size: i64,
    pub cells: Vec<Vec<Option<(StationShape, StationType)>>>,
}

/// The grid's columns all exist and have the grid's height.
pub open spec fn grid_wf(g: Grid) -> bool {
    &&& g.cells@.len() == g.width
    &&& forall|i: int| 0 <= i < g.width ==> (#[trigger] g.cells@[i])@.len() == g.height
}

impl Grid {
    /// An empty grid of the given dimensions, with the default cell size.
    pub fn new(width: usize, height: usize) -> (g: Grid)
        ensures
            grid_wf(g),
            g.width == width,
            g.height == height,
            g.size == 15 * ONE,
            forall|i: int, j: int|
                0 <= i < width && 0 <= j < height ==> (#[trigger] g.cells@[i]@[j]) is None,
    {
        let mut cells: Vec<Vec<Option<(StationShape, StationType)>>> = Vec::new();
        while cells.len() < width
            invariant
                cells@.len() <= width,
                forall|i: int| 0 <= i < cells@.len() ==> (#[trigger] cells@[i])@.len() == height,
                forall|i: int, j: int|
                    0 <= i < cells@.len() && 0 <= j < height ==> (#[trigger] cells@[i]@[j])
                        is None,
            decreases width - cells@.len(),
        {
            let mut column: Vec<Option<(StationShape, StationType)>> = Vec::new();
            while column.len() < height
                invariant
                    column@.len() <= height,
                    forall|j: int| 0 <= j < column@.len() ==> column@[j] is None,
                decreases height - column@.len(),
            {
                column.push(None);
            }
            cells.push(column);
        }
        Grid { width, height, size: 15 * ONE, cells }
    }

    /// Whether the cell exists and is still empty.
    pub fn can_fill(&self, x: usize, y: usize) -> (r: bool)
        requires
            grid_wf(*self),
        ensures
            r == (x < self.width && y < self.height && self.cells@[x as int]@[y as int] is None),
    {
        x < self.width && y < self.height && self.cells[x][y].is_none()
    }

    /// Places a station into a cell.
    pub fn fill(&mut self, x: usize, y: usize, shape: StationShape, station_type: StationType)
        requires
            grid_wf(*old(self)),
            x < old(self).width,
            y < old(self).height,
        ensures
            grid_wf(*final(self)),
            final(self).width == old(self).width,
            final(self).height == old(self).height,
            final(self).size == old(self).size,
            final(self).cells@[x as int]@[y as int] == Some((shape, station_type)),
            forall|i: int, j: int|
                0 <= i < final(self).width && 0 <= j < final(self).height && !(i == x && j == y)
                    ==> (#[trigger] final(self).cells@[i]@[j]) == old(self).cells@[i]@[j],
    {
        let column = &mut self.cells[x];
        column.set(y, Some((shape, station_type)));
    }
}

} // verus!
