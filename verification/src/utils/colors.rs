//! The simulation's colour palette, as plain 8-bit channel triples.

use vstd::prelude::*;

verus! {

/// An opaque colour: red, green and blue channels.
#[derive(Clone, Copy, PartialEq, Eq, Structural, Debug)]
pub struct Rgb {
    pub r: u8,
    pub g: u8,
    pub b: u8,
}

/// The fixed colours the simulation hands out.
pub struct Colors {}

impl Colors {
    /// The canvas background colour.
    pub fn background() -> (c: Rgb)
        ensures
            c == (Rgb { r: 237, g: 237, b: 235 }),
    {
        Rgb { r: 237, g: 237, b: 235 }
    }

    /// The seven route colours, in the order routes receive them.
    pub fn default_palette() -> (v: Vec<Rgb>)
        ensures
            v@.len() == 7,
            v@[0] == (Rgb { r: 235, g: 64, b: 52 }),
            v@[1] == (Rgb { r: 235, g: 167, b: 59 }),
            v@[2] == (Rgb { r: 232, g: 222, b: 30 }),
            v@[3] == (Rgb { r: 34, g: 240, b: 123 }),
            v@[4] == (Rgb { r: 18, g: 159, b: 219 }),
            v@[5] == (Rgb { r: 30, g: 19, b: 235 }),
            v@[6] == (Rgb { r: 184, g: 12, b: 232 }),
    {
        let mut v: Vec<Rgb> = Vec::new();
        v.push(Rgb { r: 235, g: 64, b: 52 });
        v.push(Rgb { r: 235, g: 167, b: 59 });
        v.push(Rgb { r: 232, g: 222, b: 30 });
        v.push(Rgb { r: 34, g: 240, b: 123 });
        v.push(Rgb { r: 18, g: 159, b: 219 });
        v.push(Rgb { r: 30, g: 19, b: 235 });
        v.push(Rgb { r: 184, g: 12, b: 232 });
        v
    }
}

} // verus!
