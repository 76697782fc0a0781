//! Render tints.

use vstd::prelude::*;

verus! {

/// An RGBA colour.
#[derive(Clone, Copy, PartialEq, Eq, Structural, Debug)]
pub struct Colour {
    pub r: u8,
    pub g: u8,
    pub b: u8,
    pub a: u8,
}

impl Colour {
    pub fn new(r: u8, g: u8, b: u8, a: u8) -> (c: Colour)
        ensures
            c == (Colour { r, g, b, a }),
    {
        Colour { r, g, b, a }
    }

    /// Opaque black.
    pub fn black() -> (c: Colour)
        ensures
            c == (Colour { r: 0, g: 0, b: 0, a: 255 }),
    {
        Colour { r: 0, g: 0, b: 0, a: 255 }
    }

    /// Opaque white, the tint that leaves a texture unchanged.
    pub fn white() -> (c: Colour)
        ensures
            c == (Colour { r: 255, g: 255, b: 255, a: 255 }),
    {
        Colour { r: 255, g: 255, b: 255, a: 255 }
    }
}

} // verus!
