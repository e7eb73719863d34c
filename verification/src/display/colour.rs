//! Colours of the text console.
use vstd::prelude::*;

verus! {

/// A 24-bit RGB colour.
#[derive(Clone, Copy, Debug, PartialEq, Eq, Structural)]
pub struct Colour {
    pub r: u8,
    pub g: u8,
    pub b: u8,
}

impl Colour {
    /// The named colour black.
    pub fn black() -> (c: Colour)
        ensures
            c == (Colour { r: 0, g: 0, b: 0 }),
    {
        Colour { r: 0, g: 0, b: 0 }
    }
    /// The named colour white.
    pub fn white() -> (c: Colour)
        ensures
            c == (Colour { r: 0xFF, g: 0xFF, b: 0xFF }),
    {
        Colour { r: 0xFF, g: 0xFF, b: 0xFF }
    }
    /// The named colour red.
    pub fn red() -> (c: Colour)
        ensures
            c == (Colour { r: 0xFF, g: 0, b: 0 }),
    {
        Colour { r: 0xFF, g: 0, b: 0 }
    }
    /// The named colour blue.
    pub fn blue() -> (c: Colour)
        ensures
            c == (Colour { r: 0, g: 0, b: 0xFF }),
    {
        Colour { r: 0, g: 0, b: 0xFF }
    }
    /// The named colour green.
    pub fn green() -> (c: Colour)
        ensures
            c == (Colour { r: 0, g: 0xFF, b: 0 }),
    {
        Colour { r: 0, g: 0xFF, b: 0 }
    }
    /// The named colour cyan.
    pub fn cyan() -> (c: Colour)
        ensures
            c == (Colour { r: 0, g: 0xFF, b: 0xFF }),
    {
        Colour { r: 0, g: 0xFF, b: 0xFF }
    }
    /// The named colour magenta.
    pub fn magenta() -> (c: Colour)
        ensures
            c == (Colour { r: 0xFF, g: 0, b: 0xFF }),
    {
        Colour { r: 0xFF, g: 0, b: 0xFF }
    }
    /// The named colour yellow.
    pub fn yellow() -> (c: Colour)
        ensures
            c == (Colour { r: 0xFF, g: 0xFF, b: 0 }),
    {
        Colour { r: 0xFF, g: 0xFF, b: 0 }
    }

    /// The colour with the given red, green and blue components.
    pub fn new(r: u8, g: u8, b: u8) -> (c: Self)
        ensures
            c == (Colour { r, g, b }),
    {
        Colour { r, g, b }
    }
}

} // verus!
