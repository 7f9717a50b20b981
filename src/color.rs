use vstd::prelude::*;

verus! {

/// An RGBA color with eight bits per channel, the texel format of the atlas.
#[derive(PartialEq, Eq, Structural, Copy, Clone, Debug)]
pub struct Color {
    pub r: u8,
    pub g: u8,
    pub b: u8,
    pub a: u8,
}

pub open spec fn transparent() -> Color {
    Color { r: 0, g: 0, b: 0, a: 0 }
}

impl Color {
    /// Builds a color from its four channels.
    pub fn new(r: u8, g: u8, b: u8, a: u8) -> (c: Color)
        ensures
            c == (Color { r, g, b, a }),
    {
        Color { r, g, b, a }
    }

    /// Fully transparent black, the color of an unpainted cell.
    pub fn transparent() -> (c: Color)
        ensures
            c == transparent(),
    {
        Color { r: 0, g: 0, b: 0, a: 0 }
    }

    /// Whether the color has any opacity at all.
    pub fn is_colored(&self) -> (r: bool)
        ensures
            r == (self.a != 0),
    {
        self.a != 0
    }
}

} // verus!
