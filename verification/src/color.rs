//! Shell colors and how two of them cross.

use vstd::prelude::*;

verus! {

/// An RGB color.
#[derive(Clone, Copy, Debug, PartialEq, Eq, Structural)]
pub struct Color {
    pub r: u8,
    pub g: u8,
    pub b: u8,
}

/// The mean of two channel values, rounded down.
pub open spec fn blend(a: u8, b: u8) -> u8 {
    ((a + b) / 2) as u8
}

/// Computes the mean of two channel values in a wider type, where their sum
/// fits.
fn blend_channels(a: u8, b: u8) -> (mean: u8)
    ensures
        mean == blend(a, b),
{
    let sum: u16 = a as u16 + b as u16;
    (sum / 2) as u8
}

impl Color {
    /// The color that two parents with colors `c1` and `c2` pass on: each
    /// channel is the mean of the parents' channels, rounded down.
    pub open spec fn crossed(c1: Color, c2: Color) -> Color {
        Color { r: blend(c1.r, c2.r), g: blend(c1.g, c2.g), b: blend(c1.b, c2.b) }
    }

    pub fn new(r: u8, g: u8, b: u8) -> (color: Color)
        ensures
            color == (Color { r, g, b }),
    {
        Color { r, g, b }
    }

    /// Crosses two colors channel by channel.
    pub fn cross(c1: &Color, c2: &Color) -> (color: Color)
        ensures
            color == Color::crossed(*c1, *c2),
    {
        Color {
            r: blend_channels(c1.r, c2.r),
            g: blend_channels(c1.g, c2.g),
            b: blend_channels(c1.b, c2.b),
        }
    }
}

} // verus!
