//! Colors and the color mapper that assigns them to modules.

use crate::grid::Module;
use vstd::prelude::*;

verus! {

/// A 4-channel color: red, green, blue and alpha, each 0 to 255.
///
/// No gamma or premultiplication is assumed; the compositing formulas in
/// `compose` define the exact arithmetic.
#[derive(Clone, Copy, Debug, PartialEq, Eq, Structural)]
pub struct Color {
    pub r: u8,
    pub g: u8,
    pub b: u8,
    pub a: u8,
}

/// The default color of a dark module: fully transparent black.
///
/// The transparency is intentional: it lets callers composite a background
/// behind the dark modules.  Callers needing opaque dark modules supply an
/// explicit color instead.
pub open spec fn transparent_dark() -> Color {
    Color { r: 0, g: 0, b: 0, a: 0 }
}

/// The default color of a light module: opaque white.
pub open spec fn opaque_white() -> Color {
    Color { r: 255, g: 255, b: 255, a: 255 }
}

impl Color {
    /// Builds a color from its four channels.
    pub fn new(r: u8, g: u8, b: u8, a: u8) -> (c: Color)
        ensures
            c == (Color { r, g, b, a }),
    {
        Color { r, g, b, a }
    }

    /// The default dark-module color, fully transparent black.
    pub fn default_dark() -> (c: Color)
        ensures
            c == transparent_dark(),
    {
        Color { r: 0, g: 0, b: 0, a: 0 }
    }

    /// The default light-module color, opaque white.
    pub fn default_light() -> (c: Color)
        ensures
            c == opaque_white(),
    {
        Color { r: 255, g: 255, b: 255, a: 255 }
    }
}

/// What the color mapper assigns: the dark color to dark modules, the light
/// color to light modules.
pub open spec fn spec_map_module(m: Module, dark: Color, light: Color) -> Color {
    if m is Dark {
        dark
    } else {
        light
    }
}

/// Pure lookup mapping a module state to one of two colors.
pub fn map_module(m: Module, dark: Color, light: Color) -> (c: Color)
    ensures
        c == spec_map_module(m, dark, light),
{
    match m {
        Module::Dark => dark,
        Module::Light => light,
    }
}

} // verus!
