use vstd::prelude::*;

verus! {

/// Simple RGBA8 color type to represent colors.
#[derive(Copy, Clone, Debug, PartialEq, Eq, Structural)]
pub struct RGBA8 {
    pub r: u8,
    pub g: u8,
    pub b: u8,
    pub a: u8,
}

impl RGBA8 {
    /// Builds a color from its four channels, each stored as given.
    pub fn new_raw(red: u8, green: u8, blue: u8, alpha: u8) -> (color: RGBA8)
        ensures
            color == (RGBA8 { r: red, g: green, b: blue, a: alpha }),
    {
        RGBA8 { r: red, g: green, b: blue, a: alpha }
    }
}

} // verus!
