use vstd::prelude::*;

verus! {

/// One pixel: three 8-bit channels, red, green and blue.
#[derive(Clone, Copy, Debug, PartialEq, Eq, Structural)]
pub struct RGB8 {
    pub r: u8,
    pub g: u8,
    pub b: u8,
}

/// The pixel with every channel off.
pub open spec fn black() -> RGB8 {
    RGB8 { r: 0, g: 0, b: 0 }
}

impl RGB8 {
    /// A pixel from its three channels.
    pub fn new(r: u8, g: u8, b: u8) -> (p: RGB8)
        ensures
            p == (RGB8 { r, g, b }),
    {
        RGB8 { r, g, b }
    }
}

} // verus!
