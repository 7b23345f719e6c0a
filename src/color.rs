use vstd::prelude::*;

verus! {

/// An RGB colour with one byte per channel.
#[derive(Clone, Copy, Debug, PartialEq, Eq, Structural)]
pub struct Color {
    pub r: u8,
    pub g: u8,
    pub b: u8,
}

/// The display word `0x00RRGGBB` that holds the three channels.
pub open spec fn packed_rgb(r: u8, g: u8, b: u8) -> int {
    r as int * 65536 + g as int * 256 + b as int
}

/// Packs three 8-bit channels into one `0x00RRGGBB` pixel word.
pub fn from_u8_rgb(r: u8, g: u8, b: u8) -> (w: u32)
    ensures
        w as int == packed_rgb(r, g, b),
{
    let (r, g, b) = (r as u32, g as u32, b as u32);
    let w = (r << 16) | (g << 8) | b;
    assert(w == r * 65536 + g * 256 + b) by (bit_vector)
        requires
            r < 256,
            g < 256,
            b < 256,
            w == (r << 16) | (g << 8) | b,
    ;
    w
}

} // verus!
