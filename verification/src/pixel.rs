//! A pixel's four 8-bit channels and their 32-bit packed form.

use vstd::prelude::*;

verus! {

/// One pixel's four 8-bit channels, in the fixed order red, green, blue, alpha.
#[derive(Clone, Copy, PartialEq, Eq, Structural, Debug)]
pub struct Pixel {
    pub r: u8,
    pub g: u8,
    pub b: u8,
    pub a: u8,
}

/// The 32-bit packed form of a pixel: the little-endian layout of the channel
/// sequence R, G, B, A, so R is the least-significant byte and A the most
/// significant.
pub open spec fn packed_pixel_spec(p: Pixel) -> u32 {
    ((p.a as u32) << 24) | ((p.b as u32) << 16) | ((p.g as u32) << 8) | (p.r as u32)
}

/// Packs a pixel's channels into one 32-bit word, alpha in the high byte down
/// to red in the low byte.
pub fn packed_pixel(p: Pixel) -> (w: u32)
    ensures
        w == packed_pixel_spec(p),
{
    ((p.a as u32) << 24) | ((p.b as u32) << 16) | ((p.g as u32) << 8) | (p.r as u32)
}

} // verus!
