//! Packed 24-bit RGB colors.
//!
//! The framebuffer stores each pixel as a single `u32` holding the three
//! channels as `(R << 16) | (G << 8) | B`; this module defines the channel
//! triple and the packing.

use vstd::prelude::*;

verus! {

/// One RGB color, one byte per channel.
#[derive(Clone, Copy, PartialEq, Eq, Structural, Debug)]
pub struct Color {
    pub r: u8,
    pub g: u8,
    pub b: u8,
}

/// The packed form of a channel triple: `(R << 16) | (G << 8) | B`.
pub open spec fn packed_rgb(r: u8, g: u8, b: u8) -> u32 {
    ((r as u32) << 16) | ((g as u32) << 8) | (b as u32)
}

impl Color {
    pub fn new(r: u8, g: u8, b: u8) -> (c: Color)
        ensures
            c.r == r,
            c.g == g,
            c.b == b,
    {
        Color { r, g, b }
    }

    /// Pack the three channels into one integer, red in the highest byte.
    pub fn to_hex(&self) -> (h: u32)
        ensures
            h == packed_rgb(self.r, self.g, self.b),
            h == self.r * 0x10000 + self.g * 0x100 + self.b,
    {
        let r = self.r;
        let g = self.g;
        let b = self.b;
        proof {
            assert(((r as u32) << 16) | ((g as u32) << 8) | (b as u32)
                == r * 0x10000 + g * 0x100 + b) by (bit_vector);
        }
        ((r as u32) << 16) | ((g as u32) << 8) | (b as u32)
    }
}

} // verus!
