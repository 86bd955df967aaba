//! Pixel colours as they are stored in a draw buffer.
use vstd::prelude::*;

verus! {

/// The bits that `blit` sets on every colour it builds: the unused alpha byte.
pub const ALPHA_BITS: u32 = 0xFF00_0000;

/// A colour as a `0xAARRGGBB` word; the alpha byte is not used for blending.
#[derive(Debug, Clone, Copy, PartialEq, Eq, Structural)]
pub struct Color(pub u32);

/// Relies on `blit::Color::from_u32` and `blit::Color::u32`: the word keeps its
/// colour bits and gets the alpha byte set.
#[verifier::external_body]
fn blit_color_word(raw: u32) -> (r: u32)
    ensures
        r == raw | ALPHA_BITS,
{
    blit::Color::from_u32(raw).u32()
}

impl Color {
    /// Create a colour from a 32-bit word; the alpha byte is set.
    pub fn from_u32(color: u32) -> (r: Color)
        ensures
            r.0 == color | ALPHA_BITS,
    {
        Color(blit_color_word(color))
    }

    /// The wrapped word.
    pub fn u32(&self) -> (r: u32)
        ensures
            r == self.0,
    {
        self.0
    }
}

} // verus!
