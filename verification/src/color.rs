//! The color encoder: an iteration count becomes a 4-channel pixel color.
//!
//! Each channel takes the low eight bits of an integer quotient of the
//! count: the encoding wraps rather than saturates, so counts past a
//! channel's range band around instead of clamping.  The alpha channel is
//! always opaque.

use vstd::prelude::*;

verus! {

/// One pixel color, a byte per channel.
#[derive(Clone, Copy, Debug, PartialEq, Eq, Structural)]
pub struct Rgba {
    pub r: u8,
    pub g: u8,
    pub b: u8,
    pub a: u8,
}

/// The color encoding of an iteration count: red is the count over four,
/// green the count over two, blue the count itself, each modulo 256; alpha
/// is 255.
pub open spec fn rgba_spec(n: nat) -> Rgba {
    Rgba {
        r: ((n / 4) % 256) as u8,
        g: ((n / 2) % 256) as u8,
        b: (n % 256) as u8,
        a: 255u8,
    }
}

/// Encode an iteration count as a color.
pub fn color_of(n: u32) -> (c: Rgba)
    ensures
        c == rgba_spec(n as nat),
        c.r == (n as nat / 4) % 256,
        c.g == (n as nat / 2) % 256,
        c.b == n as nat % 256,
        c.a == 255,
{
    Rgba {
        r: ((n / 4) % 256) as u8,
        g: ((n / 2) % 256) as u8,
        b: (n % 256) as u8,
        a: 255,
    }
}

} // verus!
