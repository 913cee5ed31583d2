//! Small value types of the map format.
//!
//! Every single-precision component is stored as its IEEE-754 bit pattern
//! (what `f32::to_bits` returns), so values pass through the model unchanged.

use vstd::prelude::*;

verus! {

/// Bit pattern of `0.0f32`.
pub const F32_ZERO: u32 = 0x0000_0000u32;

/// Bit pattern of `1.0f32`.
pub const F32_ONE: u32 = 0x3F80_0000u32;

/// Bit pattern of `-1.0f32`.
pub const F32_MINUS_ONE: u32 = 0xBF80_0000u32;

/// Bit pattern of `-0.5f32`.
pub const F32_MINUS_HALF: u32 = 0xBF00_0000u32;

/// Bit pattern of `0.3f32`.
pub const F32_POINT_THREE: u32 = 0x3E99_999Au32;

/// A two-component vector of single-precision numbers (by bit pattern).
#[derive(Debug, Clone, Copy, PartialEq, Eq, Structural)]
pub struct Vec2 {
    pub x: u32,
    pub y: u32,
}

/// A three-component vector of single-precision numbers (by bit pattern).
#[derive(Debug, Clone, Copy, PartialEq, Eq, Structural)]
pub struct Vec3 {
    pub x: u32,
    pub y: u32,
    pub z: u32,
}

/// An RGBA colour of single-precision channels (by bit pattern).
#[derive(Debug, Clone, Copy, PartialEq, Eq, Structural)]
pub struct Colour {
    pub r: u32,
    pub g: u32,
    pub b: u32,
    pub a: u32,
}

impl Colour {
    /// Opaque white: every channel 1.0.
    pub fn white() -> (c: Colour)
        ensures
            c == (Colour { r: F32_ONE, g: F32_ONE, b: F32_ONE, a: F32_ONE }),
    {
        Colour { r: F32_ONE, g: F32_ONE, b: F32_ONE, a: F32_ONE }
    }

    /// Opaque black: colour channels 0.0, alpha 1.0.
    pub fn black() -> (c: Colour)
        ensures
            c == (Colour { r: F32_ZERO, g: F32_ZERO, b: F32_ZERO, a: F32_ONE }),
    {
        Colour { r: F32_ZERO, g: F32_ZERO, b: F32_ZERO, a: F32_ONE }
    }
}

} // verus!
