use vstd::prelude::*;

verus! {

// Coordinates, sizes, pan offsets and zoom factors are single-precision floats. The
// library carries each one as its IEEE-754 bit pattern (`f32::to_bits`); the float
// arithmetic of the canvas (projection, zoom, hit tests) is done by the shell.

/// Bit pattern of `0.0f32`.
pub const F32_ZERO: u32 = 0x0000_0000;

/// Bit pattern of `1.0f32`.
pub const F32_ONE: u32 = 0x3f80_0000;

/// A point in world space (bit patterns of its `f32` coordinates).
#[derive(Debug, Clone, Copy)]
pub struct WorldPoint {
    pub x: u32,
    pub y: u32,
}

/// A width and height in world units (bit patterns of `f32` values).
#[derive(Debug, Clone, Copy)]
pub struct WorldSize {
    pub width: u32,
    pub height: u32,
}

/// An axis-aligned rectangle in world space.
#[derive(Debug, Clone, Copy)]
pub struct WorldRect {
    pub origin: WorldPoint,
    pub size: WorldSize,
}

/// Camera for the infinite canvas: pan + zoom in world space (bit patterns of `f32` values).
#[derive(Debug, Clone, Copy)]
pub struct Viewport {
    pub pan_x: u32,
    pub pan_y: u32,
    pub zoom: u32,
}

/// The camera a new dimension starts with: no pan, zoom 1.
pub open spec fn home_viewport() -> Viewport {
    Viewport { pan_x: F32_ZERO, pan_y: F32_ZERO, zoom: F32_ONE }
}

impl Default for Viewport {
    /// No pan, zoom 1.
    fn default() -> (v: Self)
        ensures
            v == home_viewport(),
    {
        Viewport { pan_x: F32_ZERO, pan_y: F32_ZERO, zoom: F32_ONE }
    }
}

} // verus!
