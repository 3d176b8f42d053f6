use vstd::prelude::*;

verus! {

/// Pixel dimension of the square output image.
pub const SIDE: usize = 500;

/// Bytes per pixel: red, green, blue, alpha.
pub const BYTES_PER_PIXEL: usize = 4;

/// Total length in bytes of the backing storage: one RGBA quadruple per pixel.
pub const BUF_LEN: usize = SIDE * SIDE * BYTES_PER_PIXEL;

/// A point in image space.
#[derive(Copy, Clone, Debug)]
pub struct Point {
    pub x: usize,
    pub y: usize,
}

/// A color as three 8-bit channels. No alpha is stored: every drawn pixel is
/// written fully opaque.
#[derive(Copy, Clone, Debug)]
pub struct Color {
    pub r: u8,
    pub g: u8,
    pub b: u8,
}

/// Whether a triangle's apex points at the top or the bottom of its bounding
/// box.
#[derive(Copy, Clone, Debug)]
pub enum TriangleDirection {
    Up,
    Down,
}

/// Why a draw call was rejected. A rejected call writes nothing.
#[derive(Copy, Clone, Debug, PartialEq, Eq)]
pub enum DrawError {
    /// Some pixel of the shape would fall outside the image.
    OutOfBounds,
    /// The shape has zero width or zero height.
    DegenerateGeometry,
}

} // verus!
