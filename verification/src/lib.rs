//! A minimal 2D rasterizer. It owns a square RGBA pixel buffer and fills it
//! with axis-aligned rectangles and isosceles triangles; a host reads the raw
//! bytes out to display them. Every draw is bounds-checked and exact: the
//! contracts state which pixels a call paints and that all others keep their
//! bytes.

pub mod buffer;
pub mod laws;
pub mod pixel;
pub mod rect;
pub mod scene;
pub mod triangle;

pub use buffer::{raw_view, write_pixel, PixelBuffer};
pub use rect::draw_rectangle;
pub use scene::{draw_random_rectangle, draw_random_triangle, draw_shapes};
pub use triangle::{draw_grid, draw_triangle};
pub use pixel::{Color, DrawError, Point, TriangleDirection, BUF_LEN, BYTES_PER_PIXEL, SIDE};
