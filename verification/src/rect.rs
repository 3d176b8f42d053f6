use vstd::prelude::*;

use crate::buffer::{
    lemma_painted_pixel_at, lemma_pixelwise_eq, painted, pixel_at, put_pixel, rgba, valid_pixel,
    PixelBuffer,
};
use crate::pixel::{Color, DrawError, BUF_LEN, SIDE};

verus! {

/// Whether (x, y) lies in the rectangle with origin (x0, y0), width w and
/// height h.
pub open spec fn rect_covers(x0: int, y0: int, w: int, h: int, x: int, y: int) -> bool {
    x0 <= x < x0 + w && y0 <= y < y0 + h
}

/// The set of pixels the rectangle covers.
pub open spec fn rect_coverage(x0: int, y0: int, w: int, h: int) -> Set<(int, int)> {
    Set::new(|p: (int, int)| rect_covers(x0, y0, w, h, p.0, p.1))
}

/// Fills an axis-aligned rectangle. On success every pixel with
/// origin_x <= x < origin_x + width and origin_y <= y < origin_y + height
/// holds the color with full alpha and every other pixel keeps its bytes.
/// A zero-width or zero-height rectangle is rejected as degenerate; one whose
/// pixels would not all lie inside the image is rejected as out of bounds;
/// a rejected call writes nothing.
pub fn draw_rectangle(
    buf: &mut PixelBuffer,
    origin_x: usize,
    origin_y: usize,
    width: usize,
    height: usize,
    color: Color,
) -> (res: Result<(), DrawError>)
    requires
        old(buf).wf(),
    ensures
        final(buf).wf(),
        width == 0 || height == 0 ==> res == Err::<(), DrawError>(DrawError::DegenerateGeometry)
            && final(buf)@ == old(buf)@,
        width > 0 && height > 0 && !(origin_x + width <= SIDE && origin_y + height <= SIDE)
            ==> res == Err::<(), DrawError>(DrawError::OutOfBounds) && final(buf)@ == old(buf)@,
        width > 0 && height > 0 && origin_x + width <= SIDE && origin_y + height <= SIDE ==> res
            == Ok::<(), DrawError>(()) && final(buf)@ == painted(
            old(buf)@,
            rect_coverage(origin_x as int, origin_y as int, width as int, height as int),
            color,
        ),
{
    if width == 0 || height == 0 {
        return Err(DrawError::DegenerateGeometry);
    }
    if width > SIDE || height > SIDE || origin_x > SIDE - width || origin_y > SIDE - height {
        return Err(DrawError::OutOfBounds);
    }
    let mut y = origin_y;
    while y < origin_y + height
        invariant
            buf.wf(),
            old(buf).wf(),
            origin_y <= y <= origin_y + height,
            width > 0,
            height > 0,
            origin_x + width <= SIDE,
            origin_y + height <= SIDE,
            forall|px: int, py: int|
                valid_pixel(px, py) ==> pixel_at(buf@, px, py) == (
                if origin_x <= px < origin_x + width && origin_y <= py < y {
                    rgba(color)
                } else {
                    pixel_at(old(buf)@, px, py)
                }),
        decreases origin_y + height - y,
    {
        let mut x = origin_x;
        while x < origin_x + width
            invariant
                buf.wf(),
                old(buf).wf(),
                origin_x <= x <= origin_x + width,
                origin_y <= y < origin_y + height,
                width > 0,
                height > 0,
                origin_x + width <= SIDE,
                origin_y + height <= SIDE,
                forall|px: int, py: int|
                    valid_pixel(px, py) ==> pixel_at(buf@, px, py) == (
                    if (origin_x <= px < origin_x + width && origin_y <= py < y) || (py == y
                        && origin_x <= px < x) {
                        rgba(color)
                    } else {
                        pixel_at(old(buf)@, px, py)
                    }),
            decreases origin_x + width - x,
        {
            put_pixel(buf, x, y, color);
            x += 1;
        }
        y += 1;
    }
    proof {
        let cov = rect_coverage(origin_x as int, origin_y as int, width as int, height as int);
        assert forall|px: int, py: int| valid_pixel(px, py) implies pixel_at(buf@, px, py)
            == pixel_at(painted(old(buf)@, cov, color), px, py) by {
            lemma_painted_pixel_at(old(buf)@, cov, color, px, py);
        }
        assert(painted(old(buf)@, cov, color).len() == BUF_LEN);
        lemma_pixelwise_eq(buf@, painted(old(buf)@, cov, color));
    }
    Ok(())
}

} // verus!
