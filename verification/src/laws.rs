use vstd::prelude::*;

use crate::buffer::{lemma_painted_pixel_at, painted, pixel_at, rgba, valid_pixel};
use crate::pixel::{Color, BUF_LEN};
use crate::rect::{rect_coverage, rect_covers};

verus! {

/// Idempotence: painting the same pixel set with the same color twice leaves
/// the buffer exactly as painting it once. Together with the draw functions'
/// contracts, drawing the same shape twice equals drawing it once.
pub proof fn lemma_paint_idempotent(s: Seq<u8>, cov: Set<(int, int)>, c: Color)
    ensures
        painted(painted(s, cov, c), cov, c) == painted(s, cov, c),
{
    let once = painted(s, cov, c);
    let twice = painted(once, cov, c);
    assert forall|i: int| 0 <= i < s.len() implies twice[i] == once[i] by {}
    assert(twice =~= once);
}

/// Drawing the same rectangle twice leaves the buffer exactly as drawing it
/// once: the rectangle fill's contract gives each successful draw's result
/// as a paint of the rectangle's coverage, and painting is idempotent.
pub proof fn lemma_rectangle_idempotent(s: Seq<u8>, x0: int, y0: int, w: int, h: int, c: Color)
    ensures
        painted(painted(s, rect_coverage(x0, y0, w, h), c), rect_coverage(x0, y0, w, h), c)
            == painted(s, rect_coverage(x0, y0, w, h), c),
{
    lemma_paint_idempotent(s, rect_coverage(x0, y0, w, h), c);
}

/// Last write wins: after painting set A with color cA and then set B with
/// color cB, every pixel of B holds cB's bytes with full alpha, whatever A
/// painted there before. There is no blending.
pub proof fn lemma_paint_overwrite(
    s: Seq<u8>,
    cov_a: Set<(int, int)>,
    c_a: Color,
    cov_b: Set<(int, int)>,
    c_b: Color,
    x: int,
    y: int,
)
    requires
        s.len() == BUF_LEN,
        valid_pixel(x, y),
        cov_b.contains((x, y)),
    ensures
        pixel_at(painted(painted(s, cov_a, c_a), cov_b, c_b), x, y) == rgba(c_b),
{
    lemma_painted_pixel_at(painted(s, cov_a, c_a), cov_b, c_b, x, y);
}

/// Pixels a shape does not cover keep their bytes through the draw.
pub proof fn lemma_paint_preserves(s: Seq<u8>, cov: Set<(int, int)>, c: Color, x: int, y: int)
    requires
        s.len() == BUF_LEN,
        valid_pixel(x, y),
        !cov.contains((x, y)),
    ensures
        pixel_at(painted(s, cov, c), x, y) == pixel_at(s, x, y),
{
    lemma_painted_pixel_at(s, cov, c, x, y);
}

/// The rectangle law: after filling a rectangle, every pixel inside
/// [x0, x0 + w) × [y0, y0 + h) holds exactly the requested color with alpha
/// 255, and every pixel outside it is unchanged.
pub proof fn lemma_rectangle_pixels(
    s: Seq<u8>,
    x0: int,
    y0: int,
    w: int,
    h: int,
    c: Color,
    x: int,
    y: int,
)
    requires
        s.len() == BUF_LEN,
        valid_pixel(x, y),
    ensures
        pixel_at(painted(s, rect_coverage(x0, y0, w, h), c), x, y) == if rect_covers(
            x0,
            y0,
            w,
            h,
            x,
            y,
        ) {
            rgba(c)
        } else {
            pixel_at(s, x, y)
        },
{
    lemma_painted_pixel_at(s, rect_coverage(x0, y0, w, h), c, x, y);
}

} // verus!
