use vstd::prelude::*;

use crate::buffer::{painted, PixelBuffer};
use crate::pixel::{Color, DrawError, TriangleDirection, SIDE};
use crate::rect::{draw_rectangle, rect_coverage};
use crate::triangle::{draw_triangle, tri_coverage};

verus! {

/// Relies on rand::random_range on a half-open usize range: the sample is
/// uniform in [lo, hi) and the call panics only on an empty range.
#[verifier::external_body]
fn random_in(lo: usize, hi: usize) -> (r: usize)
    requires
        lo < hi,
    ensures
        lo <= r < hi,
{
    rand::random_range(lo..hi)
}

/// Whether the parameters are ones the scene generator can produce: a
/// position anywhere in the image, width and height in [10, 100), every
/// color channel in [64, 255).
pub open spec fn sample_ok(x: int, y: int, w: int, h: int, c: Color) -> bool {
    0 <= x < SIDE as int && 0 <= y < SIDE as int && 10 <= w < 100 && 10 <= h < 100 && 64 <= c.r
        < 255 && 64 <= c.g < 255 && 64 <= c.b < 255
}

/// What one rectangle draw with the given parameters leaves behind: the
/// painted rectangle when its box fits the image, an untouched buffer when it
/// does not.
pub open spec fn rect_drawn(
    pre: Seq<u8>,
    post: Seq<u8>,
    x: int,
    y: int,
    w: int,
    h: int,
    c: Color,
) -> bool {
    if x + w <= SIDE as int && y + h <= SIDE as int {
        post == painted(pre, rect_coverage(x, y, w, h), c)
    } else {
        post == pre
    }
}

/// What one triangle draw with the given parameters leaves behind: the
/// painted triangle when its bounding box fits the image, an untouched
/// buffer when it does not.
pub open spec fn tri_drawn(
    pre: Seq<u8>,
    post: Seq<u8>,
    x: int,
    y: int,
    w: int,
    h: int,
    dir: TriangleDirection,
    c: Color,
) -> bool {
    if x + w <= SIDE as int && y + h <= SIDE as int {
        post == painted(pre, tri_coverage(x, y, w, h, dir), c)
    } else {
        post == pre
    }
}

/// The buffer went from `pre` to `post` by one rectangle draw with
/// parameters the scene generator can produce.
pub open spec fn rect_random_outcome(pre: Seq<u8>, post: Seq<u8>) -> bool {
    exists|x: int, y: int, w: int, h: int, c: Color|
        sample_ok(x, y, w, h, c) && #[trigger] rect_drawn(pre, post, x, y, w, h, c)
}

/// The buffer went from `pre` to `post` by one triangle draw with parameters
/// the scene generator can produce.
pub open spec fn tri_random_outcome(pre: Seq<u8>, post: Seq<u8>) -> bool {
    exists|x: int, y: int, w: int, h: int, dir: TriangleDirection, c: Color|
        sample_ok(x, y, w, h, c) && #[trigger] tri_drawn(pre, post, x, y, w, h, dir, c)
}

/// Draws one rectangle with random position, size and color: position
/// uniform over the image, width and height uniform in [10, 100), channels
/// uniform in [64, 255). A rectangle that does not fit the image is rejected
/// by the fill and the buffer stays as it was.
pub fn draw_random_rectangle(buf: &mut PixelBuffer) -> (res: Result<(), DrawError>)
    requires
        old(buf).wf(),
    ensures
        final(buf).wf(),
        rect_random_outcome(old(buf)@, final(buf)@),
        res == Ok::<(), DrawError>(()) || res == Err::<(), DrawError>(DrawError::OutOfBounds),
{
    let x = random_in(0, SIDE);
    let y = random_in(0, SIDE);
    let width = random_in(10, 100);
    let height = random_in(10, 100);
    let color = Color {
        r: random_in(64, 255) as u8,
        g: random_in(64, 255) as u8,
        b: random_in(64, 255) as u8,
    };
    let res = draw_rectangle(buf, x, y, width, height, color);
    proof {
        assert(sample_ok(x as int, y as int, width as int, height as int, color));
        assert(rect_drawn(
            old(buf)@,
            buf@,
            x as int,
            y as int,
            width as int,
            height as int,
            color,
        ));
    }
    res
}

/// Draws one triangle with random position, size, color and direction, the
/// direction a fair coin flip. A triangle whose bounding box does not fit
/// the image is rejected by the fill and the buffer stays as it was.
pub fn draw_random_triangle(buf: &mut PixelBuffer) -> (res: Result<(), DrawError>)
    requires
        old(buf).wf(),
    ensures
        final(buf).wf(),
        tri_random_outcome(old(buf)@, final(buf)@),
        res == Ok::<(), DrawError>(()) || res == Err::<(), DrawError>(DrawError::OutOfBounds),
{
    let x = random_in(0, SIDE);
    let y = random_in(0, SIDE);
    let width = random_in(10, 100);
    let height = random_in(10, 100);
    let color = Color {
        r: random_in(64, 255) as u8,
        g: random_in(64, 255) as u8,
        b: random_in(64, 255) as u8,
    };
    let coin = random_in(0, 2);
    let direction = if coin == 1 {
        TriangleDirection::Down
    } else {
        TriangleDirection::Up
    };
    let res = draw_triangle(buf, x, y, width, height, direction, color);
    proof {
        assert(sample_ok(x as int, y as int, width as int, height as int, color));
        assert(tri_drawn(
            old(buf)@,
            buf@,
            x as int,
            y as int,
            width as int,
            height as int,
            direction,
            color,
        ));
    }
    res
}

/// One scene generation cycle: draws one random rectangle, then one random
/// triangle. A shape that does not fit the image is skipped, as the fills'
/// verdicts say; this function ignores the verdicts, like the host-facing
/// trigger it backs.
pub fn draw_shapes(buf: &mut PixelBuffer)
    requires
        old(buf).wf(),
    ensures
        final(buf).wf(),
        exists|mid: Seq<u8>|
            #[trigger] rect_random_outcome(old(buf)@, mid) && tri_random_outcome(
                mid,
                final(buf)@,
            ),
{
    let _ = draw_random_rectangle(buf);
    let ghost mid = buf@;
    let _ = draw_random_triangle(buf);
    proof {
        assert(rect_random_outcome(old(buf)@, mid) && tri_random_outcome(mid, buf@));
    }
}

} // verus!
