use vstd::prelude::*;

use crate::buffer::{
    lemma_painted_pixel_at, lemma_pixelwise_eq, painted, pixel_at, put_pixel, rgba, valid_pixel,
    PixelBuffer,
};
use crate::pixel::{Color, DrawError, Point, TriangleDirection, BUF_LEN, SIDE};
use vstd::arithmetic::div_mod::{lemma_div_is_ordered, lemma_div_multiples_vanish};
use vstd::arithmetic::mul::{
    lemma_mul_inequality, lemma_mul_is_commutative, lemma_mul_is_distributive_add,
    lemma_mul_nonnegative,
};

verus! {

/// How deep into the triangle a scanline sits, measured from the apex's row
/// toward the base: row y itself for a Down triangle (apex on the last row),
/// the distance height - y for an Up triangle (apex on the first row).
pub open spec fn row_depth(height: int, dir: TriangleDirection, y: int) -> int {
    match dir {
        TriangleDirection::Down => y,
        TriangleDirection::Up => height - y,
    }
}

/// First column of the scanline at row y: the floor of the exact crossing
/// depth * (width / 2) / height of the left edge, which runs from the left
/// base corner to the apex at column width / 2.
pub open spec fn span_start(width: int, height: int, dir: TriangleDirection, y: int) -> int {
    (row_depth(height, dir, y) * (width / 2)) / height
}

/// Floor of the exact crossing width - depth * (width - width / 2) / height
/// of the right edge, which runs from the right base corner to the apex.
pub open spec fn span_end_raw(width: int, height: int, dir: TriangleDirection, y: int) -> int {
    (width * height - row_depth(height, dir, y) * (width - width / 2)) / height
}

/// Last column of the scanline at row y, kept inside the bounding box.
pub open spec fn span_end(width: int, height: int, dir: TriangleDirection, y: int) -> int {
    if span_end_raw(width, height, dir, y) > width - 1 {
        width - 1
    } else {
        span_end_raw(width, height, dir, y)
    }
}

/// Whether the local pixel (lx, ly) of the bounding box is filled by a
/// width × height triangle pointing in direction `dir`.
pub open spec fn tri_covers(
    width: int,
    height: int,
    dir: TriangleDirection,
    lx: int,
    ly: int,
) -> bool {
    0 < width && 0 < height && 0 <= ly < height && span_start(width, height, dir, ly) <= lx
        <= span_end(width, height, dir, ly)
}

/// The set of image pixels covered by the triangle whose bounding box is
/// anchored at (x0, y0).
pub open spec fn tri_coverage(
    x0: int,
    y0: int,
    width: int,
    height: int,
    dir: TriangleDirection,
) -> Set<(int, int)> {
    Set::new(|p: (int, int)| tri_covers(width, height, dir, p.0 - x0, p.1 - y0))
}

/// On every row of a non-degenerate triangle the scanline is non-empty and
/// stays inside the bounding box.
pub proof fn lemma_span_bounds(width: int, height: int, dir: TriangleDirection, y: int)
    requires
        0 < width,
        0 < height,
        0 <= y < height,
    ensures
        0 <= span_start(width, height, dir, y),
        span_start(width, height, dir, y) <= span_end(width, height, dir, y),
        span_end(width, height, dir, y) <= width - 1,
        row_depth(height, dir, y) * (width - width / 2) <= width * height,
{
    let k = row_depth(height, dir, y);
    let hw = width / 2;
    let run = width - hw;
    assert(0 <= k <= height);
    // The start is the floor of a non-negative rational.
    lemma_mul_nonnegative(k, hw);
    lemma_div_is_ordered(0, k * hw, height);
    // The start never passes the apex column: k * hw <= height * hw.
    lemma_mul_inequality(k, height, hw);
    lemma_mul_is_commutative(height, hw);
    lemma_div_multiples_vanish(hw, height);
    lemma_div_is_ordered(k * hw, height * hw, height);
    assert(span_start(width, height, dir, y) <= hw);
    assert(hw <= width - 1);
    // The start never passes the raw end: k * hw <= width * height - k * run
    // because k * width <= height * width.
    lemma_mul_is_distributive_add(k, hw, run);
    assert(k * hw + k * run == k * width);
    lemma_mul_inequality(k, height, width);
    lemma_mul_is_commutative(height, width);
    lemma_mul_is_commutative(width, height);
    assert(k * hw <= width * height - k * run);
    lemma_div_is_ordered(k * hw, width * height - k * run, height);
    // And the raw end's numerator is non-negative.
    lemma_mul_nonnegative(k, run);
}

/// The two orientations mirror each other at the extreme rows: on its first
/// row an Up triangle's scanline is exactly the single apex column
/// width / 2, while a Down triangle's first row spans the full base, from
/// column 0 to column width - 1.
pub proof fn lemma_apex_row(width: int, height: int)
    requires
        0 < width,
        0 < height,
    ensures
        span_start(width, height, TriangleDirection::Up, 0) == width / 2,
        span_end(width, height, TriangleDirection::Up, 0) == width / 2,
        span_start(width, height, TriangleDirection::Down, 0) == 0,
        span_end(width, height, TriangleDirection::Down, 0) == width - 1,
{
    let hw = width / 2;
    let run = width - hw;
    // Up, first row: depth is the full height, so both edges cross at the
    // apex column.
    lemma_div_multiples_vanish(hw, height);
    assert(span_start(width, height, TriangleDirection::Up, 0) == hw);
    lemma_mul_is_distributive_add(height, hw, run);
    assert(height * hw + height * run == height * width);
    lemma_mul_is_commutative(height, width);
    lemma_mul_is_commutative(height, run);
    assert(width * height - height * run == height * hw);
    assert(span_end_raw(width, height, TriangleDirection::Up, 0) == hw);
    // Down, first row: depth is zero, so the scanline runs the whole base
    // and the clamp keeps it at the last column of the box.
    lemma_div_multiples_vanish(width, height);
    lemma_mul_is_commutative(width, height);
    assert(span_end_raw(width, height, TriangleDirection::Down, 0) == width);
}

/// Writes one pixel of color `color` at the point `p` translated by
/// `translation`. A translated point outside the image is rejected as out of
/// bounds and writes nothing.
pub fn draw_grid(buf: &mut PixelBuffer, p: Point, color: Color, translation: Point) -> (res:
    Result<(), DrawError>)
    requires
        old(buf).wf(),
    ensures
        final(buf).wf(),
        translation.x + p.x < SIDE && translation.y + p.y < SIDE ==> res == Ok::<(), DrawError>(())
            && pixel_at(
            final(buf)@,
            translation.x + p.x,
            translation.y + p.y,
        ) == rgba(color) && (forall|px: int, py: int|
            valid_pixel(px, py) && !(px == translation.x + p.x && py == translation.y + p.y)
                ==> pixel_at(final(buf)@, px, py) == pixel_at(old(buf)@, px, py)),
        !(translation.x + p.x < SIDE && translation.y + p.y < SIDE) ==> res == Err::<
            (),
            DrawError,
        >(DrawError::OutOfBounds) && final(buf)@ == old(buf)@,
{
    if p.x < SIDE && translation.x < SIDE && p.x + translation.x < SIDE && p.y < SIDE
        && translation.y < SIDE && p.y + translation.y < SIDE {
        put_pixel(buf, translation.x + p.x, translation.y + p.y, color);
        Ok(())
    } else {
        Err(DrawError::OutOfBounds)
    }
}

/// Fills an isosceles triangle by a two-edge scanline sweep over its
/// width × height bounding box anchored at (left_x, left_y). The apex sits at
/// column width / 2 (integer truncation, so up to one unit off center for odd
/// widths), on the first row for Up and on the last row for Down; the base
/// spans the opposite row. On success exactly the covered pixels hold the
/// color with full alpha and every other pixel keeps its bytes. A zero-width
/// or zero-height triangle is rejected as degenerate; a bounding box not
/// fully inside the image is rejected as out of bounds; a rejected call
/// writes nothing.
pub fn draw_triangle(
    buf: &mut PixelBuffer,
    left_x: usize,
    left_y: usize,
    width: usize,
    height: usize,
    direction: TriangleDirection,
    color: Color,
) -> (res: Result<(), DrawError>)
    requires
        old(buf).wf(),
    ensures
        final(buf).wf(),
        width == 0 || height == 0 ==> res == Err::<(), DrawError>(DrawError::DegenerateGeometry)
            && final(buf)@ == old(buf)@,
        width > 0 && height > 0 && !(left_x + width <= SIDE && left_y + height <= SIDE) ==> res
            == Err::<(), DrawError>(DrawError::OutOfBounds) && final(buf)@ == old(buf)@,
        width > 0 && height > 0 && left_x + width <= SIDE && left_y + height <= SIDE ==> res
            == Ok::<(), DrawError>(()) && final(buf)@ == painted(
            old(buf)@,
            tri_coverage(left_x as int, left_y as int, width as int, height as int, direction),
            color,
        ),
{
    if width == 0 || height == 0 {
        return Err(DrawError::DegenerateGeometry);
    }
    if width > SIDE || height > SIDE || left_x > SIDE - width || left_y > SIDE - height {
        return Err(DrawError::OutOfBounds);
    }
    let half_width = width / 2;
    let run = width - half_width;
    let mut y: usize = 0;
    while y < height
        invariant
            buf.wf(),
            old(buf).wf(),
            0 <= y <= height,
            0 < width <= SIDE,
            0 < height <= SIDE,
            left_x + width <= SIDE,
            left_y + height <= SIDE,
            half_width == width / 2,
            run == width - half_width,
            forall|px: int, py: int|
                valid_pixel(px, py) ==> pixel_at(buf@, px, py) == (
                if tri_covers(
                    width as int,
                    height as int,
                    direction,
                    px - left_x as int,
                    py - left_y as int,
                ) && py - (left_y as int) < y {
                    rgba(color)
                } else {
                    pixel_at(old(buf)@, px, py)
                }),
        decreases height - y,
    {
        let depth = match direction {
            TriangleDirection::Down => y,
            TriangleDirection::Up => height - y,
        };
        proof {
            lemma_span_bounds(width as int, height as int, direction, y as int);
            assert(depth as int == row_depth(height as int, direction, y as int));
            assert(depth <= height);
            assert((depth as int) * (half_width as int) <= 250000) by (nonlinear_arith)
                requires
                    0 <= depth as int <= 500,
                    0 <= half_width as int <= 500,
            ;
            assert((width as int) * (height as int) <= 250000) by (nonlinear_arith)
                requires
                    0 <= width as int <= 500,
                    0 <= height as int <= 500,
            ;
            assert((depth as int) * (run as int) <= (width as int) * (height as int));
        }
        let start = (depth * half_width) / height;
        let end_raw = (width * height - depth * run) / height;
        let end = if end_raw > width - 1 {
            width - 1
        } else {
            end_raw
        };
        proof {
            assert(start as int == span_start(width as int, height as int, direction, y as int));
            assert(end_raw as int == span_end_raw(
                width as int,
                height as int,
                direction,
                y as int,
            ));
            assert(end as int == span_end(width as int, height as int, direction, y as int));
        }
        let mut x = start;
        while x <= end
            invariant
                buf.wf(),
                old(buf).wf(),
                0 <= y < height,
                0 < width <= SIDE,
                0 < height <= SIDE,
                left_x + width <= SIDE,
                left_y + height <= SIDE,
                start == span_start(width as int, height as int, direction, y as int),
                end == span_end(width as int, height as int, direction, y as int),
                start <= x <= end + 1,
                forall|px: int, py: int|
                    valid_pixel(px, py) ==> pixel_at(buf@, px, py) == (
                    if (tri_covers(
                        width as int,
                        height as int,
                        direction,
                        px - left_x as int,
                        py - left_y as int,
                    ) && py - (left_y as int) < y) || (py == left_y + y && left_x + start <= px
                        < left_x + x) {
                        rgba(color)
                    } else {
                        pixel_at(old(buf)@, px, py)
                    }),
            decreases end + 1 - x,
        {
            put_pixel(buf, left_x + x, left_y + y, color);
            x += 1;
        }
        y += 1;
    }
    proof {
        let cov = tri_coverage(
            left_x as int,
            left_y as int,
            width as int,
            height as int,
            direction,
        );
        assert forall|px: int, py: int| valid_pixel(px, py) implies pixel_at(buf@, px, py)
            == pixel_at(painted(old(buf)@, cov, color), px, py) by {
            lemma_painted_pixel_at(old(buf)@, cov, color, px, py);
        }
        assert(painted(old(buf)@, cov, color).len() == BUF_LEN);
        lemma_pixelwise_eq(buf@, painted(old(buf)@, cov, color));
    }
    Ok(())
}

} // verus!
