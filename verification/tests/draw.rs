use rasterizer::{
    draw_grid, draw_rectangle, draw_triangle, raw_view, write_pixel, Color, DrawError,
    PixelBuffer, Point, TriangleDirection, BUF_LEN, SIDE,
};

fn px(buf: &PixelBuffer, x: usize, y: usize) -> (u8, u8, u8, u8) {
    let bytes = raw_view(buf);
    let i = (y * SIDE + x) * 4;
    (bytes[i], bytes[i + 1], bytes[i + 2], bytes[i + 3])
}

const RED: Color = Color { r: 255, g: 0, b: 0 };
const GREEN: Color = Color { r: 0, g: 255, b: 0 };
const BLUE: Color = Color { r: 0, g: 0, b: 255 };

#[test]
fn new_buffer_is_transparent_black() {
    let buf = PixelBuffer::new();
    let bytes = raw_view(&buf);
    assert_eq!(bytes.len(), BUF_LEN);
    assert_eq!(BUF_LEN, SIDE * SIDE * 4);
    assert!(bytes.iter().all(|&b| b == 0));
}

#[test]
fn rectangle_scenario() {
    let mut buf = PixelBuffer::new();
    let res = draw_rectangle(&mut buf, 10, 10, 20, 20, RED);
    assert_eq!(res, Ok(()));
    assert_eq!(px(&buf, 10, 10), (255, 0, 0, 255));
    assert_eq!(px(&buf, 29, 29), (255, 0, 0, 255));
    assert_eq!(px(&buf, 9, 9), (0, 0, 0, 0));
    assert_eq!(px(&buf, 30, 30), (0, 0, 0, 0));
}

#[test]
fn rectangle_fills_exactly_its_box() {
    let mut buf = PixelBuffer::new();
    let res = draw_rectangle(&mut buf, 100, 200, 30, 7, BLUE);
    assert_eq!(res, Ok(()));
    for y in 0..SIDE {
        for x in 0..SIDE {
            let inside = 100 <= x && x < 130 && 200 <= y && y < 207;
            let expect = if inside { (0, 0, 255, 255) } else { (0, 0, 0, 0) };
            assert_eq!(px(&buf, x, y), expect);
        }
    }
}

#[test]
fn rectangle_idempotent() {
    let mut once = PixelBuffer::new();
    assert_eq!(draw_rectangle(&mut once, 40, 60, 25, 35, GREEN), Ok(()));
    let mut twice = PixelBuffer::new();
    assert_eq!(draw_rectangle(&mut twice, 40, 60, 25, 35, GREEN), Ok(()));
    assert_eq!(draw_rectangle(&mut twice, 40, 60, 25, 35, GREEN), Ok(()));
    assert_eq!(raw_view(&once), raw_view(&twice));
}

#[test]
fn overwrite_law_last_write_wins() {
    let mut buf = PixelBuffer::new();
    assert_eq!(draw_rectangle(&mut buf, 20, 20, 30, 30, RED), Ok(()));
    assert_eq!(draw_rectangle(&mut buf, 35, 35, 30, 30, BLUE), Ok(()));
    // Every pixel of the second rectangle is blue, overlap included.
    for y in 35..65 {
        for x in 35..65 {
            assert_eq!(px(&buf, x, y), (0, 0, 255, 255));
        }
    }
    // A pixel only the first rectangle covers keeps its red.
    assert_eq!(px(&buf, 20, 20), (255, 0, 0, 255));
    assert_eq!(px(&buf, 34, 34), (255, 0, 0, 255));
}

#[test]
fn rectangle_rejects_degenerate() {
    let mut buf = PixelBuffer::new();
    assert_eq!(
        draw_rectangle(&mut buf, 10, 10, 0, 20, RED),
        Err(DrawError::DegenerateGeometry)
    );
    assert_eq!(
        draw_rectangle(&mut buf, 10, 10, 20, 0, RED),
        Err(DrawError::DegenerateGeometry)
    );
    assert!(raw_view(&buf).iter().all(|&b| b == 0));
}

#[test]
fn rectangle_rejects_out_of_bounds() {
    let mut buf = PixelBuffer::new();
    assert_eq!(
        draw_rectangle(&mut buf, 495, 10, 20, 20, RED),
        Err(DrawError::OutOfBounds)
    );
    assert_eq!(
        draw_rectangle(&mut buf, 10, 495, 20, 20, RED),
        Err(DrawError::OutOfBounds)
    );
    assert!(raw_view(&buf).iter().all(|&b| b == 0));
}

#[test]
fn triangle_down_scenario() {
    let mut buf = PixelBuffer::new();
    let res = draw_triangle(&mut buf, 0, 0, 10, 10, TriangleDirection::Down, GREEN);
    assert_eq!(res, Ok(()));
    // Apex area: the bottom scanline reaches the mid column.
    assert_eq!(px(&buf, 5, 9), (0, 255, 0, 255));
    // Base corners on the top row.
    assert_eq!(px(&buf, 0, 0), (0, 255, 0, 255));
    assert_eq!(px(&buf, 9, 0), (0, 255, 0, 255));
    // Nothing leaks out of the bounding box.
    assert_eq!(px(&buf, 10, 0), (0, 0, 0, 0));
    assert_eq!(px(&buf, 0, 10), (0, 0, 0, 0));
}

#[test]
fn triangle_down_row_above_anchor_untouched() {
    let mut buf = PixelBuffer::new();
    let res = draw_triangle(&mut buf, 100, 100, 10, 10, TriangleDirection::Down, GREEN);
    assert_eq!(res, Ok(()));
    // The row just above the anchored box stays transparent.
    for x in 95..115 {
        assert_eq!(px(&buf, x, 99), (0, 0, 0, 0));
    }
    assert_eq!(px(&buf, 105, 109), (0, 255, 0, 255));
}

#[test]
fn triangle_up_orientation_symmetry() {
    let mut buf = PixelBuffer::new();
    let res = draw_triangle(&mut buf, 0, 0, 10, 10, TriangleDirection::Up, GREEN);
    assert_eq!(res, Ok(()));
    // The apex scanline covers exactly one column, near width / 2.
    let apex_cols: Vec<usize> = (0..10).filter(|&x| px(&buf, x, 0).3 == 255).collect();
    assert_eq!(apex_cols, vec![5]);
    // The base scanline covers the full width.
    for x in 0..10 {
        assert_eq!(px(&buf, x, 9), (0, 255, 0, 255));
    }
}

#[test]
fn triangle_rejects_degenerate() {
    let mut buf = PixelBuffer::new();
    assert_eq!(
        draw_triangle(&mut buf, 10, 10, 0, 10, TriangleDirection::Down, GREEN),
        Err(DrawError::DegenerateGeometry)
    );
    assert_eq!(
        draw_triangle(&mut buf, 10, 10, 10, 0, TriangleDirection::Up, GREEN),
        Err(DrawError::DegenerateGeometry)
    );
    assert!(raw_view(&buf).iter().all(|&b| b == 0));
}

#[test]
fn triangle_rejects_out_of_bounds() {
    let mut buf = PixelBuffer::new();
    assert_eq!(
        draw_triangle(&mut buf, 495, 495, 10, 10, TriangleDirection::Down, GREEN),
        Err(DrawError::OutOfBounds)
    );
    assert!(raw_view(&buf).iter().all(|&b| b == 0));
}

fn filled_count(buf: &PixelBuffer) -> usize {
    let mut n = 0;
    for y in 0..SIDE {
        for x in 0..SIDE {
            if px(buf, x, y).3 == 255 {
                n += 1;
            }
        }
    }
    n
}

#[test]
fn triangle_area_close_to_geometric() {
    let cases = [(10usize, 10usize), (40, 40), (25, 15), (99, 33)];
    let dirs = [TriangleDirection::Up, TriangleDirection::Down];
    for &(w, h) in cases.iter() {
        for &dir in dirs.iter() {
            let mut buf = PixelBuffer::new();
            assert_eq!(draw_triangle(&mut buf, 50, 50, w, h, dir, GREEN), Ok(()));
            let count = filled_count(&buf) as i64;
            let area = (w * h / 2) as i64;
            let tolerance = (w / 2 + 2 * h) as i64;
            assert!(
                (count - area).abs() <= tolerance,
                "w={} h={} count={} area={}",
                w,
                h,
                count,
                area
            );
        }
    }
}

#[test]
fn triangle_exact_filled_counts() {
    // Down 10 x 10: scanline widths 10,10,9,8,7,6,5,4,3,2 from the base row
    // to the apex row.
    let mut buf = PixelBuffer::new();
    assert_eq!(
        draw_triangle(&mut buf, 0, 0, 10, 10, TriangleDirection::Down, GREEN),
        Ok(())
    );
    assert_eq!(filled_count(&buf), 64);
    // Up 10 x 10: widths 1 through 10 from the apex row to the base row.
    let mut buf = PixelBuffer::new();
    assert_eq!(
        draw_triangle(&mut buf, 0, 0, 10, 10, TriangleDirection::Up, GREEN),
        Ok(())
    );
    assert_eq!(filled_count(&buf), 55);
}

#[test]
fn triangle_idempotent() {
    let mut once = PixelBuffer::new();
    assert_eq!(
        draw_triangle(&mut once, 30, 40, 21, 17, TriangleDirection::Up, BLUE),
        Ok(())
    );
    let mut twice = PixelBuffer::new();
    assert_eq!(
        draw_triangle(&mut twice, 30, 40, 21, 17, TriangleDirection::Up, BLUE),
        Ok(())
    );
    assert_eq!(
        draw_triangle(&mut twice, 30, 40, 21, 17, TriangleDirection::Up, BLUE),
        Ok(())
    );
    assert_eq!(raw_view(&once), raw_view(&twice));
}

#[test]
fn write_pixel_checked() {
    let mut buf = PixelBuffer::new();
    assert_eq!(write_pixel(&mut buf, 499, 499, RED), Ok(()));
    assert_eq!(px(&buf, 499, 499), (255, 0, 0, 255));
    assert_eq!(px(&buf, 498, 499), (0, 0, 0, 0));
    assert_eq!(write_pixel(&mut buf, 500, 0, RED), Err(DrawError::OutOfBounds));
    assert_eq!(write_pixel(&mut buf, 0, 500, RED), Err(DrawError::OutOfBounds));
}

#[test]
fn draw_grid_translates_and_checks() {
    let mut buf = PixelBuffer::new();
    let res = draw_grid(
        &mut buf,
        Point { x: 3, y: 4 },
        BLUE,
        Point { x: 100, y: 200 },
    );
    assert_eq!(res, Ok(()));
    assert_eq!(px(&buf, 103, 204), (0, 0, 255, 255));
    let res = draw_grid(
        &mut buf,
        Point { x: 3, y: 4 },
        BLUE,
        Point { x: 499, y: 0 },
    );
    assert_eq!(res, Err(DrawError::OutOfBounds));
}
