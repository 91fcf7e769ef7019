use cantor_square::canvas::Canvas;
use cantor_square::color::Color;
use cantor_square::color::ColorPolicy;
use cantor_square::fractal::generate_cantor;
use cantor_square::geometry::Rect;
use cantor_square::raster::draw_rect;
use cantor_square::viewport::Anchor;
use cantor_square::viewport::Viewport;
use cantor_square::viewport::Zoom;

const PAPER: Color = Color { r: 1, g: 2, b: 3 };
const RED: Color = Color { r: 200, g: 10, b: 20 };

fn unit_view(width: u32, height: u32) -> Viewport {
    Viewport::new(width, height, Zoom { num: 1, den: 1 }, Anchor::TopLeft).unwrap()
}

fn expect_box(samples: &[u8], width: u32, height: u32, cols: (u32, u32), rows: (u32, u32)) {
    assert_eq!(samples.len(), 3 * (width * height) as usize);
    for y in 0..height {
        for x in 0..width {
            let i = 3 * (y * width + x) as usize;
            let inside = cols.0 <= x && x < cols.1 && rows.0 <= y && y < rows.1;
            let c = if inside { RED } else { PAPER };
            assert_eq!(&samples[i..i + 3], &[c.r, c.g, c.b], "pixel ({}, {})", x, y);
        }
    }
}

#[test]
fn a_new_canvas_has_one_colour_and_its_extent() {
    let canvas = Canvas::filled(7, 5, PAPER).unwrap();
    assert_eq!(canvas.width(), 7);
    assert_eq!(canvas.height(), 5);
    let samples = canvas.into_raw();
    assert_eq!(samples.len(), 7 * 5 * 3);
    assert!(samples.chunks(3).all(|p| p == [1, 2, 3]));
}

#[test]
fn a_canvas_without_pixels_has_no_samples() {
    let canvas = Canvas::filled(0, 9, PAPER).unwrap();
    assert_eq!(canvas.width(), 0);
    assert_eq!(canvas.height(), 9);
    assert!(canvas.into_raw().is_empty());
}

#[test]
fn a_canvas_too_large_for_a_vector_is_not_made() {
    if 3 * (u32::MAX as u128) * (u32::MAX as u128) > isize::MAX as u128 {
        assert!(Canvas::filled(u32::MAX, u32::MAX, PAPER).is_none());
    }
}

#[test]
fn a_canvas_whose_row_cannot_be_counted_is_not_made() {
    // 3 * 0x6000_0000 is over 2^32: with 32-bit sizes the row has no count
    let made = Canvas::filled(0x6000_0000, 0, PAPER);
    if 3 * 0x6000_0000u128 > usize::MAX as u128 {
        assert!(made.is_none());
    } else {
        let canvas = made.unwrap();
        assert_eq!(canvas.width(), 0x6000_0000);
        assert_eq!(canvas.height(), 0);
        assert!(canvas.into_raw().is_empty());
    }
}

#[test]
fn put_sets_one_pixel_in_row_major_order() {
    let mut canvas = Canvas::filled(4, 3, PAPER).unwrap();
    canvas.put(2, 1, RED);
    canvas.put(3, 2, Color { r: 9, g: 8, b: 7 });
    let samples = canvas.into_raw();
    for p in 0..12 {
        let expected = match p {
            6 => [200, 10, 20],
            11 => [9, 8, 7],
            _ => [1, 2, 3],
        };
        assert_eq!(&samples[3 * p..3 * p + 3], &expected, "pixel {}", p);
    }
}

#[test]
fn draw_rect_fills_from_floor_to_ceiling() {
    // a third of ten pixels: from 3 1/3 to 6 2/3, so columns and rows 3 to 6
    let mut canvas = Canvas::filled(10, 10, PAPER).unwrap();
    draw_rect(&mut canvas, Rect { x: 1, y: 1, size: 1, denom: 3 }, RED, &unit_view(10, 10));
    expect_box(&canvas.into_raw(), 10, 10, (3, 7), (3, 7));
}

#[test]
fn draw_rect_on_whole_pixel_edges_fills_no_more() {
    let mut canvas = Canvas::filled(10, 8, PAPER).unwrap();
    draw_rect(&mut canvas, Rect { x: 2, y: 1, size: 2, denom: 4 }, RED, &unit_view(10, 8));
    // columns 5 to 10 of 10, rows 2 to 6 of 8
    expect_box(&canvas.into_raw(), 10, 8, (5, 10), (2, 6));
}

#[test]
fn draw_rect_clips_to_the_canvas() {
    let mut canvas = Canvas::filled(10, 10, PAPER).unwrap();
    draw_rect(&mut canvas, Rect { x: -1, y: 1, size: 3, denom: 2 }, RED, &unit_view(10, 10));
    // from -5 to 10 across, from 5 to 20 down
    expect_box(&canvas.into_raw(), 10, 10, (0, 10), (5, 10));
}

#[test]
fn draw_rect_outside_the_canvas_writes_nothing() {
    let view = unit_view(10, 10);
    for rect in [
        Rect { x: 2, y: 0, size: 1, denom: 1 },
        Rect { x: -3, y: 0, size: 2, denom: 1 },
        Rect { x: 0, y: 5, size: 1, denom: 4 },
        Rect { x: 0, y: -1, size: 1, denom: 2 },
        Rect { x: 1 << 46, y: 1 << 46, size: 1 << 46, denom: 1 },
        Rect { x: -(1 << 46), y: -(1 << 46), size: 1, denom: 1 << 46 },
    ] {
        let mut canvas = Canvas::filled(10, 10, PAPER).unwrap();
        draw_rect(&mut canvas, rect, RED, &view);
        expect_box(&canvas.into_raw(), 10, 10, (0, 0), (0, 0));
    }
}

#[test]
fn draw_rect_leaves_out_a_square_without_area() {
    let mut canvas = Canvas::filled(10, 10, PAPER).unwrap();
    draw_rect(&mut canvas, Rect { x: 1, y: 1, size: 0, denom: 3 }, RED, &unit_view(10, 10));
    expect_box(&canvas.into_raw(), 10, 10, (0, 0), (0, 0));
}

#[test]
fn draw_rect_clips_to_the_canvas_not_to_the_viewport() {
    // the viewport is 20 pixels wide, the canvas only 10
    let mut canvas = Canvas::filled(10, 10, PAPER).unwrap();
    draw_rect(&mut canvas, Rect::unit(), RED, &unit_view(20, 5));
    expect_box(&canvas.into_raw(), 10, 10, (0, 10), (0, 5));
}

#[test]
fn generate_cantor_draws_over_what_is_there() {
    let mut canvas = Canvas::filled(9, 9, PAPER).unwrap();
    canvas.put(4, 4, Color { r: 77, g: 77, b: 77 });
    generate_cantor(&mut canvas, Rect::unit(), 1, 1, &unit_view(9, 9), &ColorPolicy::Fixed(RED));
    let samples = canvas.into_raw();
    for y in 0..9u32 {
        for x in 0..9u32 {
            let i = 3 * (y * 9 + x) as usize;
            let corner = (x < 3 || x >= 6) && (y < 3 || y >= 6);
            let expected = if corner {
                [200, 10, 20]
            } else if (x, y) == (4, 4) {
                [77, 77, 77]
            } else {
                [1, 2, 3]
            };
            assert_eq!(&samples[i..i + 3], &expected);
        }
    }
}

#[test]
fn generate_cantor_from_a_cell_draws_that_cell_only() {
    let mut canvas = Canvas::filled(9, 9, PAPER).unwrap();
    let cell = Rect { x: 2, y: 0, size: 1, denom: 3 };
    generate_cantor(&mut canvas, cell, 1, 2, &unit_view(9, 9), &ColorPolicy::Fixed(RED));
    let samples = canvas.into_raw();
    for y in 0..9u32 {
        for x in 0..9u32 {
            let i = 3 * (y * 9 + x) as usize;
            let inside = (x == 6 || x == 8) && (y == 0 || y == 2);
            let expected = if inside { [200, 10, 20] } else { [1, 2, 3] };
            assert_eq!(&samples[i..i + 3], &expected, "pixel ({}, {})", x, y);
        }
    }
}

#[test]
fn generate_cantor_skips_a_square_without_area() {
    let mut canvas = Canvas::filled(9, 9, PAPER).unwrap();
    let flat = Rect { x: 0, y: 0, size: 0, denom: 1 };
    generate_cantor(&mut canvas, flat, 3, 3, &unit_view(9, 9), &ColorPolicy::Fixed(RED));
    expect_box(&canvas.into_raw(), 9, 9, (0, 0), (0, 0));
}

#[test]
fn generate_cantor_colours_by_the_levels_left() {
    // one level left of four: the squares are drawn at depth 4 - 0 after one division
    let mut canvas = Canvas::filled(9, 9, PAPER).unwrap();
    generate_cantor(&mut canvas, Rect::unit(), 1, 4, &unit_view(9, 9), &ColorPolicy::DepthGradient);
    let samples = canvas.into_raw();
    assert_eq!(&samples[0..3], &[255, 80, 230]);
    // no level left of four, drawn at once: depth 4 of 4 as well
    let mut canvas = Canvas::filled(9, 9, PAPER).unwrap();
    generate_cantor(&mut canvas, Rect::unit(), 0, 4, &unit_view(9, 9), &ColorPolicy::DepthGradient);
    assert_eq!(&canvas.into_raw()[0..3], &[255, 80, 230]);
    // three levels left of four on three pixels: division stops after two
    // levels with one to spare, at depth 3
    let mut canvas = Canvas::filled(3, 3, PAPER).unwrap();
    generate_cantor(&mut canvas, Rect::unit(), 3, 4, &unit_view(3, 3), &ColorPolicy::DepthGradient);
    assert_eq!(&canvas.into_raw()[0..3], &[203, 110, 217]);
}
