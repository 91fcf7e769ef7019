use cantor_square::geometry::Coord;
use cantor_square::geometry::Rect;
use cantor_square::viewport::Anchor;
use cantor_square::viewport::Viewport;
use cantor_square::viewport::Zoom;

fn top_left(width: u32, height: u32, num: u32, den: u32) -> Viewport {
    Viewport::new(width, height, Zoom { num, den }, Anchor::TopLeft).unwrap()
}

#[test]
fn top_left_viewport_has_its_origin_at_zero() {
    let view = top_left(800, 600, 5, 2);
    assert_eq!(
        view,
        Viewport {
            origin_x: 0,
            origin_y: 0,
            view_size: 2,
            unit: 5,
            pixel_width: 800,
            pixel_height: 600,
        }
    );
}

#[test]
fn centred_viewport_puts_the_camera_in_the_middle() {
    // zoom 2 round (1/2, 1/4): the window is 1/2 wide, from (1/4, 0)
    let view = Viewport::new(
        100,
        100,
        Zoom { num: 2, den: 1 },
        Anchor::Center { x: 2, y: 1, denom: 4 },
    )
    .unwrap();
    assert_eq!(view.unit, 16);
    assert_eq!(view.view_size, 8);
    assert_eq!(view.origin_x, 4);
    assert_eq!(view.origin_y, 0);
    // the camera itself falls on the middle pixel
    let p = view.map_x(Coord { num: 2, den: 4 });
    assert_eq!(p.num, 50 * p.den);
    let q = view.map_y(Coord { num: 1, den: 4 });
    assert_eq!(q.num, 50 * q.den);
}

#[test]
fn viewport_needs_a_positive_zoom_and_a_window_within_the_limit() {
    assert!(Viewport::new(10, 10, Zoom { num: 0, den: 1 }, Anchor::TopLeft).is_none());
    assert!(Viewport::new(10, 10, Zoom { num: 1, den: 0 }, Anchor::TopLeft).is_none());
    assert!(Viewport::new(10, 10, Zoom { num: u32::MAX, den: u32::MAX }, Anchor::TopLeft).is_some());
    let zoom = Zoom { num: 1, den: 1 };
    assert!(Viewport::new(10, 10, zoom, Anchor::Center { x: 0, y: 0, denom: 0 }).is_none());
    assert!(Viewport::new(10, 10, zoom, Anchor::Center { x: 0, y: 0, denom: 1 << 45 }).is_some());
    assert!(Viewport::new(10, 10, zoom, Anchor::Center { x: 0, y: 0, denom: (1 << 45) + 1 })
        .is_none());
    // the origin may not leave the limit either
    assert!(Viewport::new(10, 10, zoom, Anchor::Center { x: 1 << 45, y: 0, denom: 1 }).is_some());
    assert!(Viewport::new(10, 10, zoom, Anchor::Center { x: (1 << 45) + 1, y: 0, denom: 1 })
        .is_none());
    assert!(Viewport::new(10, 10, zoom, Anchor::Center { x: 0, y: -(1 << 46), denom: 1 })
        .is_none());
    assert!(Viewport::new(10, 10, zoom, Anchor::Center { x: i64::MIN, y: i64::MAX, denom: u64::MAX })
        .is_none());
}

#[test]
fn top_left_viewport_maps_zero_to_zero_and_the_window_to_the_extent() {
    for (num, den) in [(1, 1), (3, 1), (1, 5), (7, 4), (u32::MAX, 3)] {
        let view = top_left(640, 480, num, den);
        let at_zero = view.map_x(Coord { num: 0, den: 1 });
        assert_eq!(at_zero.num, 0);
        assert!(at_zero.den > 0);
        assert_eq!(view.map_y(Coord { num: 0, den: 1 }).num, 0);
        // the window is den / num wide
        let size = Coord { num: den as i64, den: num as u64 };
        let across = view.map_x(size);
        assert_eq!(across.num, 640 * across.den);
        assert_eq!(across.floor(), 640);
        assert_eq!(across.ceil(), 640);
        let down = view.map_y(size);
        assert_eq!(down.num, 480 * down.den);
    }
}

#[test]
fn map_x_is_the_offset_over_the_window_times_the_width() {
    // window from 1/4 to 3/4, 300 pixels: 1/3 falls on (1/3 - 1/4) / (1/2) * 300 = 50
    let view = Viewport::new(
        300,
        200,
        Zoom { num: 2, den: 1 },
        Anchor::Center { x: 1, y: 1, denom: 2 },
    )
    .unwrap();
    let p = view.map_x(Coord { num: 1, den: 3 });
    assert_eq!(p.num, 50 * p.den);
    // and on row (1/3 - 1/4) / (1/2) * 200 = 33 1/3
    let q = view.map_y(Coord { num: 1, den: 3 });
    assert_eq!(3 * q.num, 100 * q.den);
    assert_eq!(q.floor(), 33);
    assert_eq!(q.ceil(), 34);
    // left of the window the position is negative
    let r = view.map_x(Coord { num: 0, den: 1 });
    assert_eq!(r.num, -150 * r.den);
    assert_eq!(r.floor(), -150);
}

#[test]
fn a_square_is_seen_when_it_touches_the_window() {
    // window from 0 to 1/3
    let view = top_left(30, 30, 3, 1);
    assert!(view.is_visible(&Rect::unit()));
    assert!(view.is_visible(&Rect { x: 0, y: 0, size: 1, denom: 3 }));
    // touching the right edge counts
    assert!(view.is_visible(&Rect { x: 1, y: 0, size: 1, denom: 3 }));
    assert!(!view.is_visible(&Rect { x: 2, y: 0, size: 1, denom: 3 }));
    assert!(!view.is_visible(&Rect { x: 0, y: 2, size: 1, denom: 3 }));
    // touching the left and the top edge counts
    assert!(view.is_visible(&Rect { x: -1, y: -1, size: 1, denom: 3 }));
    assert!(!view.is_visible(&Rect { x: -2, y: 0, size: 1, denom: 3 }));
    assert!(!view.is_visible(&Rect { x: 0, y: -5, size: 4, denom: 3 }));
    assert!(!view.is_visible(&Rect { x: 4, y: 0, size: 1, denom: 9 }));
    assert!(view.is_visible(&Rect { x: 3, y: 3, size: 1, denom: 9 }));
}

#[test]
fn a_square_is_resolved_from_one_pixel_column_on() {
    let view = top_left(27, 1000, 1, 1);
    assert!(view.is_resolved(&Rect { x: 0, y: 0, size: 1, denom: 27 }));
    assert!(!view.is_resolved(&Rect { x: 0, y: 0, size: 1, denom: 28 }));
    assert!(view.is_resolved(&Rect { x: 0, y: 0, size: 2, denom: 54 }));
    assert!(!view.is_resolved(&Rect { x: 0, y: 0, size: 0, denom: 1 }));
    // zoom counts: three times nearer, a cell of 1/81 is a pixel wide
    let near = top_left(27, 1000, 3, 1);
    assert!(near.is_resolved(&Rect { x: 0, y: 0, size: 1, denom: 81 }));
    assert!(!near.is_resolved(&Rect { x: 0, y: 0, size: 1, denom: 82 }));
    // the height does not count
    let flat = top_left(27, 1, 1, 1);
    assert!(flat.is_resolved(&Rect { x: 0, y: 0, size: 1, denom: 27 }));
}
