use mandelbrot::fixed::{MAX_EXTENT, MIN_EXTENT, SCALE};
use mandelbrot::input::{InputError, ScrollUnit};
use mandelbrot::mapper::pixel_to_plane;
use mandelbrot::viewport::Viewport;

#[test]
fn new_viewport_defaults() {
    let v = Viewport::new(800, 600);
    assert_eq!(v.center_x, -2147483648); // -0.5 at scale
    assert_eq!(v.center_y, 0);
    assert_eq!(v.height, 2 * SCALE);
    assert_eq!(v.width, 11453246122); // 2 * aspect ratio at scale
    assert_eq!(v.depth, 50);
}

#[test]
fn new_viewport_square_window() {
    let v = Viewport::new(512, 512);
    assert_eq!(v.width, 2 * SCALE);
    assert_eq!(v.height, 2 * SCALE);
}

#[test]
fn depth_floor_after_500_decreases() {
    let mut v = Viewport::new(800, 600);
    assert_eq!(v.depth, 50);
    for _ in 0..500 {
        v.adjust_depth(false);
    }
    assert_eq!(v.depth, 2);
}

#[test]
fn depth_decrease_stops_changing_at_floor() {
    let mut v = Viewport::new(800, 600);
    for _ in 0..48 {
        assert!(v.adjust_depth(false));
    }
    assert_eq!(v.depth, 2);
    assert!(!v.adjust_depth(false));
    assert_eq!(v.depth, 2);
}

#[test]
fn depth_increase() {
    let mut v = Viewport::new(800, 600);
    assert!(v.adjust_depth(true));
    assert_eq!(v.depth, 51);
    assert!(v.adjust_depth(false));
    assert_eq!(v.depth, 50);
}

#[test]
fn pan_moves_center_against_delta() {
    let mut v = Viewport::new(800, 600);
    let changed = v.pan(10, -5, 800, 600);
    assert!(changed);
    assert_eq!(v.center_x, -2290649218);
    assert_eq!(v.center_y, 71582785);
    assert_eq!(v.width, 11453246122);
    assert_eq!(v.height, 8589934592);
}

#[test]
fn pan_zero_delta_changes_nothing() {
    let mut v = Viewport::new(800, 600);
    let before = v;
    let changed = v.pan(0, 0, 800, 600);
    assert!(!changed);
    assert_eq!(v, before);
}

#[test]
fn zoom_line_shrinks_extents_by_a_tenth() {
    let mut v = Viewport::new(800, 600);
    let r = v.zoom(SCALE, ScrollUnit::Line);
    assert_eq!(r, Ok(true));
    assert_eq!(v.width, 10307921510);
    assert_eq!(v.height, 7730941133);
    assert_eq!(v.center_x, -2147483648);
    assert_eq!(v.center_y, 0);
}

#[test]
fn zoom_negative_amount_grows_extents() {
    let mut v = Viewport::new(512, 512);
    let r = v.zoom(-SCALE, ScrollUnit::Line);
    assert_eq!(r, Ok(true));
    assert!(v.width > 2 * SCALE);
    assert!(v.height > 2 * SCALE);
}

#[test]
fn zoom_pixel_unit_is_unsupported_and_mutates_nothing() {
    let mut v = Viewport::new(800, 600);
    let before = v;
    let r = v.zoom(SCALE, ScrollUnit::Pixel);
    assert_eq!(r, Err(InputError::UnsupportedUnit));
    assert_eq!(v, before);
}

#[test]
fn zoom_at_cursor_pixel_unit_is_unsupported_and_mutates_nothing() {
    let mut v = Viewport::new(800, 600);
    let before = v;
    let r = v.zoom_at_cursor(SCALE, ScrollUnit::Pixel, 100, 200, 800, 600);
    assert_eq!(r, Err(InputError::UnsupportedUnit));
    assert_eq!(v, before);
}

#[test]
fn zoom_in_clamps_at_minimum_extent() {
    let mut v = Viewport::new(800, 600);
    // A whole-extent shrink would drive the extents to zero; the clamp
    // lifts them to the floor instead.
    let r = v.zoom(10 * SCALE, ScrollUnit::Line);
    assert_eq!(r, Ok(true));
    assert_eq!(v.width, MIN_EXTENT);
    assert_eq!(v.height, MIN_EXTENT);
    // At the floor the same zoom no longer changes anything.
    let r2 = v.zoom(10 * SCALE, ScrollUnit::Line);
    assert_eq!(r2, Ok(false));
    assert_eq!(v.width, MIN_EXTENT);
}

#[test]
fn zoom_out_clamps_at_maximum_extent() {
    let mut v = Viewport::new(800, 600);
    for _ in 0..200 {
        v.zoom(-10 * SCALE, ScrollUnit::Line).unwrap();
    }
    assert_eq!(v.width, MAX_EXTENT);
    assert_eq!(v.height, MAX_EXTENT);
}

#[test]
fn zoom_at_cursor_keeps_cursor_point_fixed() {
    let mut v = Viewport::new(800, 600);
    let cursor = (200usize, 150usize);
    let before = pixel_to_plane(cursor.0, cursor.1, &v, 800, 600);
    let r = v.zoom_at_cursor(SCALE, ScrollUnit::Line, cursor.0, cursor.1, 800, 600);
    assert_eq!(r, Ok(true));
    let after = pixel_to_plane(cursor.0, cursor.1, &v, 800, 600);
    assert_eq!(before, after);
}

#[test]
fn zoom_at_cursor_anchor_holds_across_several_zooms() {
    let mut v = Viewport::new(640, 480);
    let cursor = (17usize, 433usize);
    let anchor = pixel_to_plane(cursor.0, cursor.1, &v, 640, 480);
    for amount in [SCALE, SCALE, -SCALE / 2, 3 * SCALE] {
        v.zoom_at_cursor(amount, ScrollUnit::Line, cursor.0, cursor.1, 640, 480)
            .unwrap();
        let now = pixel_to_plane(cursor.0, cursor.1, &v, 640, 480);
        assert_eq!(anchor, now);
    }
}
