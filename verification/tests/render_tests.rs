use mandelbrot::fixed::SCALE;
use mandelbrot::input::ScrollUnit;
use mandelbrot::mapper::{pixel_to_plane, plane_to_pixel};
use mandelbrot::render::{blank_buffer, fill_row, render, render_sequential};
use mandelbrot::viewport::Viewport;

#[test]
fn blank_buffer_has_fill_pattern() {
    let buf = blank_buffer(8, 6);
    assert_eq!(buf.len(), 8 * 6 * 4);
    for (n, b) in buf.iter().enumerate() {
        let expected = [100u8, 150, 200, 255][n % 4];
        assert_eq!(*b, expected);
    }
}

#[test]
fn row_partitioned_render_equals_sequential_render() {
    let v = Viewport::new(16, 12);
    let mut by_rows = blank_buffer(16, 12);
    render(&v, 16, 12, &mut by_rows);
    let mut by_pixels = blank_buffer(16, 12);
    render_sequential(&v, 16, 12, &mut by_pixels);
    assert_eq!(by_rows, by_pixels);
}

#[test]
fn render_equivalence_on_an_asymmetric_buffer() {
    let mut v = Viewport::new(11, 7);
    v.adjust_depth(true); // depth 51, off the default
    let mut by_rows = blank_buffer(11, 7);
    render(&v, 11, 7, &mut by_rows);
    let mut by_pixels = blank_buffer(11, 7);
    render_sequential(&v, 11, 7, &mut by_pixels);
    assert_eq!(by_rows, by_pixels);
}

#[test]
fn rows_are_the_frame_rows() {
    let v = Viewport::new(16, 12);
    let mut frame = blank_buffer(16, 12);
    render(&v, 16, 12, &mut frame);
    for j in 0..12usize {
        let row = fill_row(&v, j, 16, 12);
        assert_eq!(row.len(), 16 * 4);
        assert_eq!(&frame[j * 16 * 4..(j + 1) * 16 * 4], &row[..]);
    }
}

#[test]
fn center_pixel_of_default_view_is_black() {
    // The centre pixel sees exactly the plane point (-0.5, 0), which lies
    // inside the set, so it is coloured opaque black.
    let v = Viewport::new(16, 12);
    let mut frame = blank_buffer(16, 12);
    render(&v, 16, 12, &mut frame);
    let base = (6 * 16 + 8) * 4;
    assert_eq!(&frame[base..base + 4], &[0u8, 0, 0, 255]);
}

#[test]
fn pixel_round_trip_is_within_one_pixel() {
    let v = Viewport::new(800, 600);
    for (i, j) in [(0usize, 0usize), (799, 599), (370, 123), (1, 598)] {
        let p = pixel_to_plane(i, j, &v, 800, 600);
        let q = plane_to_pixel(p.0, p.1, &v, 800, 600);
        assert!((q.0 - i as i64).abs() <= 1);
        assert!((q.1 - j as i64).abs() <= 1);
    }
}

#[test]
fn pixel_round_trip_after_deep_zoom() {
    let mut v = Viewport::new(640, 480);
    for _ in 0..40 {
        v.zoom_at_cursor(SCALE, ScrollUnit::Line, 320, 240, 640, 480)
            .unwrap();
    }
    for (i, j) in [(0usize, 0usize), (639, 479), (320, 240)] {
        let p = pixel_to_plane(i, j, &v, 640, 480);
        let q = plane_to_pixel(p.0, p.1, &v, 640, 480);
        assert!((q.0 - i as i64).abs() <= 1);
        assert!((q.1 - j as i64).abs() <= 1);
    }
}
