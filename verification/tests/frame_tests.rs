use mandelbrot::fixed::SCALE;
use mandelbrot::frame::process_frame;
use mandelbrot::input::{reduce, FrameInput, InputError, MotionEvent, ScrollEvent, ScrollUnit};
use mandelbrot::render::{blank_buffer, render_sequential};
use mandelbrot::viewport::Viewport;

fn quiet_input() -> FrameInput {
    FrameInput {
        primary_pressed: false,
        cursor_x: 0,
        cursor_y: 0,
        scrolls: Vec::new(),
        motions: Vec::new(),
        increase_depth: false,
        decrease_depth: false,
    }
}

#[test]
fn empty_frame_changes_nothing() {
    let mut v = Viewport::new(32, 24);
    let before = v;
    let r = reduce(&quiet_input(), &mut v, 32, 24);
    assert_eq!(r, Ok(false));
    assert_eq!(v, before);
}

#[test]
fn drag_while_pressed_pans() {
    let mut v = Viewport::new(800, 600);
    let mut input = quiet_input();
    input.primary_pressed = true;
    input.motions = vec![MotionEvent { dx: 10, dy: -5 }];
    let r = reduce(&input, &mut v, 800, 600);
    assert_eq!(r, Ok(true));
    assert_eq!(v.center_x, -2290649218);
    assert_eq!(v.center_y, 71582785);
}

#[test]
fn drag_applies_motion_events_in_order() {
    let mut one_by_one = Viewport::new(800, 600);
    one_by_one.pan(3, 4, 800, 600);
    one_by_one.pan(-1, 2, 800, 600);

    let mut v = Viewport::new(800, 600);
    let mut input = quiet_input();
    input.primary_pressed = true;
    input.motions = vec![MotionEvent { dx: 3, dy: 4 }, MotionEvent { dx: -1, dy: 2 }];
    let r = reduce(&input, &mut v, 800, 600);
    assert_eq!(r, Ok(true));
    assert_eq!(v, one_by_one);
}

#[test]
fn motion_without_button_is_ignored() {
    let mut v = Viewport::new(800, 600);
    let before = v;
    let mut input = quiet_input();
    input.motions = vec![MotionEvent { dx: 10, dy: -5 }];
    let r = reduce(&input, &mut v, 800, 600);
    assert_eq!(r, Ok(false));
    assert_eq!(v, before);
}

#[test]
fn pixel_scroll_event_surfaces_the_error_and_mutates_nothing() {
    let mut v = Viewport::new(800, 600);
    let before = v;
    let mut input = quiet_input();
    input.scrolls = vec![ScrollEvent { amount: SCALE, unit: ScrollUnit::Pixel }];
    let r = reduce(&input, &mut v, 800, 600);
    assert_eq!(r, Err(InputError::UnsupportedUnit));
    assert_eq!(v, before);
}

#[test]
fn pixel_event_after_line_event_keeps_the_earlier_zoom() {
    let mut expected = Viewport::new(800, 600);
    expected
        .zoom_at_cursor(SCALE, ScrollUnit::Line, 100, 50, 800, 600)
        .unwrap();

    let mut v = Viewport::new(800, 600);
    let mut input = quiet_input();
    input.cursor_x = 100;
    input.cursor_y = 50;
    input.scrolls = vec![
        ScrollEvent { amount: SCALE, unit: ScrollUnit::Line },
        ScrollEvent { amount: SCALE, unit: ScrollUnit::Pixel },
    ];
    let r = reduce(&input, &mut v, 800, 600);
    assert_eq!(r, Err(InputError::UnsupportedUnit));
    assert_eq!(v, expected);
}

#[test]
fn scroll_zooms_at_the_cursor() {
    let mut expected = Viewport::new(800, 600);
    expected
        .zoom_at_cursor(SCALE, ScrollUnit::Line, 200, 150, 800, 600)
        .unwrap();

    let mut v = Viewport::new(800, 600);
    let mut input = quiet_input();
    input.cursor_x = 200;
    input.cursor_y = 150;
    input.scrolls = vec![ScrollEvent { amount: SCALE, unit: ScrollUnit::Line }];
    let r = reduce(&input, &mut v, 800, 600);
    assert_eq!(r, Ok(true));
    assert_eq!(v, expected);
}

#[test]
fn increase_key_wins_over_decrease_key() {
    let mut v = Viewport::new(800, 600);
    let mut input = quiet_input();
    input.increase_depth = true;
    input.decrease_depth = true;
    let r = reduce(&input, &mut v, 800, 600);
    assert_eq!(r, Ok(true));
    assert_eq!(v.depth, 51);
}

#[test]
fn decrease_key_at_the_floor_changes_nothing() {
    let mut v = Viewport::new(800, 600);
    for _ in 0..100 {
        v.adjust_depth(false);
    }
    assert_eq!(v.depth, 2);
    let mut input = quiet_input();
    input.decrease_depth = true;
    let r = reduce(&input, &mut v, 800, 600);
    assert_eq!(r, Ok(false));
    assert_eq!(v.depth, 2);
}

#[test]
fn quiet_frame_skips_the_redraw() {
    let mut v = Viewport::new(16, 12);
    let mut buf = blank_buffer(16, 12);
    let untouched = buf.clone();
    let r = process_frame(&quiet_input(), &mut v, &mut buf, 16, 12);
    assert_eq!(r, Ok(false));
    assert_eq!(buf, untouched);
}

#[test]
fn changed_frame_renders_the_new_viewport() {
    let mut v = Viewport::new(16, 12);
    let mut buf = blank_buffer(16, 12);
    let mut input = quiet_input();
    input.increase_depth = true;
    let r = process_frame(&input, &mut v, &mut buf, 16, 12);
    assert_eq!(r, Ok(true));
    assert_eq!(v.depth, 51);
    let mut expected = blank_buffer(16, 12);
    render_sequential(&v, 16, 12, &mut expected);
    assert_eq!(buf, expected);
}

#[test]
fn erroneous_frame_leaves_the_buffer_alone() {
    let mut v = Viewport::new(16, 12);
    let mut buf = blank_buffer(16, 12);
    let untouched = buf.clone();
    let mut input = quiet_input();
    input.scrolls = vec![ScrollEvent { amount: SCALE, unit: ScrollUnit::Pixel }];
    let r = process_frame(&input, &mut v, &mut buf, 16, 12);
    assert_eq!(r, Err(InputError::UnsupportedUnit));
    assert_eq!(buf, untouched);
}
