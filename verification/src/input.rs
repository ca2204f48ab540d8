//! The per-frame input snapshot and its reduction to viewport mutations.
//!
//! Once per frame the external collaborator drains its event queues into a
//! [`FrameInput`]: an order-preserving list of scroll events, an
//! order-preserving list of pointer-motion deltas, the pointer-button and
//! key states, and the cursor position. [`reduce`] folds that snapshot into
//! the viewport, in the fixed order scrolls, then drag motion, then depth
//! keys, and reports whether anything changed.

use vstd::prelude::*;

use crate::fixed::MAX_DIM;
use crate::viewport::Viewport;

verus! {

/// Unit tag of a scroll event. Only line-granularity scrolling is
/// supported; a pixel-granularity event is reported as
/// [`InputError::UnsupportedUnit`] rather than silently ignored.
#[derive(Clone, Copy, PartialEq, Eq, Structural, Debug)]
pub enum ScrollUnit {
    Line,
    Pixel,
}

/// The explicit failure a frame of input can surface.
#[derive(Clone, Copy, PartialEq, Eq, Structural, Debug)]
pub enum InputError {
    /// A scroll event carried pixel granularity, which this view does not
    /// support.
    UnsupportedUnit,
}

/// One scroll event: a signed amount in fixed-point line units
/// (`fixed::SCALE` is one line step), and its granularity tag.
#[derive(Clone, Copy, PartialEq, Eq, Structural, Debug)]
pub struct ScrollEvent {
    pub amount: i64,
    pub unit: ScrollUnit,
}

/// One pointer-motion event: a delta in whole pixels per axis.
#[derive(Clone, Copy, PartialEq, Eq, Structural, Debug)]
pub struct MotionEvent {
    pub dx: i64,
    pub dy: i64,
}

/// Everything one frame of raw input amounts to. Consumed once and
/// discarded; nothing of it is retained across frames.
pub struct FrameInput {
    /// Whether the primary pointer button is held (dragging pans).
    pub primary_pressed: bool,
    /// Cursor position in buffer pixels, the anchor of a zoom.
    pub cursor_x: usize,
    pub cursor_y: usize,
    /// Scroll events of the frame, oldest first.
    pub scrolls: Vec<ScrollEvent>,
    /// Pointer-motion deltas of the frame, oldest first.
    pub motions: Vec<MotionEvent>,
    /// Key state of the two depth actions.
    pub increase_depth: bool,
    pub decrease_depth: bool,
}

/// The viewport, the changed flag and the unsupported flag after the
/// scroll events are folded in, oldest first, each a cursor-anchored zoom.
/// A pixel-unit event stops the fold and raises the unsupported flag,
/// leaving the mutations of the events before it in place.
pub open spec fn scrolls_applied(
    v: Viewport,
    evs: Seq<ScrollEvent>,
    cx: int,
    cy: int,
    bw: int,
    bh: int,
) -> (Viewport, bool, bool)
    decreases evs.len(),
{
    if evs.len() == 0 {
        (v, false, false)
    } else if evs[0].unit is Pixel {
        (v, false, true)
    } else {
        let v1 = v.anchored_zoom(evs[0].amount as int, cx, cy, bw, bh);
        let rest = scrolls_applied(v1, evs.subrange(1, evs.len() as int), cx, cy, bw, bh);
        (rest.0, (v1 != v) || rest.1, rest.2)
    }
}

/// The viewport and the changed flag after the motion deltas are folded
/// in, oldest first, each a pan.
pub open spec fn motions_applied(v: Viewport, evs: Seq<MotionEvent>, bw: int, bh: int) -> (
    Viewport,
    bool,
)
    decreases evs.len(),
{
    if evs.len() == 0 {
        (v, false)
    } else {
        let v1 = v.panned(evs[0].dx as int, evs[0].dy as int, bw, bh);
        let rest = motions_applied(v1, evs.subrange(1, evs.len() as int), bw, bh);
        (rest.0, (v1 != v) || rest.1)
    }
}

/// The viewport after the depth keys are applied: the increase key wins
/// over the decrease key when both are down.
pub open spec fn keys_applied(v: Viewport, increase: bool, decrease: bool) -> Viewport {
    if increase {
        v.depth_adjusted(true)
    } else if decrease {
        v.depth_adjusted(false)
    } else {
        v
    }
}

/// The whole frame reduction: scrolls, then drag motion (only while the
/// primary button is held), then the depth keys. Yields the new viewport,
/// whether anything changed, and whether a pixel-unit scroll cut the frame
/// short.
pub open spec fn reduced(v: Viewport, input: FrameInput, bw: int, bh: int) -> (
    Viewport,
    bool,
    bool,
) {
    let s = scrolls_applied(v, input.scrolls@, input.cursor_x as int, input.cursor_y as int, bw, bh);
    if s.2 {
        (s.0, s.1, true)
    } else {
        let m = if input.primary_pressed {
            motions_applied(s.0, input.motions@, bw, bh)
        } else {
            (s.0, false)
        };
        let k = keys_applied(m.0, input.increase_depth, input.decrease_depth);
        (k, s.1 || m.1 || (k != m.0), false)
    }
}

/// Folds one frame of input into the viewport: every scroll event as a
/// cursor-anchored zoom, then every motion delta as a pan while the
/// primary button is held, then the depth keys. Returns whether the
/// viewport changed, or the explicit error as soon as a pixel-unit scroll
/// event is met (mutations of the events before it stand; the caller
/// decides whether to go on).
#[verifier::loop_isolation(false)]
pub fn reduce(input: &FrameInput, v: &mut Viewport, buffer_width: usize, buffer_height: usize) -> (r: Result<
    bool,
    InputError,
>)
    requires
        old(v).wf(),
        input.cursor_x < buffer_width <= MAX_DIM,
        input.cursor_y < buffer_height <= MAX_DIM,
    ensures
        final(v).wf(),
        *final(v) == reduced(*old(v), *input, buffer_width as int, buffer_height as int).0,
        (r is Err) == reduced(*old(v), *input, buffer_width as int, buffer_height as int).2,
        r is Err ==> r == Err::<bool, InputError>(InputError::UnsupportedUnit),
        r matches Ok(changed) ==> changed == reduced(
            *old(v),
            *input,
            buffer_width as int,
            buffer_height as int,
        ).1,
{
    let ghost v0 = *v;
    let ghost cx = input.cursor_x as int;
    let ghost cy = input.cursor_y as int;
    let ghost bw = buffer_width as int;
    let ghost bh = buffer_height as int;
    let mut changed: bool = false;
    let mut idx: usize = 0;
    proof {
        assert(input.scrolls@.subrange(0, input.scrolls@.len() as int) =~= input.scrolls@);
    }
    while idx < input.scrolls.len()
        invariant
            v.wf(),
            idx <= input.scrolls@.len(),
            ({
                let rest = scrolls_applied(
                    *v,
                    input.scrolls@.subrange(idx as int, input.scrolls@.len() as int),
                    cx,
                    cy,
                    bw,
                    bh,
                );
                scrolls_applied(v0, input.scrolls@, cx, cy, bw, bh) == ((
                    rest.0,
                    changed || rest.1,
                    rest.2,
                ))
            }),
        decreases input.scrolls@.len() - idx,
    {
        proof {
            let evs = input.scrolls@.subrange(idx as int, input.scrolls@.len() as int);
            assert(evs[0] == input.scrolls@[idx as int]);
            assert(evs.subrange(1, evs.len() as int) =~= input.scrolls@.subrange(
                idx as int + 1,
                input.scrolls@.len() as int,
            ));
        }
        let ev = input.scrolls[idx];
        match ev.unit {
            ScrollUnit::Pixel => {
                return Err(InputError::UnsupportedUnit);
            },
            ScrollUnit::Line => {
                let res = v.zoom_at_cursor(
                    ev.amount,
                    ScrollUnit::Line,
                    input.cursor_x,
                    input.cursor_y,
                    buffer_width,
                    buffer_height,
                );
                if let Ok(b) = res {
                    changed = changed || b;
                }
            },
        }
        idx = idx + 1;
    }
    let mut t: usize = 0;
    if input.primary_pressed {
        proof {
            assert(input.motions@.subrange(0, input.motions@.len() as int) =~= input.motions@);
        }
        while t < input.motions.len()
            invariant
                v.wf(),
                t <= input.motions@.len(),
                ({
                    let s = scrolls_applied(v0, input.scrolls@, cx, cy, bw, bh);
                    let whole = motions_applied(s.0, input.motions@, bw, bh);
                    let rest = motions_applied(
                        *v,
                        input.motions@.subrange(t as int, input.motions@.len() as int),
                        bw,
                        bh,
                    );
                    rest.0 == whole.0 && ((changed || rest.1) == (s.1 || whole.1))
                }),
            decreases input.motions@.len() - t,
        {
            proof {
                let evs = input.motions@.subrange(t as int, input.motions@.len() as int);
                assert(evs[0] == input.motions@[t as int]);
                assert(evs.subrange(1, evs.len() as int) =~= input.motions@.subrange(
                    t as int + 1,
                    input.motions@.len() as int,
                ));
            }
            let e = input.motions[t];
            let b = v.pan(e.dx, e.dy, buffer_width, buffer_height);
            changed = changed || b;
            t = t + 1;
        }
    }
    if input.increase_depth {
        let b = v.adjust_depth(true);
        changed = changed || b;
    } else if input.decrease_depth {
        let b = v.adjust_depth(false);
        changed = changed || b;
    }
    Ok(changed)
}

} // verus!
