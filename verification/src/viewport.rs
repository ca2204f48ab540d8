//! The viewport: the rectangular window onto the complex plane that is
//! currently rendered, and its mutation operations.
//!
//! A viewport holds a centre, a width and a height in fixed-point plane
//! units, and the iteration depth. The invariant [`Viewport::wf`] pins every
//! field into its representable band: extents stay within
//! `[MIN_EXTENT, MAX_EXTENT]` (so zooming can never drive them to zero or
//! out of range), the centre stays within `MAX_CENTER` per axis, and the
//! depth never falls below 2. Every mutation states the new value exactly
//! and returns whether the viewport actually changed.

use vstd::prelude::*;
use vstd::arithmetic::div_mod::{lemma_div_is_ordered, lemma_div_is_ordered_by_denominator};

use crate::fixed::SCALE;
use crate::fixed::MAX_DIM;
use crate::fixed::MIN_EXTENT;
use crate::fixed::MAX_EXTENT;
use crate::fixed::MAX_CENTER;
use crate::fixed::fp_div_trunc;
use crate::fixed::div_trunc;
use crate::fixed::lemma_div_shrinks;
use crate::fixed::lemma_abs_mul_bounds;
use crate::input::ScrollUnit;
use crate::input::InputError;
use crate::mapper::{plane_x, plane_y, pixel_to_plane};

verus! {

/// A centre coordinate pushed back into the representable band.
pub open spec fn clamp_center(c: int) -> int {
    if c < -MAX_CENTER {
        -MAX_CENTER as int
    } else if c > MAX_CENTER {
        MAX_CENTER as int
    } else {
        c
    }
}

/// An extent pushed back into the representable band; in particular a
/// degenerate (zero or negative) extent is lifted to `MIN_EXTENT`.
pub open spec fn clamp_extent(w: int) -> int {
    if w < MIN_EXTENT {
        MIN_EXTENT as int
    } else if w > MAX_EXTENT {
        MAX_EXTENT as int
    } else {
        w
    }
}

fn clamp_center_exec(c: i128) -> (r: i64)
    ensures
        r == clamp_center(c as int),
{
    if c < -(MAX_CENTER as i128) {
        -MAX_CENTER
    } else if c > MAX_CENTER as i128 {
        MAX_CENTER
    } else {
        c as i64
    }
}

fn clamp_extent_exec(w: i128) -> (r: i64)
    ensures
        r == clamp_extent(w as int),
{
    if w < MIN_EXTENT as i128 {
        MIN_EXTENT
    } else if w > MAX_EXTENT as i128 {
        MAX_EXTENT
    } else {
        w as i64
    }
}

/// The window onto the complex plane: centre and extents in fixed-point
/// plane units (see [`crate::fixed`]), and the escape-time iteration cap.
#[derive(Clone, Copy, PartialEq, Eq, Structural, Debug)]
pub struct Viewport {
    pub center_x: i64,
    pub center_y: i64,
    pub width: i64,
    pub height: i64,
    pub depth: u32,
}

impl Viewport {
    /// Well-formedness: extents and centre in their representable bands,
    /// depth at least 2. Established by [`Viewport::new`] and preserved by
    /// every mutation.
    pub open spec fn wf(self) -> bool {
        &&& MIN_EXTENT <= self.width <= MAX_EXTENT
        &&& MIN_EXTENT <= self.height <= MAX_EXTENT
        &&& -MAX_CENTER <= self.center_x <= MAX_CENTER
        &&& -MAX_CENTER <= self.center_y <= MAX_CENTER
        &&& self.depth >= 2
    }

    /// The startup viewport for a buffer of the given pixel size: centre
    /// `(-0.5, 0)`, height `2.0`, width `2.0` times the aspect ratio,
    /// depth 50.
    pub fn new(buffer_width: usize, buffer_height: usize) -> (v: Viewport)
        requires
            1 <= buffer_width <= MAX_DIM,
            1 <= buffer_height <= MAX_DIM,
        ensures
            v.wf(),
            v.center_x == -(SCALE / 2),
            v.center_y == 0,
            v.width == 2 * SCALE * buffer_width / (buffer_height as int),
            v.height == 2 * SCALE,
            v.depth == 50,
    {
        let doubled: u64 = 2 * (SCALE as u64) * (buffer_width as u64);
        let w: u64 = doubled / (buffer_height as u64);
        proof {
            assert(2 * SCALE <= 2 * SCALE * buffer_width) by (nonlinear_arith)
                requires
                    buffer_width >= 1,
            ;
            lemma_div_is_ordered(2 * SCALE as int, 2 * SCALE * buffer_width, buffer_height as int);
            lemma_div_is_ordered_by_denominator(2 * SCALE as int, buffer_height as int, MAX_DIM as int);
            assert(2 * SCALE as int / MAX_DIM as int == 524288);
            lemma_div_shrinks(2 * SCALE * buffer_width, buffer_height as int);
        }
        Viewport {
            center_x: -2147483648,
            center_y: 0,
            width: w as i64,
            height: 2 * SCALE,
            depth: 50,
        }
    }

    /// The viewport after a depth adjustment: up by one (saturating at the
    /// type's ceiling), or down by one but never below the floor of 2.
    pub open spec fn depth_adjusted(self, increase: bool) -> Viewport {
        if increase {
            if self.depth < u32::MAX {
                Viewport { depth: (self.depth + 1) as u32, ..self }
            } else {
                self
            }
        } else {
            if self.depth > 2 {
                Viewport { depth: (self.depth - 1) as u32, ..self }
            } else {
                self
            }
        }
    }

    /// Raise or lower the iteration depth by one. Lowering stops at the
    /// floor of 2; raising saturates at the type's ceiling. Returns whether
    /// the depth changed.
    pub fn adjust_depth(&mut self, increase: bool) -> (changed: bool)
        requires
            old(self).wf(),
        ensures
            final(self).wf(),
            *final(self) == old(self).depth_adjusted(increase),
            changed == (final(self).depth != old(self).depth),
    {
        if increase {
            if self.depth < u32::MAX {
                self.depth = self.depth + 1;
                true
            } else {
                false
            }
        } else {
            if self.depth > 2 {
                self.depth = self.depth - 1;
                true
            } else {
                false
            }
        }
    }

    /// The viewport after a pan by a pixel delta: the centre moves by the
    /// delta times the plane step of one pixel, against the drag direction,
    /// clamped into the representable band.
    pub open spec fn panned(self, dx: int, dy: int, bw: int, bh: int) -> Viewport {
        Viewport {
            center_x: clamp_center(self.center_x - dx * (self.width as int / bw)) as i64,
            center_y: clamp_center(self.center_y - dy * (self.height as int / bh)) as i64,
            ..self
        }
    }

    /// Pan by a pointer delta of whole pixels, for a buffer of the given
    /// size: content follows the cursor, so the centre moves opposite to
    /// the delta. Returns whether the viewport changed.
    pub fn pan(&mut self, dx: i64, dy: i64, buffer_width: usize, buffer_height: usize) -> (changed: bool)
        requires
            old(self).wf(),
            1 <= buffer_width <= MAX_DIM,
            1 <= buffer_height <= MAX_DIM,
        ensures
            final(self).wf(),
            *final(self) == old(self).panned(dx as int, dy as int, buffer_width as int, buffer_height as int),
            changed == (*final(self) != *old(self)),
    {
        let prev = *self;
        let step_x: i64 = ((self.width as u64) / (buffer_width as u64)) as i64;
        let step_y: i64 = ((self.height as u64) / (buffer_height as u64)) as i64;
        proof {
            lemma_div_shrinks(self.width as int, buffer_width as int);
            lemma_div_shrinks(self.height as int, buffer_height as int);
            lemma_abs_mul_bounds(dx as int, step_x as int, 0x8000000000000000, MAX_EXTENT as int);
            lemma_abs_mul_bounds(dy as int, step_y as int, 0x8000000000000000, MAX_EXTENT as int);
        }
        let moved_x: i128 = (self.center_x as i128) - (dx as i128) * (step_x as i128);
        let moved_y: i128 = (self.center_y as i128) - (dy as i128) * (step_y as i128);
        self.center_x = clamp_center_exec(moved_x);
        self.center_y = clamp_center_exec(moved_y);
        !(*self == prev)
    }

    /// The viewport after a line-unit zoom: each extent shrinks by the
    /// scroll amount times a tenth of itself (truncated toward zero), then
    /// is clamped into the representable band. A positive amount zooms in.
    pub open spec fn zoomed(self, amount: int) -> Viewport {
        Viewport {
            width: clamp_extent(self.width - fp_div_trunc(amount * self.width, 10 * SCALE)) as i64,
            height: clamp_extent(self.height - fp_div_trunc(amount * self.height, 10 * SCALE)) as i64,
            ..self
        }
    }

    /// Zoom by a scroll amount (fixed-point line units) about the centre.
    /// Pixel-unit scrolling is unsupported: it returns the explicit error
    /// and leaves the viewport untouched. On line units, returns whether
    /// the viewport changed.
    pub fn zoom(&mut self, amount: i64, unit: ScrollUnit) -> (r: Result<bool, InputError>)
        requires
            old(self).wf(),
        ensures
            final(self).wf(),
            unit is Pixel ==> r == Err::<bool, InputError>(InputError::UnsupportedUnit)
                && *final(self) == *old(self),
            unit is Line ==> *final(self) == old(self).zoomed(amount as int)
                && r == Ok::<bool, InputError>(*final(self) != *old(self)),
    {
        match unit {
            ScrollUnit::Pixel => Err(InputError::UnsupportedUnit),
            ScrollUnit::Line => {
                let prev = *self;
                proof {
                    lemma_abs_mul_bounds(amount as int, self.width as int, 0x8000000000000000, MAX_EXTENT as int);
                    lemma_abs_mul_bounds(amount as int, self.height as int, 0x8000000000000000, MAX_EXTENT as int);
                }
                let shrink_w: i128 = div_trunc((amount as i128) * (self.width as i128), 10 * (SCALE as u64));
                let shrink_h: i128 = div_trunc((amount as i128) * (self.height as i128), 10 * (SCALE as u64));
                self.width = clamp_extent_exec((self.width as i128) - shrink_w);
                self.height = clamp_extent_exec((self.height as i128) - shrink_h);
                Ok(!(*self == prev))
            },
        }
    }

    /// The viewport after a cursor-anchored zoom: the extents change as in
    /// [`Viewport::zoomed`], then the centre shifts by the difference
    /// between the plane point under the cursor before the resize and the
    /// one under it after (computed with the old centre), so that point
    /// stays put — up to the centre clamp.
    pub open spec fn anchored_zoom(self, amount: int, cx: int, cy: int, bw: int, bh: int) -> Viewport {
        let vz = self.zoomed(amount);
        let before_x = plane_x(self, cx, bw);
        let before_y = plane_y(self, cy, bh);
        let after_x = plane_x(vz, cx, bw);
        let after_y = plane_y(vz, cy, bh);
        Viewport {
            center_x: clamp_center(vz.center_x + before_x - after_x) as i64,
            center_y: clamp_center(vz.center_y + before_y - after_y) as i64,
            ..vz
        }
    }

    /// Zoom anchored at the cursor pixel: the plane point under the cursor
    /// is recorded, the extents are resized as in [`Viewport::zoom`], and
    /// the centre is shifted so that point stays under the cursor.
    /// Pixel-unit scrolling is unsupported: it returns the explicit error
    /// and leaves the viewport untouched.
    pub fn zoom_at_cursor(
        &mut self,
        amount: i64,
        unit: ScrollUnit,
        cursor_x: usize,
        cursor_y: usize,
        buffer_width: usize,
        buffer_height: usize,
    ) -> (r: Result<bool, InputError>)
        requires
            old(self).wf(),
            cursor_x < buffer_width <= MAX_DIM,
            cursor_y < buffer_height <= MAX_DIM,
        ensures
            final(self).wf(),
            unit is Pixel ==> r == Err::<bool, InputError>(InputError::UnsupportedUnit)
                && *final(self) == *old(self),
            unit is Line ==> *final(self) == old(self).anchored_zoom(
                amount as int,
                cursor_x as int,
                cursor_y as int,
                buffer_width as int,
                buffer_height as int,
            ) && r == Ok::<bool, InputError>(*final(self) != *old(self)),
    {
        match unit {
            ScrollUnit::Pixel => Err(InputError::UnsupportedUnit),
            ScrollUnit::Line => {
                let prev = *self;
                let before = pixel_to_plane(cursor_x, cursor_y, self, buffer_width, buffer_height);
                let _ = self.zoom(amount, ScrollUnit::Line);
                let after = pixel_to_plane(cursor_x, cursor_y, self, buffer_width, buffer_height);
                let shifted_x: i128 = (self.center_x as i128) + (before.0 as i128) - (after.0 as i128);
                let shifted_y: i128 = (self.center_y as i128) + (before.1 as i128) - (after.1 as i128);
                self.center_x = clamp_center_exec(shifted_x);
                self.center_y = clamp_center_exec(shifted_y);
                Ok(!(*self == prev))
            },
        }
    }
}

/// The viewport after `n` consecutive depth decreases.
pub open spec fn depth_decreased(v: Viewport, n: nat) -> Viewport
    decreases n,
{
    if n == 0 {
        v
    } else {
        depth_decreased(v, (n - 1) as nat).depth_adjusted(false)
    }
}

/// Law: however often the depth is decreased it never falls below the
/// floor of 2 — it loses one per call until it reaches the floor and sits
/// there — and nothing but the depth moves.
pub proof fn lemma_depth_floor(v: Viewport, n: nat)
    requires
        v.depth >= 2,
    ensures
        depth_decreased(v, n).depth >= 2,
        depth_decreased(v, n).depth == if v.depth - n >= 2 {
            v.depth - n
        } else {
            2int
        },
        depth_decreased(v, n) == (Viewport { depth: depth_decreased(v, n).depth, ..v }),
    decreases n,
{
    if n > 0 {
        lemma_depth_floor(v, (n - 1) as nat);
    }
}

/// Law: a cursor-anchored line-unit zoom keeps the plane point under the
/// cursor exactly fixed, whenever the shifted centre stays inside the
/// representable band (only the centre clamp can move the point).
pub proof fn lemma_zoom_anchor(v: Viewport, amount: int, cx: int, cy: int, bw: int, bh: int)
    requires
        v.wf(),
        0 <= cx < bw <= MAX_DIM,
        0 <= cy < bh <= MAX_DIM,
        -MAX_CENTER
            <= v.zoomed(amount).center_x + plane_x(v, cx, bw) - plane_x(v.zoomed(amount), cx, bw)
            <= MAX_CENTER,
        -MAX_CENTER
            <= v.zoomed(amount).center_y + plane_y(v, cy, bh) - plane_y(v.zoomed(amount), cy, bh)
            <= MAX_CENTER,
    ensures
        plane_x(v.anchored_zoom(amount, cx, cy, bw, bh), cx, bw) == plane_x(v, cx, bw),
        plane_y(v.anchored_zoom(amount, cx, cy, bw, bh), cy, bh) == plane_y(v, cy, bh),
{
    let vz = v.zoomed(amount);
    let va = v.anchored_zoom(amount, cx, cy, bw, bh);
    assert(va.width == vz.width && va.height == vz.height);
    assert(va.center_x == vz.center_x + plane_x(v, cx, bw) - plane_x(vz, cx, bw));
    assert(va.center_y == vz.center_y + plane_y(v, cy, bh) - plane_y(vz, cy, bh));
}

} // verus!
