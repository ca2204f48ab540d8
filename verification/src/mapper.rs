//! The coordinate mapper between buffer pixels and plane points.
//!
//! A buffer pixel `(i, j)` of a `bw` by `bh` buffer sees the plane point
//! whose offset from the viewport's lower corner is `i` (or `j`) times the
//! per-pixel plane step. The forward map multiplies before dividing, so its
//! rounding error is below one fixed-point step; the inverse map divides
//! the scaled pixel offset back out, truncating toward zero. The round-trip
//! law [`lemma_round_trip`] shows the two maps agree to within one pixel.

use vstd::prelude::*;
use vstd::arithmetic::div_mod::{
    lemma_div_pos_is_pos,
    lemma_fundamental_div_mod,
    lemma_multiply_divide_le,
};

use crate::fixed::MAX_DIM;
use crate::fixed::MAX_EXTENT;
use crate::fixed::MAX_COORD;
use crate::fixed::fp_div_trunc;
use crate::fixed::div_trunc;
use crate::fixed::lemma_abs_mul_bounds;
use crate::fixed::lemma_div_trunc_bounded;
use crate::viewport::Viewport;

verus! {

/// The plane coordinate of the viewport's left edge.
pub open spec fn x_min(v: Viewport) -> int {
    v.center_x - v.width as int / 2
}

/// The plane coordinate of the viewport's lower edge.
pub open spec fn y_min(v: Viewport) -> int {
    v.center_y - v.height as int / 2
}

/// The plane coordinate seen by pixel column `i` of a `bw`-wide buffer.
pub open spec fn plane_x(v: Viewport, i: int, bw: int) -> int {
    x_min(v) + (i * v.width) / bw
}

/// The plane coordinate seen by pixel row `j` of a `bh`-tall buffer.
pub open spec fn plane_y(v: Viewport, j: int, bh: int) -> int {
    y_min(v) + (j * v.height) / bh
}

/// The pixel column under the plane coordinate `x` (truncated toward
/// zero; negative when `x` lies left of the viewport).
pub open spec fn pixel_col(v: Viewport, x: int, bw: int) -> int {
    fp_div_trunc((x - x_min(v)) * bw, v.width as int)
}

/// The pixel row under the plane coordinate `y`.
pub open spec fn pixel_row(v: Viewport, y: int, bh: int) -> int {
    fp_div_trunc((y - y_min(v)) * bh, v.height as int)
}

/// Maps pixel `(i, j)` of a `buffer_width` by `buffer_height` buffer to
/// the plane point it renders, in fixed-point plane units.
pub fn pixel_to_plane(i: usize, j: usize, v: &Viewport, buffer_width: usize, buffer_height: usize) -> (p: (i64, i64))
    requires
        v.wf(),
        i < buffer_width <= MAX_DIM,
        j < buffer_height <= MAX_DIM,
    ensures
        p.0 == plane_x(*v, i as int, buffer_width as int),
        p.1 == plane_y(*v, j as int, buffer_height as int),
        -MAX_COORD <= p.0 <= MAX_COORD,
        -MAX_COORD <= p.1 <= MAX_COORD,
{
    let half_w: i64 = ((v.width as u64) / 2) as i64;
    let half_h: i64 = ((v.height as u64) / 2) as i64;
    proof {
        crate::fixed::lemma_div_shrinks(v.width as int, 2);
        crate::fixed::lemma_div_shrinks(v.height as int, 2);
    }
    let xm: i64 = v.center_x - half_w;
    let ym: i64 = v.center_y - half_h;
    proof {
        lemma_abs_mul_bounds(i as int, v.width as int, MAX_DIM as int, MAX_EXTENT as int);
        lemma_abs_mul_bounds(j as int, v.height as int, MAX_DIM as int, MAX_EXTENT as int);
        assert(i * v.width <= buffer_width * v.width) by (nonlinear_arith)
            requires
                i < buffer_width,
                v.width >= 0,
        ;
        lemma_multiply_divide_le(i * v.width, buffer_width as int, v.width as int);
        assert(j * v.height <= buffer_height * v.height) by (nonlinear_arith)
            requires
                j < buffer_height,
                v.height >= 0,
        ;
        lemma_multiply_divide_le(j * v.height, buffer_height as int, v.height as int);
        lemma_div_pos_is_pos(i * v.width, buffer_width as int);
        lemma_div_pos_is_pos(j * v.height, buffer_height as int);
    }
    let off_x_wide: u128 = (i as u128) * (v.width as u128) / (buffer_width as u128);
    let off_y_wide: u128 = (j as u128) * (v.height as u128) / (buffer_height as u128);
    let x: i64 = xm + off_x_wide as i64;
    let y: i64 = ym + off_y_wide as i64;
    (x, y)
}

/// Maps a plane point back to the pixel that renders it, truncating
/// toward zero; a point outside the viewport yields an out-of-bounds (or
/// negative) pixel index rather than a wrapped one.
pub fn plane_to_pixel(x: i64, y: i64, v: &Viewport, buffer_width: usize, buffer_height: usize) -> (p: (i64, i64))
    requires
        v.wf(),
        1 <= buffer_width <= MAX_DIM,
        1 <= buffer_height <= MAX_DIM,
        -MAX_COORD <= x <= MAX_COORD,
        -MAX_COORD <= y <= MAX_COORD,
    ensures
        p.0 == pixel_col(*v, x as int, buffer_width as int),
        p.1 == pixel_row(*v, y as int, buffer_height as int),
{
    let half_w: i64 = ((v.width as u64) / 2) as i64;
    let half_h: i64 = ((v.height as u64) / 2) as i64;
    proof {
        crate::fixed::lemma_div_shrinks(v.width as int, 2);
        crate::fixed::lemma_div_shrinks(v.height as int, 2);
    }
    let xm: i64 = v.center_x - half_w;
    let ym: i64 = v.center_y - half_h;
    let dx: i64 = x - xm;
    let dy: i64 = y - ym;
    proof {
        lemma_abs_mul_bounds(dx as int, buffer_width as int, 0x20000000000000, MAX_DIM as int);
        lemma_abs_mul_bounds(dy as int, buffer_height as int, 0x20000000000000, MAX_DIM as int);
    }
    let num_x: i128 = (dx as i128) * (buffer_width as i128);
    let num_y: i128 = (dy as i128) * (buffer_height as i128);
    let col_wide: i128 = div_trunc(num_x, v.width as u64);
    let row_wide: i128 = div_trunc(num_y, v.height as u64);
    proof {
        assert(0x8000000000000 * v.width as int >= 0x20000000000000 * MAX_DIM as int) by (nonlinear_arith)
            requires
                v.width >= crate::fixed::MIN_EXTENT,
        ;
        assert(0x8000000000000 * v.height as int >= 0x20000000000000 * MAX_DIM as int) by (nonlinear_arith)
            requires
                v.height >= crate::fixed::MIN_EXTENT,
        ;
        lemma_div_trunc_bounded(num_x as int, v.width as int, 0x8000000000000);
        lemma_div_trunc_bounded(num_y as int, v.height as int, 0x8000000000000);
    }
    (col_wide as i64, row_wide as i64)
}

/// One bounded rounding step: multiplying a pixel index up to the plane
/// and dividing it back down loses less than one pixel.
proof fn lemma_div_mul_round(i: int, extent: int, dim: int)
    requires
        1 <= dim <= extent,
        0 <= i,
    ensures
        i - 1 <= ((i * extent) / dim * dim) / extent <= i,
{
    let q = (i * extent) / dim;
    let t = (q * dim) / extent;
    lemma_fundamental_div_mod(i * extent, dim);
    let r1 = (i * extent) % dim;
    lemma_fundamental_div_mod(q * dim, extent);
    let r2 = (q * dim) % extent;
    assert(extent * t == i * extent - r1 - r2) by (nonlinear_arith)
        requires
            i * extent == dim * q + r1,
            q * dim == extent * t + r2,
    ;
    assert(t <= i) by (nonlinear_arith)
        requires
            extent * t == i * extent - r1 - r2,
            r1 >= 0,
            r2 >= 0,
            extent >= 1,
    ;
    assert(t >= i - 1) by (nonlinear_arith)
        requires
            extent * t == i * extent - r1 - r2,
            r1 < dim,
            dim <= extent,
            r2 < extent,
            extent >= 1,
    ;
}

/// Law: for any pixel within the buffer, mapping it to the plane and back
/// lands on the same pixel or its immediate lower neighbour — never more
/// than one pixel away.
pub proof fn lemma_round_trip(v: Viewport, i: int, j: int, bw: int, bh: int)
    requires
        v.wf(),
        0 <= i < bw <= MAX_DIM,
        0 <= j < bh <= MAX_DIM,
    ensures
        i - 1 <= pixel_col(v, plane_x(v, i, bw), bw) <= i,
        j - 1 <= pixel_row(v, plane_y(v, j, bh), bh) <= j,
{
    lemma_div_pos_is_pos(i * v.width, bw);
    lemma_div_pos_is_pos(j * v.height, bh);
    assert((i * v.width) / bw * bw >= 0) by (nonlinear_arith)
        requires
            (i * v.width) / bw >= 0,
            bw >= 1,
    ;
    assert((j * v.height) / bh * bh >= 0) by (nonlinear_arith)
        requires
            (j * v.height) / bh >= 0,
            bh >= 1,
    ;
    lemma_div_mul_round(i, v.width as int, bw);
    lemma_div_mul_round(j, v.height as int, bh);
}

} // verus!
