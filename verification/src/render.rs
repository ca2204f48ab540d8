//! Filling the pixel buffer: one RGBA byte row per buffer row, assembled
//! into the frame.
//!
//! A frame is a pure function of the viewport and the buffer size: the
//! byte at offset `n` is pinned by [`frame_byte`], so any two complete
//! fills agree byte for byte however the work was split
//! ([`lemma_render_deterministic`]). Rows do not interact — [`fill_row`]
//! reads only the viewport and its own row index — so a caller may compute
//! rows concurrently and splice them in, which is what [`render`] does
//! row by row; [`render_sequential`] walks pixel by pixel instead and
//! meets the same contract.

use vstd::prelude::*;
use vstd::arithmetic::div_mod::{
    lemma_fundamental_div_mod,
    lemma_fundamental_div_mod_converse,
    lemma_mod_division_less_than_divisor,
    lemma_multiply_divide_lt,
};

use crate::fixed::MAX_DIM;
use crate::fixed::lemma_abs_mul_bounds;
use crate::viewport::Viewport;
use crate::mapper::{plane_x, plane_y, pixel_to_plane};
use crate::escape::{escape_count, color_bytes, evaluate, colorize};

verus! {

/// The RGBA bytes of pixel `(i, j)` of a frame: the colour of the
/// escape-time value of the plane point that pixel sees. Kept opaque so
/// that reasoning about byte positions does not unfold the escape-time
/// recurrence; [`fill_row`] reveals it at the one place a pixel is
/// actually computed.
#[verifier::opaque]
pub open spec fn pixel_color(v: Viewport, i: int, j: int, bw: int, bh: int) -> Seq<u8> {
    color_bytes(escape_count(plane_x(v, i, bw), plane_y(v, j, bh), v.depth as nat))
}

/// The byte at offset `n` of one rendered row of row index `j`.
pub open spec fn row_byte(v: Viewport, j: int, bw: int, bh: int, n: int) -> u8 {
    pixel_color(v, n / 4, j, bw, bh)[n % 4]
}

/// The byte at offset `n` of a whole rendered frame, row-major.
pub open spec fn frame_byte(v: Viewport, bw: int, bh: int, n: int) -> u8 {
    pixel_color(v, (n / 4) % bw, (n / 4) / bw, bw, bh)[n % 4]
}

/// Whether `row` holds exactly the rendered bytes of row `j`.
pub open spec fn row_rendered(v: Viewport, row: Seq<u8>, j: int, bw: int, bh: int) -> bool {
    &&& row.len() == bw * 4
    &&& forall|n: int| 0 <= n < row.len() ==> row[n] == row_byte(v, j, bw, bh, n)
}

/// Whether `buf` holds exactly the rendered frame of viewport `v` for a
/// `bw` by `bh` buffer.
pub open spec fn frame_rendered(v: Viewport, buf: Seq<u8>, bw: int, bh: int) -> bool {
    &&& buf.len() == bw * bh * 4
    &&& forall|n: int| 0 <= n < buf.len() ==> buf[n] == frame_byte(v, bw, bh, n)
}

/// A byte of one row stands at its row offset plus the row's base in the
/// frame.
proof fn lemma_row_offset(v: Viewport, j: int, bw: int, bh: int, m: int)
    requires
        0 <= m < bw * 4,
        0 <= j < bh,
        1 <= bw,
    ensures
        frame_byte(v, bw, bh, j * (bw * 4) + m) == row_byte(v, j, bw, bh, m),
{
    let i = m / 4;
    let k = m % 4;
    lemma_fundamental_div_mod(m, 4);
    lemma_mod_division_less_than_divisor(m, 4);
    lemma_multiply_divide_lt(m, 4, bw);
    let n = j * (bw * 4) + m;
    assert(n == (j * bw + i) * 4 + k) by (nonlinear_arith)
        requires
            n == j * (bw * 4) + m,
            m == 4 * (m / 4) + m % 4,
            i == m / 4,
            k == m % 4,
    ;
    lemma_fundamental_div_mod_converse(n, 4, j * bw + i, k);
    lemma_fundamental_div_mod_converse(j * bw + i, bw, j, i);
}

/// Renders one row of the frame: the RGBA bytes of every pixel of row
/// `j`, left to right. Rows are independent, so callers may compute
/// several rows concurrently and splice them together.
pub fn fill_row(v: &Viewport, j: usize, buffer_width: usize, buffer_height: usize) -> (row: Vec<u8>)
    requires
        v.wf(),
        j < buffer_height <= MAX_DIM,
        1 <= buffer_width <= MAX_DIM,
    ensures
        row_rendered(*v, row@, j as int, buffer_width as int, buffer_height as int),
{
    let mut row: Vec<u8> = Vec::new();
    let mut i: usize = 0;
    while i < buffer_width
        invariant
            v.wf(),
            j < buffer_height <= MAX_DIM,
            1 <= buffer_width <= MAX_DIM,
            i <= buffer_width,
            row@.len() == i * 4,
            forall|n: int| 0 <= n < row@.len()
                ==> row@[n] == row_byte(*v, j as int, buffer_width as int, buffer_height as int, n),
        decreases buffer_width - i,
    {
        let p = pixel_to_plane(i, j, v, buffer_width, buffer_height);
        let remaining = evaluate(p.0, p.1, v.depth);
        let c = colorize(remaining, v.depth);
        row.push(c.0);
        row.push(c.1);
        row.push(c.2);
        row.push(c.3);
        proof {
            reveal(pixel_color);
            lemma_fundamental_div_mod_converse(i * 4 + 0, 4, i as int, 0);
            lemma_fundamental_div_mod_converse(i * 4 + 1, 4, i as int, 1);
            lemma_fundamental_div_mod_converse(i * 4 + 2, 4, i as int, 2);
            lemma_fundamental_div_mod_converse(i * 4 + 3, 4, i as int, 3);
        }
        i = i + 1;
    }
    row
}

/// Fills the whole buffer with the frame of viewport `v`, one row at a
/// time: the row-partitioned strategy. Each row's bytes are computed
/// independently and spliced into the row's disjoint byte range.
pub fn render(v: &Viewport, buffer_width: usize, buffer_height: usize, buf: &mut Vec<u8>)
    requires
        v.wf(),
        1 <= buffer_width <= MAX_DIM,
        1 <= buffer_height <= MAX_DIM,
        old(buf)@.len() == buffer_width * buffer_height * 4,
    ensures
        frame_rendered(*v, final(buf)@, buffer_width as int, buffer_height as int),
{
    let bw = buffer_width;
    let bh = buffer_height;
    proof {
        lemma_abs_mul_bounds(bw as int, bh as int, MAX_DIM as int, MAX_DIM as int);
    }
    let mut j: usize = 0;
    while j < bh
        invariant
            v.wf(),
            1 <= bw <= MAX_DIM,
            1 <= bh <= MAX_DIM,
            j <= bh,
            buf@.len() == bw * bh * 4,
            bw * bh * 4 <= 1073741824,
            forall|n: int| 0 <= n < j * (bw * 4)
                ==> buf@[n] == frame_byte(*v, bw as int, bh as int, n),
        decreases bh - j,
    {
        let row = fill_row(v, j, bw, bh);
        proof {
            lemma_abs_mul_bounds(j as int, (bw * 4) as int, MAX_DIM as int, 4 * MAX_DIM as int);
            assert((j + 1) * (bw * 4) <= bh * (bw * 4)) by (nonlinear_arith)
                requires
                    j + 1 <= bh,
                    bw >= 1,
            ;
            assert(bh * (bw * 4) == bw * bh * 4) by (nonlinear_arith);
            assert((j + 1) * (bw * 4) == j * (bw * 4) + bw * 4) by (nonlinear_arith);
        }
        let base: usize = j * (bw * 4);
        let mut t: usize = 0;
        while t < bw * 4
            invariant
                1 <= bw <= MAX_DIM,
                1 <= bh <= MAX_DIM,
                j < bh,
                t <= bw * 4,
                base == j * (bw * 4),
                base + bw * 4 <= buf@.len(),
                buf@.len() == bw * bh * 4,
                bw * bh * 4 <= 1073741824,
                row@.len() == bw * 4,
                forall|n: int| 0 <= n < row@.len()
                    ==> row@[n] == row_byte(*v, j as int, bw as int, bh as int, n),
                forall|n: int| 0 <= n < j * (bw * 4)
                    ==> buf@[n] == frame_byte(*v, bw as int, bh as int, n),
                forall|m: int| 0 <= m < t ==> buf@[base + m] == row@[m],
            decreases bw * 4 - t,
        {
            let b = row[t];
            buf[base + t] = b;
            t = t + 1;
        }
        proof {
            assert forall|n: int| 0 <= n < (j + 1) * (bw * 4) implies buf@[n] == frame_byte(
                *v,
                bw as int,
                bh as int,
                n,
            ) by {
                if n >= j * (bw * 4) {
                    let m = n - j * (bw * 4);
                    assert(row@[m] == row_byte(*v, j as int, bw as int, bh as int, m));
                    assert(buf@[base + m] == row@[m]);
                    lemma_row_offset(*v, j as int, bw as int, bh as int, m);
                }
            }
        }
        j = j + 1;
    }
    proof {
        assert(bh * (bw * 4) == bw * bh * 4) by (nonlinear_arith);
    }
}

/// Fills the whole buffer pixel by pixel in row-major order: the strictly
/// sequential strategy, meeting the same contract as [`render`].
pub fn render_sequential(v: &Viewport, buffer_width: usize, buffer_height: usize, buf: &mut Vec<u8>)
    requires
        v.wf(),
        1 <= buffer_width <= MAX_DIM,
        1 <= buffer_height <= MAX_DIM,
        old(buf)@.len() == buffer_width * buffer_height * 4,
    ensures
        frame_rendered(*v, final(buf)@, buffer_width as int, buffer_height as int),
{
    let bw = buffer_width;
    let bh = buffer_height;
    let mut j: usize = 0;
    while j < bh
        invariant
            v.wf(),
            1 <= bw <= MAX_DIM,
            1 <= bh <= MAX_DIM,
            j <= bh,
            buf@.len() == bw * bh * 4,
            forall|n: int| 0 <= n < j * bw * 4
                ==> buf@[n] == frame_byte(*v, bw as int, bh as int, n),
        decreases bh - j,
    {
        let mut i: usize = 0;
        while i < bw
            invariant
                v.wf(),
                1 <= bw <= MAX_DIM,
                1 <= bh <= MAX_DIM,
                j < bh,
                i <= bw,
                buf@.len() == bw * bh * 4,
                forall|n: int| 0 <= n < (j * bw + i) * 4
                    ==> buf@[n] == frame_byte(*v, bw as int, bh as int, n),
            decreases bw - i,
        {
            proof {
                lemma_abs_mul_bounds(j as int, bw as int, MAX_DIM as int, MAX_DIM as int);
                assert(j * bw + i < bh * bw) by (nonlinear_arith)
                    requires
                        j < bh,
                        i < bw,
                ;
                assert((j * bw + i) * 4 + 4 <= bh * bw * 4 && bh * bw * 4 == bw * bh * 4)
                    by (nonlinear_arith)
                    requires
                        j * bw + i < bh * bw,
                ;
            }
            let p = pixel_to_plane(i, j, v, bw, bh);
            let remaining = evaluate(p.0, p.1, v.depth);
            let c = colorize(remaining, v.depth);
            let pixel_base: usize = (j * bw + i) * 4;
            buf[pixel_base] = c.0;
            buf[pixel_base + 1] = c.1;
            buf[pixel_base + 2] = c.2;
            buf[pixel_base + 3] = c.3;
            proof {
                reveal(pixel_color);
                let q = j * bw + i;
                lemma_fundamental_div_mod_converse(q * 4 + 0, 4, q, 0);
                lemma_fundamental_div_mod_converse(q * 4 + 1, 4, q, 1);
                lemma_fundamental_div_mod_converse(q * 4 + 2, 4, q, 2);
                lemma_fundamental_div_mod_converse(q * 4 + 3, 4, q, 3);
                lemma_fundamental_div_mod_converse(q, bw as int, j as int, i as int);
                assert((j * bw + (i + 1)) * 4 == q * 4 + 4) by (nonlinear_arith)
                    requires
                        q == j * bw + i,
                ;
            }
            i = i + 1;
        }
        proof {
            assert((j + 1) * bw * 4 == (j * bw + bw) * 4) by (nonlinear_arith);
        }
        j = j + 1;
    }
    proof {
        assert(bh * bw * 4 == bw * bh * 4) by (nonlinear_arith);
    }
}

/// Law: a frame is a function of the viewport and buffer size alone, so
/// any two complete fills — in particular the row-partitioned one and the
/// strictly sequential one — agree byte for byte.
pub proof fn lemma_render_deterministic(v: Viewport, a: Seq<u8>, b: Seq<u8>, bw: int, bh: int)
    requires
        frame_rendered(v, a, bw, bh),
        frame_rendered(v, b, bw, bh),
    ensures
        a == b,
{
    assert forall|n: int| 0 <= n < a.len() implies a[n] == b[n] by {
    }
    assert(a =~= b);
}

/// The startup byte at offset `n` of a blank buffer: a fixed RGBA fill
/// colour repeated over every pixel.
pub open spec fn blank_byte(n: int) -> u8 {
    if n % 4 == 0 {
        100u8
    } else if n % 4 == 1 {
        150u8
    } else if n % 4 == 2 {
        200u8
    } else {
        255u8
    }
}

/// A fresh buffer for a `buffer_width` by `buffer_height` image, every
/// pixel set to the startup fill colour.
pub fn blank_buffer(buffer_width: usize, buffer_height: usize) -> (buf: Vec<u8>)
    requires
        1 <= buffer_width <= MAX_DIM,
        1 <= buffer_height <= MAX_DIM,
    ensures
        buf@.len() == buffer_width * buffer_height * 4,
        forall|n: int| 0 <= n < buf@.len() ==> buf@[n] == blank_byte(n),
{
    proof {
        lemma_abs_mul_bounds(buffer_width as int, buffer_height as int, MAX_DIM as int, MAX_DIM as int);
    }
    let pixels: usize = buffer_width * buffer_height;
    let mut buf: Vec<u8> = Vec::new();
    let mut t: usize = 0;
    while t < pixels
        invariant
            t <= pixels,
            pixels <= MAX_DIM * MAX_DIM,
            buf@.len() == t * 4,
            forall|n: int| 0 <= n < buf@.len() ==> buf@[n] == blank_byte(n),
        decreases pixels - t,
    {
        buf.push(100);
        buf.push(150);
        buf.push(200);
        buf.push(255);
        proof {
            lemma_fundamental_div_mod_converse(t * 4 + 0, 4, t as int, 0);
            lemma_fundamental_div_mod_converse(t * 4 + 1, 4, t as int, 1);
            lemma_fundamental_div_mod_converse(t * 4 + 2, 4, t as int, 2);
            lemma_fundamental_div_mod_converse(t * 4 + 3, 4, t as int, 3);
        }
        t = t + 1;
    }
    proof {
        assert(pixels * 4 == buffer_width * buffer_height * 4) by (nonlinear_arith)
            requires
                pixels == buffer_width * buffer_height,
        ;
    }
    buf
}

} // verus!
