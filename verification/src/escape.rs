//! The escape-time evaluation of one plane point, and its colour mapping.
//!
//! For the parameter `(x0, y0)` the orbit `z := z^2 + c` is iterated from
//! zero, in fixed-point arithmetic (each product is brought back to scale
//! with truncation toward zero), until its squared magnitude reaches 4 —
//! the point has escaped — or an iteration budget of `depth` runs out. The
//! value of the point is the budget remaining at the moment of escape, and
//! 0 when the budget runs out, which marks the point as inside the set.
//!
//! The colour of a value is a fixed 24-bit gradient, deliberately
//! normalised by the constant 300 rather than by the current depth, so the
//! palette does not shift when the depth is adjusted. The byte order is
//! RGBA, the one canonical layout this crate uses.

use vstd::prelude::*;

use crate::fixed::SCALE;
use crate::fixed::MAX_COORD;
use crate::fixed::fp_div_trunc;
use crate::fixed::div_trunc;
use crate::fixed::lemma_abs_mul_bounds;
use crate::fixed::lemma_square_below;
use crate::fixed::lemma_div_trunc_bounded;

verus! {

/// The next real part of the orbit point: `x^2 - y^2 + x0`, at scale.
pub open spec fn step_x(x: int, y: int, x0: int) -> int {
    fp_div_trunc(x * x - y * y, SCALE as int) + x0
}

/// The next imaginary part of the orbit point: `2 x y + y0`, at scale.
pub open spec fn step_y(x: int, y: int, y0: int) -> int {
    fp_div_trunc(2 * (x * y), SCALE as int) + y0
}

/// Whether an orbit point has left the escape circle: squared magnitude at
/// least 4, at squared scale. The squares are exact, so the test is too.
pub open spec fn escaped(x: int, y: int) -> bool {
    x * x + y * y >= 4 * SCALE * SCALE
}

/// The budget remaining when the orbit continued from `(x, y)` under the
/// parameter `(x0, y0)` escapes; 0 when the budget runs out first.
pub open spec fn escape_from(x: int, y: int, x0: int, y0: int, budget: nat) -> nat
    decreases budget,
{
    if escaped(x, y) {
        budget
    } else if budget == 0 {
        0
    } else {
        escape_from(step_x(x, y, x0), step_y(x, y, y0), x0, y0, (budget - 1) as nat)
    }
}

/// The escape-time value of the plane point `(x0, y0)`: the budget
/// remaining when the orbit of zero first escapes, 0 if it never does
/// within `depth` iterations.
pub open spec fn escape_count(x0: int, y0: int, depth: nat) -> nat {
    escape_from(0, 0, x0, y0, depth)
}

/// Computes the escape-time value of one plane point, given in fixed-point
/// plane units, under an iteration budget of `depth`.
pub fn evaluate(x0: i64, y0: i64, depth: u32) -> (remaining: u32)
    requires
        -MAX_COORD <= x0 <= MAX_COORD,
        -MAX_COORD <= y0 <= MAX_COORD,
    ensures
        remaining == escape_count(x0 as int, y0 as int, depth as nat),
        remaining <= depth,
{
    let mut x: i64 = 0;
    let mut y: i64 = 0;
    let mut budget: u32 = depth;
    loop
        invariant_except_break
            -MAX_COORD <= x0 <= MAX_COORD,
            -MAX_COORD <= y0 <= MAX_COORD,
            -0x20000000000000 <= x <= 0x20000000000000,
            -0x20000000000000 <= y <= 0x20000000000000,
            budget <= depth,
            escape_from(x as int, y as int, x0 as int, y0 as int, budget as nat)
                == escape_count(x0 as int, y0 as int, depth as nat),
        ensures
            budget <= depth,
            budget as nat == escape_count(x0 as int, y0 as int, depth as nat),
        decreases budget,
    {
        proof {
            lemma_abs_mul_bounds(x as int, x as int, 0x20000000000000, 0x20000000000000);
            lemma_abs_mul_bounds(y as int, y as int, 0x20000000000000, 0x20000000000000);
        }
        let xx: i128 = (x as i128) * (x as i128);
        let yy: i128 = (y as i128) * (y as i128);
        if xx + yy >= 4 * (SCALE as i128) * (SCALE as i128) {
            break;
        }
        if budget == 0 {
            break;
        }
        proof {
            assert(x as int * x as int >= 0) by (nonlinear_arith);
            assert(y as int * y as int >= 0) by (nonlinear_arith);
            lemma_square_below(x as int, 0x200000000);
            lemma_square_below(y as int, 0x200000000);
            lemma_abs_mul_bounds(x as int, y as int, 0x200000000, 0x200000000);
            lemma_div_trunc_bounded(x as int * x as int - y as int * y as int, SCALE as int, 0x400000000);
            lemma_div_trunc_bounded(2 * (x as int * y as int), SCALE as int, 0x800000000);
        }
        let diff: i128 = xx - yy;
        let twice: i128 = 2 * ((x as i128) * (y as i128));
        let nx: i128 = div_trunc(diff, SCALE as u64) + (x0 as i128);
        let ny: i128 = div_trunc(twice, SCALE as u64) + (y0 as i128);
        proof {
            assert(nx as int == step_x(x as int, y as int, x0 as int));
            assert(ny as int == step_y(x as int, y as int, y0 as int));
            assert(!escaped(x as int, y as int));
            assert(escape_from(x as int, y as int, x0 as int, y0 as int, budget as nat)
                == escape_from(nx as int, ny as int, x0 as int, y0 as int, (budget - 1) as nat));
        }
        x = nx as i64;
        y = ny as i64;
        budget = budget - 1;
    }
    budget
}

/// The 24-bit gradient value packed from a remaining-budget count: the
/// count spread over the colour cube, normalised by the fixed constant
/// 300.
pub open spec fn packed(remaining: nat) -> nat {
    remaining * 16777216 / 300
}

/// The RGBA bytes of one pixel for a remaining-budget count: opaque black
/// for 0 (inside the set), else the three bytes of the packed gradient
/// value, most significant first, with full alpha.
pub open spec fn color_bytes(remaining: nat) -> Seq<u8> {
    if remaining == 0 {
        seq![0u8, 0u8, 0u8, 255u8]
    } else {
        seq![
            (packed(remaining) / 65536 % 256) as u8,
            (packed(remaining) / 256 % 256) as u8,
            (packed(remaining) % 256) as u8,
            255u8,
        ]
    }
}

/// Maps a remaining-budget count to its RGBA colour. The depth is taken
/// for symmetry with [`evaluate`] but deliberately does not enter the
/// formula: the gradient is anchored to the fixed normaliser, so adjusting
/// the depth does not shift the palette.
#[allow(unused_variables)]
pub fn colorize(remaining: u32, depth: u32) -> (c: (u8, u8, u8, u8))
    ensures
        c.0 == color_bytes(remaining as nat)[0],
        c.1 == color_bytes(remaining as nat)[1],
        c.2 == color_bytes(remaining as nat)[2],
        c.3 == color_bytes(remaining as nat)[3],
{
    if remaining == 0 {
        (0, 0, 0, 255)
    } else {
        let p: u64 = (remaining as u64) * 16777216 / 300;
        (((p / 65536) % 256) as u8, ((p / 256) % 256) as u8, (p % 256) as u8, 255)
    }
}

/// Law: the origin never escapes — its orbit sits at the origin for ever —
/// so its escape-time value is 0 under every budget, and its colour is
/// opaque black.
pub proof fn lemma_origin_never_escapes(depth: nat)
    ensures
        escape_count(0, 0, depth) == 0,
        color_bytes(escape_count(0, 0, depth)) == seq![0u8, 0u8, 0u8, 255u8],
    decreases depth,
{
    assert(!escaped(0, 0));
    if depth > 0 {
        assert(step_x(0, 0, 0) == 0);
        assert(step_y(0, 0, 0) == 0);
        lemma_origin_never_escapes((depth - 1) as nat);
    }
}

/// Law: the boundary point 2 + 0i escapes on the first iteration — its
/// first orbit point has squared magnitude exactly 4 — so its escape-time
/// value is one less than the budget, for every budget of at least 1.
pub proof fn lemma_boundary_escapes_first(depth: nat)
    requires
        depth >= 1,
    ensures
        escape_count(2 * SCALE as int, 0, depth) == depth - 1,
{
    let c = 2 * SCALE as int;
    assert(!escaped(0, 0));
    assert(step_x(0, 0, c) == c);
    assert(step_y(0, 0, 0) == 0);
    assert(c * c == 4 * SCALE * SCALE) by (nonlinear_arith)
        requires
            c == 2 * SCALE as int,
    ;
    assert(escaped(c, 0));
    assert(escape_from(c, 0, c, 0, (depth - 1) as nat) == depth - 1);
}

} // verus!
