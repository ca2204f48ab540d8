//! Fixed-point representation of complex-plane coordinates.
//!
//! A plane coordinate is an `i64` holding the real value times `SCALE`
//! (two's-complement fixed point with 32 fractional bits). All viewport and
//! escape-time arithmetic is exact integer arithmetic on these scaled
//! values; where a product or quotient must be brought back to scale it is
//! divided with truncation toward zero, the rule that [`fp_div_trunc`]
//! states and [`div_trunc`] implements.

use vstd::prelude::*;

verus! {

/// Scaled value of 1.0: one plane unit is `SCALE` fixed-point steps.
pub const SCALE: i64 = 4294967296;

/// Largest pixel dimension (per axis) a buffer or window may have.
pub const MAX_DIM: usize = 16384;

/// Smallest viewport extent: zooming in clamps here, keeping the extent
/// positive and at least one fixed-point step per pixel of any buffer
/// (`MIN_EXTENT >= MAX_DIM`).
pub const MIN_EXTENT: i64 = 65536;

/// Largest viewport extent: zooming out clamps here.
pub const MAX_EXTENT: i64 = 1125899906842624;

/// Largest magnitude the viewport centre may take, per axis.
pub const MAX_CENTER: i64 = 281474976710656;

/// Largest magnitude of any plane coordinate handed to the escape-time
/// evaluator; every coordinate of a pixel of a well-formed viewport lies
/// within it.
pub const MAX_COORD: i64 = 4503599627370496;

/// Quotient of `a` by `d`, truncated toward zero (the rounding every
/// fixed-point division in this crate uses). For `a >= 0` this is the
/// flooring division of the specification language.
pub open spec fn fp_div_trunc(a: int, d: int) -> int {
    if a >= 0 {
        a / d
    } else {
        -((-a) / d)
    }
}

/// Truncating division of a (possibly negative) wide intermediate by a
/// positive divisor, the executable form of [`fp_div_trunc`].
pub fn div_trunc(a: i128, d: u64) -> (q: i128)
    requires
        d >= 1,
        a > i128::MIN,
    ensures
        q == fp_div_trunc(a as int, d as int),
        a >= 0 ==> 0 <= q <= a,
        a < 0 ==> a <= q <= 0,
{
    if a >= 0 {
        let m: u128 = a as u128;
        let w: u128 = m / (d as u128);
        proof {
            lemma_div_shrinks(m as int, d as int);
        }
        w as i128
    } else {
        let m: u128 = (-a) as u128;
        let w: u128 = m / (d as u128);
        proof {
            lemma_div_shrinks(m as int, d as int);
        }
        -(w as i128)
    }
}

/// A quotient of a non-negative value by a positive divisor never exceeds
/// the value.
pub proof fn lemma_div_shrinks(m: int, d: int)
    requires
        m >= 0,
        d >= 1,
    ensures
        0 <= m / d <= m,
{
    assert(0 <= m / d <= m) by (nonlinear_arith)
        requires
            m >= 0,
            d >= 1,
    ;
}

/// A product of two factors with symmetric bounds is bounded by the
/// product of the bounds.
pub proof fn lemma_abs_mul_bounds(a: int, b: int, ma: int, mb: int)
    requires
        -ma <= a <= ma,
        -mb <= b <= mb,
        0 <= ma,
        0 <= mb,
    ensures
        -(ma * mb) <= a * b <= ma * mb,
{
    assert(-(ma * mb) <= a * b <= ma * mb) by (nonlinear_arith)
        requires
            -ma <= a <= ma,
            -mb <= b <= mb,
            0 <= ma,
            0 <= mb,
    ;
}

/// A value whose square lies below a square bound lies within that bound.
pub proof fn lemma_square_below(a: int, m: int)
    requires
        0 < m,
        a * a < m * m,
    ensures
        -m < a < m,
{
    assert(-m < a < m) by (nonlinear_arith)
        requires
            0 < m,
            a * a < m * m,
    ;
}

/// Truncating division keeps any symmetric bound that the exact quotient
/// obeys: if `|a| <= b * d` then `|a / d|` (truncated) is at most `b`.
pub proof fn lemma_div_trunc_bounded(a: int, d: int, b: int)
    requires
        d >= 1,
        b >= 0,
        -(b * d) <= a <= b * d,
    ensures
        -b <= fp_div_trunc(a, d) <= b,
{
    assert(a >= 0 ==> a / d <= b) by (nonlinear_arith)
        requires
            d >= 1,
            b >= 0,
            a <= b * d,
    ;
    assert(a < 0 ==> (-a) / d <= b) by (nonlinear_arith)
        requires
            d >= 1,
            b >= 0,
            -(b * d) <= a,
    ;
    lemma_div_shrinks(if a >= 0 { a } else { -a }, d);
}

} // verus!
