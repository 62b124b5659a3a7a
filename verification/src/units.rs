//! Fixed-point lengths.
//!
//! Every coordinate, size and speed of the game is a whole number of
//! *units*; [`UNIT`] of them make one pixel. Arithmetic on coordinates
//! saturates at the ends of the `i64` range instead of wrapping.

use vstd::prelude::*;

verus! {

/// Units per pixel.
pub const UNIT: i64 = 1000;

/// The value of `v` once stored in a coordinate: `v` itself where it fits,
/// else the nearest end of the `i64` range.
pub open spec fn clamp(v: int) -> int {
    if v < i64::MIN {
        i64::MIN as int
    } else if v > i64::MAX {
        i64::MAX as int
    } else {
        v
    }
}

/// The quotient of `n` by a positive `d`, rounded toward zero.
pub open spec fn quotient(n: int, d: int) -> int
    recommends
        d > 0,
{
    if n >= 0 {
        n / d
    } else {
        -((-n) / d)
    }
}

/// `v` taken from a length of `from` to a length of `to` in proportion:
/// `v * to / from`, rounded toward zero.
pub open spec fn rescaled(v: int, from: int, to: int) -> int
    recommends
        from > 0,
{
    quotient(v * to, from)
}

/// Saturating sum of two coordinates.
pub fn sat_add(a: i64, b: i64) -> (r: i64)
    ensures
        r == clamp(a + b),
{
    narrow_sub(a as i128 + b as i128, 0)
}

/// Saturating negation of a coordinate.
pub fn sat_neg(a: i64) -> (r: i64)
    ensures
        r == clamp(-a),
{
    if a == i64::MIN {
        i64::MAX
    } else {
        -a
    }
}

/// Rescales in proportion, from a length of `from` to a length of `to`,
/// the point that lies `offset` beyond `v`, and returns what then lies
/// `offset` before it.
pub fn rescale_about(v: i64, offset: i64, from: i64, to: i64) -> (r: i64)
    requires
        from > 0,
        to > 0,
    ensures
        r == clamp(rescaled(v + offset, from as int, to as int) - offset),
{
    let point: i128 = v as i128 + offset as i128;
    assert(-0x7fff_ffff_ffff_ffff_ffff_ffff_ffff_ffff <= point * to
        <= 0x7fff_ffff_ffff_ffff_ffff_ffff_ffff_ffff) by (nonlinear_arith)
        requires
            -0x1_0000_0000_0000_0000 <= point <= 0x1_0000_0000_0000_0000,
            0 < to <= 0x7fff_ffff_ffff_ffff,
    ;
    let product: i128 = point * (to as i128);
    let q: i128 = if product >= 0 {
        product / (from as i128)
    } else {
        -((-product) / (from as i128))
    };
    narrow_sub(q, offset)
}

/// `v - offset`, stored in a coordinate, saturating.
fn narrow_sub(v: i128, offset: i64) -> (r: i64)
    ensures
        r == clamp(v - offset),
{
    if v < i64::MIN as i128 + offset as i128 {
        i64::MIN
    } else if v > i64::MAX as i128 + offset as i128 {
        i64::MAX
    } else {
        (v - offset as i128) as i64
    }
}

/// A multiple of `d` divided by `d` gives back the factor.
pub proof fn lemma_quotient_of_multiple(k: int, d: int)
    requires
        d > 0,
    ensures
        quotient(k * d, d) == k,
{
    if k >= 0 {
        assert(k * d >= 0 && (k * d) / d == k) by (nonlinear_arith)
            requires
                k >= 0,
                d > 0,
        ;
    } else {
        assert(k * d < 0 && (-(k * d)) / d == -k) by (nonlinear_arith)
            requires
                k < 0,
                d > 0,
        ;
    }
}

/// Rescaling to twice the length doubles a value, and rescaling back
/// restores it.
pub proof fn lemma_rescaled_there_and_back(v: int, len: int)
    requires
        len > 0,
    ensures
        rescaled(v, len, 2 * len) == 2 * v,
        rescaled(2 * v, 2 * len, len) == v,
{
    assert(v * (2 * len) == (2 * v) * len) by (nonlinear_arith);
    lemma_quotient_of_multiple(2 * v, len);
    assert((2 * v) * len == v * (2 * len)) by (nonlinear_arith);
    lemma_quotient_of_multiple(v, 2 * len);
}

} // verus!
