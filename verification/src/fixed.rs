//! Saturating fixed-point scalars.
//!
//! A scalar is an `i64` holding `round(q * FX_SCALE)` for the real number
//! `q`. Every operation saturates at the ends of the `i64` range instead
//! of overflowing, so the solver above never panics on extreme inputs.

use vstd::prelude::*;

verus! {

use vstd::arithmetic::div_mod::{lemma_div_pos_is_pos, lemma_div_nonincreasing};

/// Scale of the fixed-point representation: the scalar stored as the
/// integer `s` stands for the real number `s / FX_SCALE`.
pub const FX_SCALE: i64 = 65536;

/// Magnitude of an unbounded integer.
pub open spec fn int_abs(a: int) -> int {
    if a < 0 {
        -a
    } else {
        a
    }
}

/// Saturation of an unbounded integer into the range of a scalar.
pub open spec fn fx_clamp(v: int) -> int {
    if v > i64::MAX as int {
        i64::MAX as int
    } else if v < i64::MIN as int {
        i64::MIN as int
    } else {
        v
    }
}

/// Integer division truncated toward zero, the rounding that machine
/// division of two scalars performs.
pub open spec fn div_trunc(a: int, b: int) -> int
    recommends
        b != 0,
{
    if (a < 0) == (b < 0) {
        int_abs(a) / int_abs(b)
    } else {
        -(int_abs(a) / int_abs(b))
    }
}

/// Value of the saturating sum.
pub open spec fn fx_add_spec(a: int, b: int) -> int {
    fx_clamp(a + b)
}

/// Value of the saturating difference.
pub open spec fn fx_sub_spec(a: int, b: int) -> int {
    fx_clamp(a - b)
}

/// Value of the saturating product: the wide product carries the scale
/// twice, so it is divided once by the scale.
pub open spec fn fx_mul_spec(a: int, b: int) -> int {
    fx_clamp(div_trunc(a * b, FX_SCALE as int))
}

/// Value of the saturating quotient: the dividend is widened by the scale
/// before the division so that the quotient keeps the scale once.
pub open spec fn fx_div_spec(a: int, b: int) -> int
    recommends
        b != 0,
{
    fx_clamp(div_trunc(a * (FX_SCALE as int), b))
}

/// The saturating square of a scalar is never negative.
pub proof fn lemma_fx_square_nonneg(a: int)
    ensures
        fx_mul_spec(a, a) >= 0,
{
    assert(a * a >= 0) by (nonlinear_arith);
    lemma_div_pos_is_pos(int_abs(a * a), FX_SCALE as int);
}

/// Truncated division never grows the magnitude of the dividend.
pub proof fn lemma_div_trunc_bound(a: int, b: int)
    requires
        b != 0,
    ensures
        int_abs(div_trunc(a, b)) <= int_abs(a),
{
    lemma_div_pos_is_pos(int_abs(a), int_abs(b));
    lemma_div_nonincreasing(int_abs(a), int_abs(b));
}

/// Saturating fixed-point sum.
pub fn fx_add(a: i64, b: i64) -> (r: i64)
    ensures
        r as int == fx_add_spec(a as int, b as int),
{
    match a.checked_add(b) {
        Some(v) => v,
        None => if a > 0 {
            i64::MAX
        } else {
            i64::MIN
        },
    }
}

/// Saturating fixed-point difference.
pub fn fx_sub(a: i64, b: i64) -> (r: i64)
    ensures
        r as int == fx_sub_spec(a as int, b as int),
{
    match a.checked_sub(b) {
        Some(v) => v,
        None => if a >= 0 {
            i64::MAX
        } else {
            i64::MIN
        },
    }
}

/// Saturating fixed-point product.
pub fn fx_mul(a: i64, b: i64) -> (r: i64)
    ensures
        r as int == fx_mul_spec(a as int, b as int),
{
    proof {
        assert((a as int) * (b as int) <= 0x40000000000000000000000000000000
            && (a as int) * (b as int) >= -0x40000000000000000000000000000000) by (nonlinear_arith)
            requires
                -0x8000000000000000 <= a as int <= 0x7fffffffffffffff,
                -0x8000000000000000 <= b as int <= 0x7fffffffffffffff,
        ;
    }
    let p: i128 = (a as i128).checked_mul(b as i128).unwrap();
    proof {
        lemma_div_trunc_bound(p as int, FX_SCALE as int);
    }
    let q: i128 = p.checked_div(65536i128).unwrap();
    proof {
        assert(q as int == div_trunc((a as int) * (b as int), FX_SCALE as int));
    }
    if q > i64::MAX as i128 {
        i64::MAX
    } else if q < i64::MIN as i128 {
        i64::MIN
    } else {
        q as i64
    }
}

/// Saturating fixed-point quotient.
pub fn fx_div(a: i64, b: i64) -> (r: i64)
    requires
        b != 0,
    ensures
        r as int == fx_div_spec(a as int, b as int),
{
    let n: i128 = (a as i128) * 65536i128;
    proof {
        lemma_div_trunc_bound(n as int, b as int);
    }
    let q: i128 = n.checked_div(b as i128).unwrap();
    proof {
        assert(q as int == div_trunc((a as int) * (FX_SCALE as int), b as int));
    }
    if q > i64::MAX as i128 {
        i64::MAX
    } else if q < i64::MIN as i128 {
        i64::MIN
    } else {
        q as i64
    }
}

/// Quotient of a scalar by a positive count, truncated toward zero; the
/// count carries no scale, so neither does the division.
pub fn fx_div_int(a: i64, n: usize) -> (r: i64)
    requires
        n >= 1,
    ensures
        r as int == div_trunc(a as int, n as int),
{
    proof {
        lemma_div_trunc_bound(a as int, n as int);
    }
    let q: i128 = (a as i128).checked_div(n as i128).unwrap();
    q as i64
}

/// Quotient of a wide integer by a positive count, truncated toward zero
/// and saturated once into the scalar range.
pub fn fx_div_wide(a: i128, n: usize) -> (r: i64)
    requires
        n >= 1,
    ensures
        r as int == fx_clamp(div_trunc(a as int, n as int)),
{
    proof {
        lemma_div_trunc_bound(a as int, n as int);
    }
    let q: i128 = a.checked_div(n as i128).unwrap();
    if q > i64::MAX as i128 {
        i64::MAX
    } else if q < i64::MIN as i128 {
        i64::MIN
    } else {
        q as i64
    }
}

/// Saturating magnitude of a scalar.
pub fn fx_abs(a: i64) -> (r: i64)
    ensures
        r as int == fx_clamp(int_abs(a as int)),
{
    if a == i64::MIN {
        i64::MAX
    } else if a < 0 {
        -a
    } else {
        a
    }
}

/// The scalar standing for the whole number `v`, saturated.
pub fn fx_from_int(v: i64) -> (r: i64)
    ensures
        r as int == fx_clamp((v as int) * (FX_SCALE as int)),
{
    let n: i128 = (v as i128) * 65536i128;
    if n > i64::MAX as i128 {
        i64::MAX
    } else if n < i64::MIN as i128 {
        i64::MIN
    } else {
        n as i64
    }
}

} // verus!
