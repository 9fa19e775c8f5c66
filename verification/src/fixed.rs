//! Fixed-point arithmetic shared by the whole engine.
//!
//! Every scalar of the engine is an `i64` holding a real value scaled by
//! `UNIT`: the integer 10_000 stands for 1.0. Multiplying two scaled values
//! therefore divides the raw product by `UNIT` again, truncating toward zero.

use vstd::prelude::*;

verus! {

use vstd::math::abs;

/// The fixed-point representation of 1.0.
pub const UNIT: i64 = 10_000;

/// Magnitude bound accepted by `mul_div`; products of two such factors
/// stay well inside `i64`.
pub const FACTOR_MAX: i64 = 2_000_000_000;

/// Division truncating toward zero, the rounding used throughout the engine.
/// (`/` on `int` is Euclidean division, which rounds down instead for
/// negative numerators.)
pub open spec fn trunc_div(x: int, d: int) -> int
    recommends
        d >= 1,
{
    if x >= 0 {
        x / d
    } else {
        -((-x) / d)
    }
}

/// `x` forced into the interval `[lo, hi]`.
pub open spec fn clamp_spec(x: int, lo: int, hi: int) -> int
    recommends
        lo <= hi,
{
    if x < lo {
        lo
    } else if x > hi {
        hi
    } else {
        x
    }
}

/// Truncating toward zero never grows a magnitude: the quotient lies
/// between zero and the numerator.
pub proof fn lemma_trunc_div_bounds(x: int, d: int)
    requires
        d >= 1,
    ensures
        x >= 0 ==> 0 <= trunc_div(x, d) <= x,
        x < 0 ==> x <= trunc_div(x, d) <= 0,
        abs(trunc_div(x, d)) <= abs(x),
{
    if x >= 0 {
        vstd::arithmetic::div_mod::lemma_div_pos_is_pos(x, d);
        vstd::arithmetic::div_mod::lemma_div_nonincreasing(x, d);
    } else {
        vstd::arithmetic::div_mod::lemma_div_pos_is_pos(-x, d);
        vstd::arithmetic::div_mod::lemma_div_nonincreasing(-x, d);
    }
}

/// Truncating division is monotone in the numerator.
pub proof fn lemma_trunc_div_ordered(x: int, y: int, d: int)
    requires
        d >= 1,
        x <= y,
    ensures
        trunc_div(x, d) <= trunc_div(y, d),
{
    if x >= 0 {
        vstd::arithmetic::div_mod::lemma_div_is_ordered(x, y, d);
    } else if y < 0 {
        vstd::arithmetic::div_mod::lemma_div_is_ordered(-y, -x, d);
    } else {
        lemma_trunc_div_bounds(x, d);
        lemma_trunc_div_bounds(y, d);
    }
}

/// A quotient of a product, scaled down by a factor of the denominator:
/// `|x| <= a` and `|y| <= b` bound `|trunc_div(x * y, d)|` by `a * b / d`.
pub proof fn lemma_trunc_div_product_bound(x: int, y: int, d: int, a: int, b: int)
    requires
        d >= 1,
        0 <= a,
        0 <= b,
        abs(x) <= a,
        abs(y) <= b,
    ensures
        abs(trunc_div(x * y, d)) <= trunc_div(a * b, d),
        abs(trunc_div(x * y, d)) <= a * b,
{
    assert(abs(x * y) <= a * b) by (nonlinear_arith)
        requires
            abs(x) <= a,
            abs(y) <= b,
            0 <= a,
            0 <= b,
    ;
    let p = x * y;
    lemma_trunc_div_bounds(p, d);
    lemma_trunc_div_bounds(a * b, d);
    if p >= 0 {
        lemma_trunc_div_ordered(p, a * b, d);
    } else {
        lemma_trunc_div_ordered(-p, a * b, d);
    }
}

/// Bounds on two factors bound their product.
pub proof fn lemma_mul_abs_bound(x: int, y: int, a: int, b: int)
    requires
        0 <= a,
        0 <= b,
        abs(x) <= a,
        abs(y) <= b,
    ensures
        abs(x * y) <= a * b,
{
    assert(abs(x * y) <= a * b) by (nonlinear_arith)
        requires
            abs(x) <= a,
            abs(y) <= b,
            0 <= a,
            0 <= b,
    ;
}

/// A numerator no larger in magnitude than `bound * d` divides down to a
/// quotient no larger in magnitude than `bound`.
pub proof fn lemma_trunc_div_multiple_bound(num: int, d: int, bound: int)
    requires
        d >= 1,
        bound >= 0,
        abs(num) <= bound * d,
    ensures
        abs(trunc_div(num, d)) <= bound,
{
    vstd::arithmetic::div_mod::lemma_div_multiples_vanish(bound, d);
    assert(bound * d == d * bound) by (nonlinear_arith);
    if num >= 0 {
        vstd::arithmetic::div_mod::lemma_div_is_ordered(num, bound * d, d);
        vstd::arithmetic::div_mod::lemma_div_pos_is_pos(num, d);
    } else {
        vstd::arithmetic::div_mod::lemma_div_is_ordered(-num, bound * d, d);
        vstd::arithmetic::div_mod::lemma_div_pos_is_pos(-num, d);
    }
}

/// Clamp to `[lo, hi]`.
pub fn clamp64(x: i64, lo: i64, hi: i64) -> (r: i64)
    requires
        lo <= hi,
    ensures
        r == clamp_spec(x as int, lo as int, hi as int),
        lo <= r <= hi,
{
    if x < lo {
        lo
    } else if x > hi {
        hi
    } else {
        x
    }
}

/// Division of a signed value by a positive one, truncating toward zero.
pub fn div_trunc(x: i64, d: i64) -> (r: i64)
    requires
        d >= 1,
        x > i64::MIN,
    ensures
        r == trunc_div(x as int, d as int),
{
    proof {
        lemma_trunc_div_bounds(x as int, d as int);
    }
    if x >= 0 {
        ((x as u64) / (d as u64)) as i64
    } else {
        let m: i64 = -x;
        -(((m as u64) / (d as u64)) as i64)
    }
}

/// The scaled product `x * y / d`, truncating toward zero.
pub fn mul_div(x: i64, y: i64, d: i64) -> (r: i64)
    requires
        d >= 1,
        abs(x as int) <= FACTOR_MAX,
        abs(y as int) <= FACTOR_MAX,
    ensures
        r == trunc_div(x as int * y as int, d as int),
{
    proof {
        assert(abs(x as int * y as int) <= FACTOR_MAX as int * FACTOR_MAX as int)
            by (nonlinear_arith)
            requires
                abs(x as int) <= FACTOR_MAX,
                abs(y as int) <= FACTOR_MAX,
        ;
    }
    let p: i64 = x * y;
    div_trunc(p, d)
}

} // verus!
