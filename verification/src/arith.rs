//! Integer helpers shared by the window arithmetic: saturation, division
//! that rounds toward zero, and bounds on products.

use vstd::prelude::*;

verus! {

/// The value of type `i64` nearest to `v`.
pub open spec fn saturated(v: int) -> i64 {
    if v < i64::MIN {
        i64::MIN
    } else if v > i64::MAX {
        i64::MAX
    } else {
        v as i64
    }
}

/// Division that rounds toward zero, for a positive divisor.
pub open spec fn trunc_div(a: int, d: int) -> int {
    if a >= 0 {
        a / d
    } else {
        -((-a) / d)
    }
}

/// The value of type `i64` nearest to `v`.
pub(crate) fn saturate(v: i128) -> (r: i64)
    ensures
        r == saturated(v as int),
{
    if v < i64::MIN as i128 {
        i64::MIN
    } else if v > i64::MAX as i128 {
        i64::MAX
    } else {
        v as i64
    }
}

/// Whether `v` is a 64-bit value.
pub(crate) fn fits_i64(v: i128) -> (ok: bool)
    ensures
        ok == (i64::MIN <= v <= i64::MAX),
{
    v >= i64::MIN as i128 && v <= i64::MAX as i128
}

/// Divides by a positive divisor, rounding toward zero.
pub(crate) fn div_toward_zero(a: i128, d: i128) -> (q: i128)
    requires
        d > 0,
        a > i128::MIN,
    ensures
        q == trunc_div(a as int, d as int),
        a >= 0 ==> 0 <= q <= a && q * d <= a,
        a <= 0 ==> a <= q <= 0 && q * d >= a,
{
    if a >= 0 {
        let q = a / d;
        assert(0 <= a as int / d as int <= a && (a as int / d as int) * d <= a) by (nonlinear_arith)
            requires
                a >= 0,
                d > 0,
        ;
        q
    } else {
        let n = -a;
        let q = n / d;
        assert(0 <= n as int / d as int <= n && (n as int / d as int) * d <= n) by (nonlinear_arith)
            requires
                n >= 0,
                d > 0,
        ;
        assert((-q) * d == -(q * d)) by (nonlinear_arith);
        -q
    }
}

/// Whether the first factor is wide (up to 105 bits) and the second narrow
/// (up to 20 bits).
pub open spec fn wide_by_narrow(a: int, b: int) -> bool {
    &&& -0x200_0000_0000_0000_0000_0000_0000 <= a <= 0x200_0000_0000_0000_0000_0000_0000
    &&& -0x10_0000 <= b <= 0x10_0000
}

/// Whether the first factor is a span (up to 65 bits) and the second a pixel
/// distance (up to 40 bits).
pub open spec fn span_by_pixels(a: int, b: int) -> bool {
    &&& -0x2_0000_0000_0000_0000 <= a <= 0x2_0000_0000_0000_0000
    &&& -0x100_0000_0000 <= b <= 0x100_0000_0000
}

/// `a * b / d`, rounded toward zero, for a positive divisor and factors
/// whose product stays within 128 bits.
pub(crate) fn mul_div(a: i128, b: i128, d: i128) -> (q: i128)
    requires
        d > 0,
        wide_by_narrow(a as int, b as int) || span_by_pixels(a as int, b as int),
    ensures
        q == trunc_div(a * b, d as int),
        -0x2000_0000_0000_0000_0000_0000_0000_0000 <= q <= 0x2000_0000_0000_0000_0000_0000_0000_0000,
        span_by_pixels(a as int, b as int) ==> -0x200_0000_0000_0000_0000_0000_0000 <= q
            <= 0x200_0000_0000_0000_0000_0000_0000,
{
    proof {
        if span_by_pixels(a as int, b as int) {
            lemma_product_bound(a as int, b as int, 0x2_0000_0000_0000_0000, 0x100_0000_0000);
        } else {
            lemma_product_bound(a as int, b as int, 0x200_0000_0000_0000_0000_0000_0000, 0x10_0000);
        }
    }
    div_toward_zero(a * b, d)
}

/// A product is bounded by the product of the bounds of its factors.
pub proof fn lemma_product_bound(a: int, b: int, ma: int, mb: int)
    requires
        -ma <= a <= ma,
        -mb <= b <= mb,
    ensures
        -(ma * mb) <= a * b <= ma * mb,
{
    assert(-(ma * mb) <= a * b <= ma * mb) by (nonlinear_arith)
        requires
            -ma <= a <= ma,
            -mb <= b <= mb,
    ;
}

/// Division toward zero by a positive divisor keeps the order of the
/// numerators.
pub proof fn lemma_trunc_div_monotone(a: int, b: int, d: int)
    requires
        a <= b,
        d > 0,
    ensures
        trunc_div(a, d) <= trunc_div(b, d),
{
    if a >= 0 {
        assert(a / d <= b / d) by (nonlinear_arith)
            requires
                0 <= a <= b,
                d > 0,
        ;
    } else if b >= 0 {
        assert((-a) / d >= 0 && b / d >= 0) by (nonlinear_arith)
            requires
                -a >= 0,
                b >= 0,
                d > 0,
        ;
    } else {
        assert((-b) / d <= (-a) / d) by (nonlinear_arith)
            requires
                0 <= -b <= -a,
                d > 0,
        ;
    }
}

/// Scaling by `d` and dividing by `d` again gives the value back.
pub proof fn lemma_trunc_div_cancel(a: int, d: int)
    requires
        d > 0,
    ensures
        trunc_div(a * d, d) == a,
{
    if a >= 0 {
        assert(a * d >= 0 && (a * d) / d == a) by (nonlinear_arith)
            requires
                a >= 0,
                d > 0,
        ;
    } else {
        assert(a * d < 0 && (-(a * d)) / d == -a) by (nonlinear_arith)
            requires
                a < 0,
                d > 0,
        ;
    }
}

} // verus!
