//! Saturating fixed-point scalars: an `i64` holds a real quantity scaled by
//! `SCALE`, so one raw unit is a millionth. Every operation clips its result
//! into `[-FX_MAX, FX_MAX]`, which keeps the arithmetic total and closed.

use vstd::prelude::*;

verus! {

/// Raw units in 1.0; a value `x` stands for the real number `x / SCALE`.
pub const SCALE: i64 = 1_000_000;

/// Largest raw magnitude a fixed-point value may take.
pub const FX_MAX: i64 = 1_000_000_000_000_000_000;

/// A well-formed fixed-point value lies within the saturation range.
pub open spec fn fx_wf(a: i64) -> bool {
    -FX_MAX <= a <= FX_MAX
}

/// Clip an unbounded intermediate result into the representable range.
pub open spec fn sat(x: int) -> int {
    if x > FX_MAX as int {
        FX_MAX as int
    } else if x < -(FX_MAX as int) {
        -(FX_MAX as int)
    } else {
        x
    }
}

/// Quotient rounded toward zero; meaningful for a positive divisor.
pub open spec fn div_to_zero(a: int, b: int) -> int {
    if a >= 0 {
        a / b
    } else {
        -((-a) / b)
    }
}

/// The sum of two fixed-point values.
pub open spec fn spec_add(a: int, b: int) -> int {
    sat(a + b)
}

/// The difference of two fixed-point values.
pub open spec fn spec_sub(a: int, b: int) -> int {
    sat(a - b)
}

/// The product of two fixed-point values: scaled back down and clipped.
pub open spec fn spec_mul(a: int, b: int) -> int {
    sat(div_to_zero(a * b, SCALE as int))
}

/// The quotient of two fixed-point values, for a positive divisor.
pub open spec fn spec_div(a: int, b: int) -> int {
    sat(div_to_zero(a * (SCALE as int), b))
}

/// `r` is the integer square root of `x`.
pub open spec fn is_isqrt(r: int, x: int) -> bool {
    &&& 0 <= r
    &&& r * r <= x
    &&& x < (r + 1) * (r + 1)
}

/// The integer square root (meaningful for `x >= 0`).
pub open spec fn isqrt(x: int) -> int {
    choose|r: int| is_isqrt(r, x)
}

/// The fixed-point square root: scaling the radicand up by `SCALE` once
/// makes the integer root land back on the fixed-point scale.
pub open spec fn spec_sqrt(a: int) -> int {
    isqrt(a * (SCALE as int))
}

/// The sum, as a fixed-point value (the range is closed under `sat`).
pub open spec fn fadd(a: i64, b: i64) -> i64 {
    sat(a + b) as i64
}

/// The difference, as a fixed-point value.
pub open spec fn fsub(a: i64, b: i64) -> i64 {
    sat(a - b) as i64
}

/// The product, as a fixed-point value.
pub open spec fn fmul(a: i64, b: i64) -> i64 {
    sat(div_to_zero((a as int) * (b as int), SCALE as int)) as i64
}

/// The quotient, as a fixed-point value (meaningful for `b > 0`).
pub open spec fn fdiv(a: i64, b: i64) -> i64 {
    sat(div_to_zero((a as int) * (SCALE as int), b as int)) as i64
}

/// The square root, as a fixed-point value (meaningful for `a >= 0`).
pub open spec fn fsqrt(a: i64) -> i64 {
    isqrt((a as int) * (SCALE as int)) as i64
}

/// The smaller of two fixed-point values.
pub open spec fn fmin(a: i64, b: i64) -> i64 {
    if a <= b {
        a
    } else {
        b
    }
}

/// The larger of two fixed-point values.
pub open spec fn fmax(a: i64, b: i64) -> i64 {
    if a >= b {
        a
    } else {
        b
    }
}

/// A product of a value with itself never comes out negative.
pub proof fn lemma_fmul_self_nonneg(a: i64)
    ensures
        0 <= fmul(a, a) <= FX_MAX,
{
    assert(0 <= (a as int) * (a as int)) by (nonlinear_arith);
}

/// The integer square root is unique when it exists.
pub proof fn lemma_isqrt_unique(r1: int, r2: int, x: int)
    by (nonlinear_arith)
    requires
        is_isqrt(r1, x),
        is_isqrt(r2, x),
    ensures
        r1 == r2,
{
}

/// Every nonnegative integer has an integer square root.
pub proof fn lemma_isqrt_exists(x: int)
    requires
        x >= 0,
    ensures
        exists|r: int| is_isqrt(r, x),
    decreases x,
{
    if x == 0 {
        assert(is_isqrt(0, 0));
    } else {
        let y = x - 1;
        lemma_isqrt_exists(y);
        let r = choose|r: int| is_isqrt(r, y);
        if (r + 1) * (r + 1) <= x {
            assert(is_isqrt(r + 1, x)) by (nonlinear_arith)
                requires
                    is_isqrt(r, y),
                    y == x - 1,
                    (r + 1) * (r + 1) <= x,
            ;
        } else {
            assert(is_isqrt(r, x));
        }
    }
}

/// The square root of a nonnegative value is nonnegative, bounded, and
/// loses nothing to the narrowing of its integer root.
pub proof fn lemma_fsqrt_range(a: i64)
    requires
        0 <= a <= FX_MAX,
    ensures
        0 <= fsqrt(a) <= FX_MAX,
        fsqrt(a) == isqrt((a as int) * (SCALE as int)),
{
    let x = (a as int) * (SCALE as int);
    assert(0 <= x <= 1_000_000_000_000_000_000_000_000int) by (nonlinear_arith)
        requires
            0 <= a <= 1_000_000_000_000_000_000i64,
            x == (a as int) * (SCALE as int),
            SCALE == 1_000_000i64,
    ;
    lemma_isqrt_exists(x);
    let r = choose|r: int| is_isqrt(r, x);
    assert(is_isqrt(isqrt(x), x));
    assert(isqrt(x) <= 1_000_000_000_000int) by (nonlinear_arith)
        requires
            is_isqrt(isqrt(x), x),
            x <= 1_000_000_000_000_000_000_000_000int,
    ;
}

/// Any value whose square is below `x` bounds the integer square root of
/// `x` from below.
pub proof fn lemma_isqrt_at_least(x: int, r: int)
    requires
        0 <= r,
        r * r <= x,
    ensures
        isqrt(x) >= r,
{
    assert(x >= 0) by (nonlinear_arith)
        requires
            0 <= r,
            r * r <= x,
    ;
    lemma_isqrt_exists(x);
    assert(is_isqrt(isqrt(x), x));
    assert(isqrt(x) >= r) by (nonlinear_arith)
        requires
            is_isqrt(isqrt(x), x),
            0 <= r,
            r * r <= x,
    ;
}

/// Clipping preserves order.
pub proof fn lemma_sat_monotone(x: int, y: int)
    requires
        x <= y,
    ensures
        sat(x) <= sat(y),
{
}

/// Division by a positive divisor preserves order.
pub proof fn lemma_fdiv_monotone(x1: i64, x2: i64, b: i64)
    requires
        x1 <= x2,
        b > 0,
    ensures
        fdiv(x1, b) <= fdiv(x2, b),
{
    let s = SCALE as int;
    let a1 = (x1 as int) * s;
    let a2 = (x2 as int) * s;
    assert(a1 <= a2) by (nonlinear_arith)
        requires
            x1 <= x2,
            s == 1_000_000int,
            a1 == (x1 as int) * s,
            a2 == (x2 as int) * s,
    ;
    lemma_div_to_zero_monotone(a1, a2, b as int);
    lemma_sat_monotone(div_to_zero(a1, b as int), div_to_zero(a2, b as int));
}

/// Truncating division by a positive divisor preserves order.
pub proof fn lemma_div_to_zero_monotone(a1: int, a2: int, b: int)
    requires
        a1 <= a2,
        b > 0,
    ensures
        div_to_zero(a1, b) <= div_to_zero(a2, b),
{
    if a1 >= 0 {
        vstd::arithmetic::div_mod::lemma_div_is_ordered(a1, a2, b);
    } else if a2 < 0 {
        vstd::arithmetic::div_mod::lemma_div_is_ordered(-a2, -a1, b);
    } else {
        vstd::arithmetic::div_mod::lemma_div_is_ordered(0, -a1, b);
        vstd::arithmetic::div_mod::lemma_div_is_ordered(0, a2, b);
        assert(0int / b == 0) by (nonlinear_arith)
            requires
                b > 0,
        ;
    }
}

/// Quotient of `a` by a positive `b`, rounded toward zero.
fn div_i128_to_zero(a: i128, b: i128) -> (r: i128)
    requires
        b > 0,
        a > i128::MIN,
    ensures
        r == div_to_zero(a as int, b as int),
        0 <= r <= a || a < 0 <= -r <= -a,
{
    if a >= 0 {
        let q: u128 = (a as u128) / (b as u128);
        assert(q <= a as u128);
        q as i128
    } else {
        let n: i128 = -a;
        let q: u128 = (n as u128) / (b as u128);
        assert(q <= n as u128);
        -(q as i128)
    }
}

/// Clip an `i128` intermediate into the fixed-point range.
fn sat_i128(x: i128) -> (r: i64)
    ensures
        r == sat(x as int),
{
    if x > FX_MAX as i128 {
        FX_MAX
    } else if x < -(FX_MAX as i128) {
        -FX_MAX
    } else {
        x as i64
    }
}

/// Saturating fixed-point addition.
pub fn fx_add(a: i64, b: i64) -> (r: i64)
    requires
        fx_wf(a),
        fx_wf(b),
    ensures
        r == spec_add(a as int, b as int),
        fx_wf(r),
{
    sat_i128(a as i128 + b as i128)
}

/// Saturating fixed-point subtraction.
pub fn fx_sub(a: i64, b: i64) -> (r: i64)
    requires
        fx_wf(a),
        fx_wf(b),
    ensures
        r == spec_sub(a as int, b as int),
        fx_wf(r),
{
    sat_i128(a as i128 - b as i128)
}

/// Fixed-point negation (exact: the range is symmetric).
pub fn fx_neg(a: i64) -> (r: i64)
    requires
        fx_wf(a),
    ensures
        r == -a,
        fx_wf(r),
{
    -a
}

/// Saturating fixed-point multiplication.
pub fn fx_mul(a: i64, b: i64) -> (r: i64)
    requires
        fx_wf(a),
        fx_wf(b),
    ensures
        r == spec_mul(a as int, b as int),
        fx_wf(r),
{
    assert((a as int) * (b as int) <= 1_000_000_000_000_000_000_000_000_000_000_000_000int
        && -1_000_000_000_000_000_000_000_000_000_000_000_000int <= (a as int) * (b as int))
        by (nonlinear_arith)
        requires
            -1_000_000_000_000_000_000i64 <= a <= 1_000_000_000_000_000_000i64,
            -1_000_000_000_000_000_000i64 <= b <= 1_000_000_000_000_000_000i64,
    ;
    let p: i128 = (a as i128) * (b as i128);
    let q = div_i128_to_zero(p, SCALE as i128);
    sat_i128(q)
}

/// Saturating fixed-point division by a positive divisor.
pub fn fx_div(a: i64, b: i64) -> (r: i64)
    requires
        fx_wf(a),
        fx_wf(b),
        b > 0,
    ensures
        r == spec_div(a as int, b as int),
        fx_wf(r),
{
    let p: i128 = (a as i128) * (SCALE as i128);
    let q = div_i128_to_zero(p, b as i128);
    sat_i128(q)
}

/// Integer square root by bisection.
fn isqrt_u128(x: u128) -> (r: u128)
    requires
        x < 0x4000_0000_0000_0000_0000_0000_0000_0000u128,
    ensures
        is_isqrt(r as int, x as int),
{
    let mut lo: u128 = 0;
    let mut hi: u128 = 0x8000_0000_0000_0000u128;
    assert(0x8000_0000_0000_0000int * 0x8000_0000_0000_0000int
        == 0x4000_0000_0000_0000_0000_0000_0000_0000int) by (nonlinear_arith);
    while hi - lo > 1
        invariant
            lo < hi <= 0x8000_0000_0000_0000u128,
            (lo as int) * (lo as int) <= x as int,
            (x as int) < (hi as int) * (hi as int),
        decreases hi - lo,
    {
        let mid: u128 = lo + (hi - lo) / 2;
        assert(lo < mid < hi);
        assert((mid as int) * (mid as int) <= 0x4000_0000_0000_0000_0000_0000_0000_0000int)
            by (nonlinear_arith)
            requires
                mid <= 0x8000_0000_0000_0000u128,
        ;
        let sq: u128 = mid * mid;
        if sq <= x {
            lo = mid;
        } else {
            hi = mid;
        }
    }
    lo
}

/// Fixed-point square root of a nonnegative value.
pub fn fx_sqrt(a: i64) -> (r: i64)
    requires
        0 <= a <= FX_MAX,
    ensures
        r == spec_sqrt(a as int),
        0 <= r <= FX_MAX,
{
    assert((a as int) * (SCALE as int) <= 1_000_000_000_000_000_000_000_000int)
        by (nonlinear_arith)
        requires
            0 <= a <= 1_000_000_000_000_000_000i64,
    ;
    let x: u128 = (a as u128) * (SCALE as u128);
    let r = isqrt_u128(x);
    assert(r as int <= 1_000_000_000_000int) by (nonlinear_arith)
        requires
            is_isqrt(r as int, x as int),
            x <= 1_000_000_000_000_000_000_000_000u128,
    ;
    proof {
        assert(is_isqrt(isqrt(x as int), x as int)) by {
            assert(exists|q: int| is_isqrt(q, x as int)) by {
                assert(is_isqrt(r as int, x as int));
            }
        }
        lemma_isqrt_unique(r as int, isqrt(x as int), x as int);
    }
    r as i64
}

/// The smaller of two fixed-point values.
pub fn fx_min(a: i64, b: i64) -> (r: i64)
    ensures
        r == fmin(a, b),
{
    if a <= b {
        a
    } else {
        b
    }
}

/// The larger of two fixed-point values.
pub fn fx_max(a: i64, b: i64) -> (r: i64)
    ensures
        r == fmax(a, b),
{
    if a >= b {
        a
    } else {
        b
    }
}

/// The value of `x` clamped into `[lo, hi]`.
pub open spec fn spec_clamp(x: int, lo: int, hi: int) -> int {
    if x < lo {
        lo
    } else if x > hi {
        hi
    } else {
        x
    }
}

/// Clamp a fixed-point value into `[lo, hi]`.
pub fn fx_clamp(x: i64, lo: i64, hi: i64) -> (r: i64)
    requires
        lo <= hi,
    ensures
        r == spec_clamp(x as int, lo as int, hi as int),
{
    if x < lo {
        lo
    } else if x > hi {
        hi
    } else {
        x
    }
}

} // verus!
