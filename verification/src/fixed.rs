//! Fixed-point arithmetic: signed 64-bit values carrying 20 fractional bits.
//!
//! A quantity `x` is represented by the integer `x * ONE` truncated toward
//! zero.  All pipeline arithmetic is expressed with the exact integer
//! operations below, so contracts can state results as closed formulas.

use vstd::prelude::*;
use vstd::arithmetic::div_mod::{
    lemma_div_pos_is_pos, lemma_div_nonincreasing, lemma_multiply_divide_le,
};

verus! {

/// The fixed-point unit: 2^20.
pub const ONE: i64 = 1048576;

/// One half in fixed point.
pub const HALF: i64 = 524288;

/// Truncating (round-toward-zero) division for `b > 0`, the semantics of
/// Rust's `/` operator on signed integers.
pub open spec fn tdiv(a: int, b: int) -> int {
    if a >= 0 {
        a / b
    } else {
        -((-a) / b)
    }
}

/// Fixed-point product: `a * b` rescaled by `ONE`, truncated toward zero.
pub open spec fn qmul(a: int, b: int) -> int {
    tdiv(a * b, ONE as int)
}

/// Fixed-point quotient: `a / b` rescaled by `ONE`, truncated toward zero.
pub open spec fn qdiv(a: int, b: int) -> int {
    tdiv(a * ONE, b)
}

/// The truncating quotient keeps the sign of the dividend, and lies within
/// any bounds `[lo * b, hi * b]` that enclose the dividend.
pub proof fn lemma_tdiv_range(a: int, b: int, lo: int, hi: int)
    requires
        b > 0,
        lo <= 0,
        hi >= 0,
        lo * b <= a <= hi * b,
    ensures
        lo <= tdiv(a, b) <= hi,
        a >= 0 ==> 0 <= tdiv(a, b) <= a,
        a < 0 ==> a <= tdiv(a, b) <= 0,
{
    if a >= 0 {
        lemma_div_pos_is_pos(a, b);
        lemma_div_nonincreasing(a, b);
        vstd::arithmetic::mul::lemma_mul_is_commutative(hi, b);
        lemma_multiply_divide_le(a, b, hi);
    } else {
        lemma_div_pos_is_pos(-a, b);
        lemma_div_nonincreasing(-a, b);
        assert(-a <= b * (-lo)) by (nonlinear_arith)
            requires
                lo * b <= a,
        ;
        lemma_multiply_divide_le(-a, b, -lo);
    }
}

/// The fixed-point product is monotone and stays nonnegative on nonnegative
/// operands.
pub proof fn lemma_qmul_mono_nonneg(a1: int, b1: int, a2: int, b2: int)
    requires
        0 <= a1 <= a2,
        0 <= b1 <= b2,
    ensures
        0 <= qmul(a1, b1) <= qmul(a2, b2),
{
    assert(0 <= a1 * b1 <= a2 * b2) by (nonlinear_arith)
        requires
            0 <= a1 <= a2,
            0 <= b1 <= b2,
    ;
    lemma_div_pos_is_pos(a1 * b1, ONE as int);
    vstd::arithmetic::div_mod::lemma_div_is_ordered(a1 * b1, a2 * b2, ONE as int);
}

/// The truncating quotient, scaled back up by the divisor, never passes the
/// dividend: it stays between zero and the dividend.
pub proof fn lemma_tdiv_mul_bound(a: int, b: int)
    requires
        b > 0,
    ensures
        a >= 0 ==> 0 <= tdiv(a, b) * b <= a,
        a < 0 ==> a <= tdiv(a, b) * b <= 0,
{
    if a >= 0 {
        vstd::arithmetic::div_mod::lemma_fundamental_div_mod(a, b);
        vstd::arithmetic::div_mod::lemma_mod_division_less_than_divisor(a, b);
        lemma_div_pos_is_pos(a, b);
        vstd::arithmetic::mul::lemma_mul_is_commutative(b, a / b);
    } else {
        vstd::arithmetic::div_mod::lemma_fundamental_div_mod(-a, b);
        vstd::arithmetic::div_mod::lemma_mod_division_less_than_divisor(-a, b);
        lemma_div_pos_is_pos(-a, b);
        vstd::arithmetic::mul::lemma_mul_is_commutative(b, (-a) / b);
        vstd::arithmetic::mul::lemma_mul_nonnegative((-a) / b, b);
        vstd::arithmetic::mul::lemma_mul_unary_negation((-a) / b, b);
    }
}

/// Magnitudes multiply: a product of bounded factors is bounded.
pub proof fn lemma_mul_abs_bound(a: int, b: int, m: int)
    by (nonlinear_arith)
    requires
        -m <= a <= m,
        -m <= b <= m,
        0 <= m,
    ensures
        -m * m <= a * b <= m * m,
{
}

/// Fixed-point multiplication.  The requirement keeps the rescaled result
/// within `i64`; every pipeline caller works with much smaller magnitudes.
pub fn q_mul(a: i64, b: i64) -> (r: i64)
    requires
        -i64::MAX * (ONE as int) <= a * b <= i64::MAX * (ONE as int),
    ensures
        r == qmul(a as int, b as int),
        a * b >= 0 ==> 0 <= r && r * (ONE as int) <= a * b,
        a * b < 0 ==> r <= 0 && a * b <= r * (ONE as int),
{
    let p: i128 = (a as i128) * (b as i128);
    proof {
        lemma_tdiv_range(a as int * b as int, ONE as int, -i64::MAX as int, i64::MAX as int);
        lemma_tdiv_mul_bound(a as int * b as int, ONE as int);
    }
    (p / (ONE as i128)) as i64
}

/// Fixed-point division by a positive divisor.
pub fn q_div(a: i64, b: i64) -> (r: i64)
    requires
        b > 0,
        -i64::MAX * (b as int) <= a * (ONE as int) <= i64::MAX * (b as int),
    ensures
        r == qdiv(a as int, b as int),
        a >= 0 ==> 0 <= r && r * (b as int) <= a * (ONE as int),
        a < 0 ==> r <= 0 && a * (ONE as int) <= r * (b as int),
{
    let p: i128 = (a as i128) * (ONE as i128);
    proof {
        lemma_tdiv_range(a as int * ONE as int, b as int, -i64::MAX as int, i64::MAX as int);
        lemma_tdiv_mul_bound(a as int * ONE as int, b as int);
    }
    (p / (b as i128)) as i64
}

/// The integer square root: the unique `r >= 0` with `r^2 <= x < (r+1)^2`.
pub open spec fn spec_isqrt(x: int) -> int {
    choose|r: int| r >= 0 && #[trigger] (r * r) <= x && (r + 1) * (r + 1) > x
}

/// Two integer square roots of the same value coincide.
pub proof fn lemma_isqrt_unique(x: int, r1: int, r2: int)
    by (nonlinear_arith)
    requires
        r1 >= 0,
        r1 * r1 <= x,
        (r1 + 1) * (r1 + 1) > x,
        r2 >= 0,
        r2 * r2 <= x,
        (r2 + 1) * (r2 + 1) > x,
    ensures
        r1 == r2,
{
}

/// Integer square root by bisection.
pub fn isqrt_u128(x: u128) -> (r: u64)
    ensures
        r * r <= x < (r + 1) * (r + 1),
        r == spec_isqrt(x as int),
{
    let mut lo: u128 = 0;
    let mut hi: u128 = 18446744073709551616;
    proof {
        assert(x < hi * hi) by (nonlinear_arith)
            requires
                hi == 18446744073709551616,
                x <= 340282366920938463463374607431768211455,
        ;
    }
    while hi - lo > 1
        invariant
            lo < hi <= 18446744073709551616,
            lo * lo <= x,
            x < hi * hi,
        decreases hi - lo,
    {
        let mid = lo + (hi - lo) / 2;
        proof {
            assert(mid * mid < 340282366920938463463374607431768211455)
                by (nonlinear_arith)
                requires
                    mid < 18446744073709551616,
            ;
        }
        if mid * mid <= x {
            lo = mid;
        } else {
            hi = mid;
        }
    }
    proof {
        assert((lo + 1) * (lo + 1) > x);
        assert(exists|r: int| r >= 0 && #[trigger] (r * r) <= x && (r + 1) * (r + 1) > x) by {
            assert(lo as int >= 0 && (lo as int) * (lo as int) <= x
                && (lo as int + 1) * (lo as int + 1) > x);
        }
        lemma_isqrt_unique(x as int, lo as int, spec_isqrt(x as int));
    }
    lo as u64
}

} // verus!
