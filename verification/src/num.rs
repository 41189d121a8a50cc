//! Fixed-point integer arithmetic helpers shared by the whole simulation.
//!
//! `SCALE` micro-units make one world unit; division always truncates toward
//! zero, matching the underlying machine division on magnitudes.

use vstd::prelude::*;

verus! {

/// Micro-units per world unit.
pub const SCALE: i64 = 1_000_000;
/// Milliseconds per second; durations are stored in milliseconds.
pub const MS_PER_S: i64 = 1_000;

/// Truncating (toward zero) division on mathematical integers, `b > 0`.
pub open spec fn tdiv(a: int, b: int) -> int
    recommends
        b > 0,
{
    if a >= 0 {
        a / b
    } else {
        -((-a) / b)
    }
}

/// Magnitude of a mathematical integer.
pub open spec fn abs_i(a: int) -> int {
    if a >= 0 {
        a
    } else {
        -a
    }
}

/// Division bound: a nonnegative quotient is at most `c` when `a <= b * c`.
pub proof fn lemma_tdiv_le(a: int, b: int, c: int)
    requires
        b > 0,
        0 <= a,
        a <= b * c,
    ensures
        0 <= tdiv(a, b) <= c,
{
    vstd::arithmetic::div_mod::lemma_div_pos_is_pos(a, b);
    vstd::arithmetic::div_mod::lemma_multiply_divide_le(a, b, c);
}

/// Division bound on magnitudes: `|a| <= b * c` gives `|a / b| <= c`.
pub proof fn lemma_tdiv_abs(a: int, b: int, c: int)
    requires
        b > 0,
        0 <= c,
        abs_i(a) <= b * c,
    ensures
        abs_i(tdiv(a, b)) <= c,
{
    if a >= 0 {
        lemma_tdiv_le(a, b, c);
    } else {
        lemma_tdiv_le(-a, b, c);
    }
}

/// Truncating division by a positive divisor does not grow magnitudes.
pub proof fn lemma_tdiv_shrinks(a: int, b: int)
    requires
        b > 0,
    ensures
        abs_i(tdiv(a, b)) <= abs_i(a),
{
    if a >= 0 {
        vstd::arithmetic::div_mod::lemma_div_pos_is_pos(a, b);
        vstd::arithmetic::div_mod::lemma_div_nonincreasing(a, b);
    } else {
        vstd::arithmetic::div_mod::lemma_div_pos_is_pos(-a, b);
        vstd::arithmetic::div_mod::lemma_div_nonincreasing(-a, b);
    }
}

proof fn lemma_u128_div_le(a: u128, b: u128)
    requires
        b > 0,
    ensures
        a / b <= a,
{
    assert(a / b <= a) by (nonlinear_arith)
        requires
            b > 0,
    ;
}

/// Truncating division of an `i128` by a positive `i128`.
pub fn tdiv128(a: i128, b: i128) -> (r: i128)
    requires
        b > 0,
        a > i128::MIN,
    ensures
        r == tdiv(a as int, b as int),
        abs_i(r as int) <= abs_i(a as int),
{
    proof {
        lemma_u128_div_le(abs_i(a as int) as u128, b as u128);
    }
    if a >= 0 {
        let q: u128 = (a as u128) / (b as u128);
        q as i128
    } else {
        let q: u128 = ((-a) as u128) / (b as u128);
        -(q as i128)
    }
}

/// Exact product of two `i64` values, widened so it cannot overflow.
pub fn mul_i64(a: i64, b: i64) -> (r: i128)
    ensures
        r == a * b,
{
    proof {
        assert((a as int) * (b as int) <= i128::MAX && (a as int) * (b as int) >= i128::MIN)
            by (nonlinear_arith)
            requires
                i64::MIN <= a <= i64::MAX,
                i64::MIN <= b <= i64::MAX,
        ;
    }
    (a as i128) * (b as i128)
}

/// Clamps a wide intermediate value into `[lo, hi]`.
pub fn clamp128(v: i128, lo: i64, hi: i64) -> (r: i64)
    requires
        lo <= hi,
    ensures
        r == if v < lo {
            lo as int
        } else if v > hi {
            hi as int
        } else {
            v as int
        },
        lo <= r <= hi,
{
    if v < lo as i128 {
        lo
    } else if v > hi as i128 {
        hi
    } else {
        v as i64
    }
}

/// Whether `r` is the integer square root of `n`.
pub open spec fn is_sqrt_floor(n: int, r: int) -> bool {
    0 <= r && r * r <= n && (r + 1) * (r + 1) > n
}

/// The greatest integer whose square does not exceed `n`.
pub open spec fn sqrt_floor(n: int) -> int {
    choose|r: int| is_sqrt_floor(n, r)
}

/// Two integer square roots of the same value coincide.
pub proof fn lemma_sqrt_floor_unique(n: int, r: int)
    requires
        is_sqrt_floor(n, r),
    ensures
        sqrt_floor(n) == r,
{
    assert(exists|q: int| is_sqrt_floor(n, q)) by {
        assert(is_sqrt_floor(n, r));
    }
    let q = sqrt_floor(n);
    assert(is_sqrt_floor(n, q));
    if q < r {
        assert((q + 1) * (q + 1) <= r * r) by (nonlinear_arith)
            requires
                0 <= q,
                0 <= r,
                q < r,
        ;
    }
    if r < q {
        assert((r + 1) * (r + 1) <= q * q) by (nonlinear_arith)
            requires
                0 <= q,
                0 <= r,
                r < q,
        ;
    }
}

/// Integer square root: the greatest `r` with `r * r <= n`.
pub fn isqrt(n: u128) -> (r: u64)
    ensures
        (r as int) * (r as int) <= n as int,
        (r as int + 1) * (r as int + 1) > n as int,
        r as int == sqrt_floor(n as int),
{
    let mut lo: u128 = 0;
    let mut hi: u128 = 0x1_0000_0000_0000_0000;
    proof {
        assert((hi as int) * (hi as int) > u128::MAX) by (nonlinear_arith)
            requires
                hi == 0x1_0000_0000_0000_0000u128,
        ;
    }
    while lo + 1 < hi
        invariant
            (lo as int) * (lo as int) <= n as int,
            (hi as int) * (hi as int) > n as int,
            lo < hi,
            hi <= 0x1_0000_0000_0000_0000,
        decreases hi - lo,
    {
        let mid: u128 = lo + (hi - lo) / 2;
        proof {
            assert((mid as int) * (mid as int) < u128::MAX) by (nonlinear_arith)
                requires
                    mid < 0x1_0000_0000_0000_0000u128,
            ;
        }
        if mid * mid <= n {
            lo = mid;
        } else {
            hi = mid;
        }
    }
    proof {
        lemma_sqrt_floor_unique(n as int, lo as int);
    }
    lo as u64
}

} // verus!
