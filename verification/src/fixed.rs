//! Saturating fixed-point arithmetic on `i64`.
//!
//! A value `v: i64` stands for the real number `v / SCALE`.  Products and
//! quotients are computed exactly in 128-bit intermediates, truncated toward
//! zero, and saturated into the `i64` range; every executable operation is
//! proved equal to its specification-level counterpart.

use vstd::prelude::*;
use vstd::arithmetic::div_mod::{lemma_div_pos_is_pos, lemma_div_is_ordered, lemma_div_basics_5};
use vstd::arithmetic::mul::lemma_mul_nonnegative;

verus! {

/// Fixed-point scale: an `i64` value `v` stands for the real number `v / SCALE`.
pub const SCALE: i64 = 1000;

/// Saturation of a mathematical integer into the `i64` range.
pub open spec fn sat64(x: int) -> int {
    if x > i64::MAX {
        i64::MAX as int
    } else if x < i64::MIN {
        i64::MIN as int
    } else {
        x
    }
}

/// Division truncated toward zero (every use has a positive divisor).
pub open spec fn tdiv(x: int, d: int) -> int {
    if x >= 0 {
        x / d
    } else {
        -((-x) / d)
    }
}

/// Saturating fixed-point sum.
pub open spec fn sfadd(a: int, b: int) -> int {
    sat64(a + b)
}

/// Saturating fixed-point difference.
pub open spec fn sfsub(a: int, b: int) -> int {
    sat64(a - b)
}

/// Saturating fixed-point product: `a * b / SCALE`, truncated toward zero.
pub open spec fn sfmul(a: int, b: int) -> int {
    sat64(tdiv(a * b, SCALE as int))
}

/// Saturating fixed-point quotient: `a * SCALE / b`, truncated toward zero.
pub open spec fn sfdiv(a: int, b: int) -> int {
    sat64(tdiv(a * (SCALE as int), b))
}

/// The larger of `x` and zero.
pub open spec fn max0(x: int) -> int {
    if x > 0 {
        x
    } else {
        0
    }
}

/// Floor of the square root of `n` (zero for negative `n`).
pub open spec fn sqrt_floor(n: int) -> int
    decreases n,
{
    if n < 1 {
        0
    } else {
        let r = sqrt_floor(n - 1);
        if (r + 1) * (r + 1) <= n {
            r + 1
        } else {
            r
        }
    }
}

/// Fixed-point square root of a non-negative value: `floor(sqrt(a * SCALE))`,
/// so that the result again stands for `sqrt(a / SCALE)` at scale `SCALE`.
pub open spec fn sfsqrt(a: int) -> int {
    sqrt_floor(a * (SCALE as int))
}

/// Fixed-point power: `b` multiplied into `SCALE` (the fixed-point one)
/// `n` times, saturating at every step.
pub open spec fn sfpow(b: int, n: nat) -> int
    decreases n,
{
    if n == 0 {
        SCALE as int
    } else {
        sfmul(sfpow(b, (n - 1) as nat), b)
    }
}

/// `sqrt_floor(n)` is the unique non-negative root bracket of `n`.
pub proof fn lemma_sqrt_floor_props(n: int)
    requires
        n >= 0,
    ensures
        sqrt_floor(n) >= 0,
        sqrt_floor(n) * sqrt_floor(n) <= n,
        n < (sqrt_floor(n) + 1) * (sqrt_floor(n) + 1),
    decreases n,
{
    if n < 1 {
        assert(sqrt_floor(n) == 0);
    } else {
        lemma_sqrt_floor_props(n - 1);
        let r = sqrt_floor(n - 1);
        if (r + 1) * (r + 1) <= n {
            assert(n - 1 < (r + 1) * (r + 1));
            assert(n == (r + 1) * (r + 1));
            assert((r + 1 + 1) * (r + 1 + 1) > (r + 1) * (r + 1)) by (nonlinear_arith)
                requires
                    r >= 0,
            ;
        }
    }
}

/// Any `r` with `r^2 <= n < (r+1)^2` is `sqrt_floor(n)`.
pub proof fn lemma_sqrt_floor_unique(n: int, r: int)
    requires
        n >= 0,
        r >= 0,
        r * r <= n,
        n < (r + 1) * (r + 1),
    ensures
        r == sqrt_floor(n),
{
    lemma_sqrt_floor_props(n);
    let s = sqrt_floor(n);
    if r < s {
        assert((r + 1) * (r + 1) <= s * s) by (nonlinear_arith)
            requires
                0 <= r,
                r + 1 <= s,
        ;
    }
    if s < r {
        assert((s + 1) * (s + 1) <= r * r) by (nonlinear_arith)
            requires
                0 <= s,
                s + 1 <= r,
        ;
    }
}

/// Truncating division of non-negative by positive stays non-negative.
pub proof fn lemma_tdiv_nonneg(x: int, d: int)
    requires
        x >= 0,
        d > 0,
    ensures
        tdiv(x, d) >= 0,
{
    lemma_div_pos_is_pos(x, d);
}

/// Truncating division by a positive divisor is monotone in the numerator.
pub proof fn lemma_tdiv_monotone(x: int, y: int, d: int)
    requires
        x <= y,
        d > 0,
    ensures
        tdiv(x, d) <= tdiv(y, d),
{
    if x >= 0 {
        lemma_div_is_ordered(x, y, d);
    } else if y >= 0 {
        lemma_div_pos_is_pos(y, d);
        lemma_div_pos_is_pos(-x, d);
    } else {
        lemma_div_is_ordered(-y, -x, d);
    }
}

/// A fixed-point product of non-negative factors is non-negative.
pub proof fn lemma_sfmul_nonneg(a: int, b: int)
    requires
        a >= 0,
        b >= 0,
    ensures
        sfmul(a, b) >= 0,
{
    lemma_mul_nonnegative(a, b);
    lemma_tdiv_nonneg(a * b, SCALE as int);
}

/// A fixed-point power of a non-negative base is non-negative.
pub proof fn lemma_sfpow_nonneg(b: int, n: nat)
    requires
        b >= 0,
    ensures
        sfpow(b, n) >= 0,
    decreases n,
{
    if n > 0 {
        lemma_sfpow_nonneg(b, (n - 1) as nat);
        lemma_sfmul_nonneg(sfpow(b, (n - 1) as nat), b);
    }
}

/// Exact 128-bit product of two `i64` values.
pub fn mul_wide(a: i64, b: i64) -> (p: i128)
    ensures
        p == a as int * b as int,
        -0x40000000000000000000000000000000 <= p <= 0x40000000000000000000000000000000,
{
    proof {
        assert(a as int * b as int <= 0x40000000000000000000000000000000int
            && a as int * b as int >= -0x40000000000000000000000000000000int) by (nonlinear_arith);
    }
    (a as i128) * (b as i128)
}

/// Truncating division of an `i128` by a positive divisor.
pub fn tdiv128(x: i128, d: i128) -> (q: i128)
    requires
        d > 0,
        x > i128::MIN,
    ensures
        q == tdiv(x as int, d as int),
{
    let dd: u128 = d as u128;
    if x >= 0 {
        let m: u128 = x as u128;
        let q0: u128 = m / dd;
        proof {
            lemma_div_basics_5(m as int, dd as int);
        }
        q0 as i128
    } else {
        let m: u128 = (-x) as u128;
        let q0: u128 = m / dd;
        proof {
            lemma_div_basics_5(m as int, dd as int);
        }
        -(q0 as i128)
    }
}

/// Saturation of an `i128` into the `i64` range.
pub fn sat_to_i64(x: i128) -> (r: i64)
    ensures
        r == sat64(x as int),
{
    if x > i64::MAX as i128 {
        i64::MAX
    } else if x < i64::MIN as i128 {
        i64::MIN
    } else {
        x as i64
    }
}

/// Saturating fixed-point addition.
pub fn fadd(a: i64, b: i64) -> (r: i64)
    ensures
        r == sfadd(a as int, b as int),
{
    sat_to_i64((a as i128) + (b as i128))
}

/// Saturating fixed-point subtraction.
pub fn fsub(a: i64, b: i64) -> (r: i64)
    ensures
        r == sfsub(a as int, b as int),
{
    sat_to_i64((a as i128) - (b as i128))
}

/// Saturating fixed-point multiplication.
pub fn fmul(a: i64, b: i64) -> (r: i64)
    ensures
        r == sfmul(a as int, b as int),
{
    let p: i128 = mul_wide(a, b);
    let q: i128 = tdiv128(p, SCALE as i128);
    sat_to_i64(q)
}

/// Saturating fixed-point division by a positive divisor.
pub fn fdiv(a: i64, b: i64) -> (r: i64)
    requires
        b > 0,
    ensures
        r == sfdiv(a as int, b as int),
{
    let p: i128 = mul_wide(a, SCALE);
    let q: i128 = tdiv128(p, b as i128);
    sat_to_i64(q)
}

/// The larger of `x` and zero.
pub fn fmax0(x: i64) -> (r: i64)
    ensures
        r == max0(x as int),
{
    if x > 0 {
        x
    } else {
        0
    }
}

/// Fixed-point square root of a non-negative value.
pub fn fsqrt(a: i64) -> (r: i64)
    requires
        a >= 0,
    ensures
        r == sfsqrt(a as int),
        r >= 0,
{
    let n: u128 = (a as u128) * 1000u128;
    let mut lo: u128 = 0;
    let mut hi: u128 = 0x10000000000u128;
    proof {
        assert(SCALE == 1000);
        assert(n == a as int * (SCALE as int));
        assert(n < 0x4000000000000000000u128) by (nonlinear_arith)
            requires
                n == a as int * 1000,
                0 <= a as int <= 0x7fffffffffffffffint,
        ;
        assert(n < hi * hi) by (nonlinear_arith)
            requires
                n < 0x4000000000000000000u128,
                hi == 0x10000000000u128,
        ;
    }
    while hi - lo > 1
        invariant
            lo < hi,
            hi <= 0x10000000000u128,
            lo * lo <= n,
            n < hi * hi,
        decreases hi - lo,
    {
        let mid: u128 = lo + (hi - lo) / 2;
        proof {
            assert(lo < mid < hi);
            assert(mid * mid < 0x100000000000000000000u128) by (nonlinear_arith)
                requires
                    mid < 0x10000000000u128,
            ;
        }
        let sq: u128 = mid * mid;
        if sq <= n {
            lo = mid;
        } else {
            hi = mid;
        }
    }
    proof {
        assert(hi == lo + 1);
        assert(n < 0x4000000000000000000u128);
        assert(lo < 0x2000000000u128) by (nonlinear_arith)
            requires
                lo * lo <= n,
                n < 0x4000000000000000000u128,
        ;
        lemma_sqrt_floor_unique(n as int, lo as int);
    }
    lo as i64
}

/// Saturating fixed-point power with a non-negative exponent.
pub fn fpow(b: i64, n: u32) -> (r: i64)
    ensures
        r == sfpow(b as int, n as nat),
{
    let mut r: i64 = SCALE;
    let mut i: u32 = 0;
    while i < n
        invariant
            i <= n,
            r == sfpow(b as int, i as nat),
        decreases n - i,
    {
        r = fmul(r, b);
        i = i + 1;
        proof {
            assert(sfpow(b as int, i as nat) == sfmul(sfpow(b as int, (i - 1) as nat), b as int));
        }
    }
    r
}

} // verus!
