//! 8-bit RGB colors with a saturating fixed-point scale operation.

use vstd::prelude::*;
use crate::fixed::{tdiv, lemma_tdiv_nonneg, SCALE};
use vstd::arithmetic::mul::lemma_mul_nonnegative;

verus! {

/// A color with three independent 8-bit channels.
#[derive(Clone, Copy, PartialEq, Eq, Structural, Debug)]
pub struct Color {
    pub r: u8,
    pub g: u8,
    pub b: u8,
}

/// One channel multiplied by the fixed-point factor `k` and clamped into
/// [0, 255].
pub open spec fn scale_channel(c: int, k: int) -> int {
    let v = tdiv(c * k, SCALE as int);
    if v < 0 {
        0
    } else if v > 255 {
        255
    } else {
        v
    }
}

/// All three channels scaled by `k` and clamped.
pub open spec fn spec_scale(c: Color, k: int) -> Color {
    Color {
        r: scale_channel(c.r as int, k) as u8,
        g: scale_channel(c.g as int, k) as u8,
        b: scale_channel(c.b as int, k) as u8,
    }
}

/// One channel scaled by a non-negative fixed-point factor, clamped to 255.
fn chan_scale(c: u8, k: i64) -> (r: u8)
    requires
        k >= 0,
    ensures
        r == scale_channel(c as int, k as int),
{
    proof {
        assert(c as int * k as int <= 255 * 0x7fffffffffffffffint) by (nonlinear_arith)
            requires
                0 <= c as int <= 255,
                0 <= k as int <= 0x7fffffffffffffffint,
        ;
        lemma_mul_nonnegative(c as int, k as int);
        lemma_tdiv_nonneg(c as int * k as int, SCALE as int);
    }
    let p: u128 = (c as u128) * (k as u128);
    let q: u128 = p / 1000u128;
    proof {
        assert(SCALE == 1000);
    }
    if q > 255 {
        255
    } else {
        q as u8
    }
}

impl Color {
    /// This color scaled by the non-negative fixed-point factor `k`; each
    /// channel is clamped to 255 and never wraps.
    pub fn scale(self, k: i64) -> (r: Color)
        requires
            k >= 0,
        ensures
            r == spec_scale(self, k as int),
    {
        Color { r: chan_scale(self.r, k), g: chan_scale(self.g, k), b: chan_scale(self.b, k) }
    }
}

} // verus!
