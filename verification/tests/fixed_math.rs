//! Exact-value tests of the fixed-point arithmetic core.

use raytracer::fixed::{fadd, fsub, fmul, fdiv, fsqrt, fpow, fmax0, SCALE};

#[test]
fn scale_is_one_thousand() {
    assert_eq!(SCALE, 1000);
}

#[test]
fn add_exact() {
    assert_eq!(fadd(1500, 250), 1750);
    assert_eq!(fadd(-1500, 250), -1250);
}

#[test]
fn add_saturates() {
    assert_eq!(fadd(i64::MAX, 1), i64::MAX);
    assert_eq!(fadd(i64::MIN, -1), i64::MIN);
}

#[test]
fn sub_exact() {
    assert_eq!(fsub(1000, 3000), -2000);
    assert_eq!(fsub(i64::MIN, 1), i64::MIN);
}

#[test]
fn mul_exact() {
    assert_eq!(fmul(2000, 3000), 6000);
    assert_eq!(fmul(-2000, 3000), -6000);
    assert_eq!(fmul(-2000, -3000), 6000);
}

#[test]
fn mul_truncates_toward_zero() {
    assert_eq!(fmul(1, 1), 0);
    assert_eq!(fmul(-1, 999), 0);
    assert_eq!(fmul(1500, 3), 4);
    assert_eq!(fmul(-1500, 3), -4);
}

#[test]
fn mul_saturates() {
    assert_eq!(fmul(i64::MAX, 2000), i64::MAX);
    assert_eq!(fmul(i64::MAX, -2000), i64::MIN);
}

#[test]
fn div_exact() {
    assert_eq!(fdiv(3000, 2000), 1500);
    assert_eq!(fdiv(-3000, 2000), -1500);
    assert_eq!(fdiv(1000, 3000), 333);
    assert_eq!(fdiv(-1000, 3000), -333);
}

#[test]
fn sqrt_exact() {
    assert_eq!(fsqrt(0), 0);
    assert_eq!(fsqrt(4000), 2000);
    assert_eq!(fsqrt(25000), 5000);
    assert_eq!(fsqrt(2000), 1414);
    assert_eq!(fsqrt(1000), 1000);
}

#[test]
fn pow_exact() {
    assert_eq!(fpow(2000, 0), 1000);
    assert_eq!(fpow(2000, 1), 2000);
    assert_eq!(fpow(2000, 3), 8000);
    assert_eq!(fpow(500, 2), 250);
    assert_eq!(fpow(1000, 500), 1000);
}

#[test]
fn max0_clamps() {
    assert_eq!(fmax0(-5), 0);
    assert_eq!(fmax0(7), 7);
    assert_eq!(fmax0(0), 0);
}
