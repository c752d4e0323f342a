//! Fixed-point 3-D vectors: positions and directions.

use vstd::prelude::*;
use crate::fixed::{
    sfadd, sfsub, sfmul, sfdiv, sfsqrt, fadd, fsub, fmul, fdiv, fsqrt, lemma_tdiv_nonneg, SCALE,
};

verus! {

/// A 3-component vector whose components are fixed-point numbers at scale
/// `SCALE`.
#[derive(Clone, Copy, PartialEq, Eq, Structural, Debug)]
pub struct Vec3 {
    pub x: i64,
    pub y: i64,
    pub z: i64,
}

/// Component-wise saturating sum.
pub open spec fn v_add(a: Vec3, b: Vec3) -> Vec3 {
    Vec3 {
        x: sfadd(a.x as int, b.x as int) as i64,
        y: sfadd(a.y as int, b.y as int) as i64,
        z: sfadd(a.z as int, b.z as int) as i64,
    }
}

/// Component-wise saturating difference.
pub open spec fn v_sub(a: Vec3, b: Vec3) -> Vec3 {
    Vec3 {
        x: sfsub(a.x as int, b.x as int) as i64,
        y: sfsub(a.y as int, b.y as int) as i64,
        z: sfsub(a.z as int, b.z as int) as i64,
    }
}

/// Component-wise negation (saturating at the far end of the range).
pub open spec fn v_neg(a: Vec3) -> Vec3 {
    Vec3 {
        x: sfsub(0, a.x as int) as i64,
        y: sfsub(0, a.y as int) as i64,
        z: sfsub(0, a.z as int) as i64,
    }
}

/// Every component multiplied by the fixed-point scalar `k`.
pub open spec fn v_scale(a: Vec3, k: int) -> Vec3 {
    Vec3 {
        x: sfmul(a.x as int, k) as i64,
        y: sfmul(a.y as int, k) as i64,
        z: sfmul(a.z as int, k) as i64,
    }
}

/// Fixed-point dot product: the three component products summed with
/// saturating additions.
pub open spec fn v_dot(a: Vec3, b: Vec3) -> int {
    sfadd(
        sfadd(sfmul(a.x as int, b.x as int), sfmul(a.y as int, b.y as int)),
        sfmul(a.z as int, b.z as int),
    )
}

/// Fixed-point Euclidean norm: the square root of the vector's dot product
/// with itself.
pub open spec fn v_norm(a: Vec3) -> int {
    sfsqrt(v_dot(a, a))
}

/// The unit vector with the direction of `a`; a vector whose norm rounds to
/// zero has no direction and normalizes to the zero vector.
pub open spec fn v_normalize(a: Vec3) -> Vec3 {
    let n = v_norm(a);
    if n <= 0 {
        Vec3 { x: 0, y: 0, z: 0 }
    } else {
        Vec3 {
            x: sfdiv(a.x as int, n) as i64,
            y: sfdiv(a.y as int, n) as i64,
            z: sfdiv(a.z as int, n) as i64,
        }
    }
}

/// The dot product of a vector with itself is non-negative.
pub proof fn lemma_v_dot_self_nonneg(a: Vec3)
    ensures
        v_dot(a, a) >= 0,
{
    assert(a.x as int * a.x as int >= 0) by (nonlinear_arith);
    assert(a.y as int * a.y as int >= 0) by (nonlinear_arith);
    assert(a.z as int * a.z as int >= 0) by (nonlinear_arith);
    lemma_tdiv_nonneg(a.x as int * a.x as int, SCALE as int);
    lemma_tdiv_nonneg(a.y as int * a.y as int, SCALE as int);
    lemma_tdiv_nonneg(a.z as int * a.z as int, SCALE as int);
}

impl Vec3 {
    /// Vector sum.
    pub fn add(self, o: Vec3) -> (r: Vec3)
        ensures
            r == v_add(self, o),
    {
        Vec3 { x: fadd(self.x, o.x), y: fadd(self.y, o.y), z: fadd(self.z, o.z) }
    }

    /// Vector difference.
    pub fn sub(self, o: Vec3) -> (r: Vec3)
        ensures
            r == v_sub(self, o),
    {
        Vec3 { x: fsub(self.x, o.x), y: fsub(self.y, o.y), z: fsub(self.z, o.z) }
    }

    /// Vector negation.
    pub fn neg(self) -> (r: Vec3)
        ensures
            r == v_neg(self),
    {
        Vec3 { x: fsub(0, self.x), y: fsub(0, self.y), z: fsub(0, self.z) }
    }

    /// Vector scaled by the fixed-point scalar `k`.
    pub fn scale(self, k: i64) -> (r: Vec3)
        ensures
            r == v_scale(self, k as int),
    {
        Vec3 { x: fmul(self.x, k), y: fmul(self.y, k), z: fmul(self.z, k) }
    }

    /// Dot product.
    pub fn dot(self, o: Vec3) -> (r: i64)
        ensures
            r == v_dot(self, o),
    {
        fadd(fadd(fmul(self.x, o.x), fmul(self.y, o.y)), fmul(self.z, o.z))
    }

    /// Euclidean norm.
    pub fn norm(self) -> (r: i64)
        ensures
            r == v_norm(self),
            r >= 0,
    {
        let d: i64 = self.dot(self);
        proof {
            lemma_v_dot_self_nonneg(self);
        }
        fsqrt(d)
    }

    /// Unit vector in the direction of `self` (the zero vector when the norm
    /// rounds to zero).
    pub fn normalize(self) -> (r: Vec3)
        ensures
            r == v_normalize(self),
    {
        let n: i64 = self.norm();
        if n == 0 {
            Vec3 { x: 0, y: 0, z: 0 }
        } else {
            Vec3 { x: fdiv(self.x, n), y: fdiv(self.y, n), z: fdiv(self.z, n) }
        }
    }
}

} // verus!
