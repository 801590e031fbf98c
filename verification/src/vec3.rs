//! 3D points and directions over fixed-point coordinates.

use vstd::prelude::*;

use crate::fixed::{
    fdiv, fdiv_s, fmul, fmul_s, iabs, isqrt, isqrt_s, lemma_isqrt_unique, sadd, sadd_s, sat64,
    ssub, ssub_s,
};

verus! {

/// A 3D point or direction. Each coordinate is a fixed-point value.
#[derive(Clone, Copy, Debug, PartialEq, Eq, Structural)]
pub struct Vec3 {
    pub x: i64,
    pub y: i64,
    pub z: i64,
}

impl Vec3 {
    /// Componentwise saturating sum.
    pub open spec fn add_s(self, o: Vec3) -> Vec3 {
        Vec3 { x: sadd_s(self.x, o.x), y: sadd_s(self.y, o.y), z: sadd_s(self.z, o.z) }
    }

    /// Componentwise saturating difference.
    pub open spec fn sub_s(self, o: Vec3) -> Vec3 {
        Vec3 { x: ssub_s(self.x, o.x), y: ssub_s(self.y, o.y), z: ssub_s(self.z, o.z) }
    }

    /// Componentwise negation.
    pub open spec fn neg_s(self) -> Vec3 {
        Vec3 { x: ssub_s(0, self.x), y: ssub_s(0, self.y), z: ssub_s(0, self.z) }
    }

    /// Componentwise fixed-point scaling.
    pub open spec fn scale_s(self, k: i64) -> Vec3 {
        Vec3 { x: fmul_s(self.x, k), y: fmul_s(self.y, k), z: fmul_s(self.z, k) }
    }

    /// Fixed-point dot product, summed left to right.
    pub open spec fn dot_s(self, o: Vec3) -> i64 {
        sadd_s(sadd_s(fmul_s(self.x, o.x), fmul_s(self.y, o.y)), fmul_s(self.z, o.z))
    }

    /// Sum of the squares of the raw coordinates. Since each coordinate is
    /// scaled by `ONE`, this sum is scaled by `ONE * ONE`, and its exact
    /// integer square root is the fixed-point length of the vector.
    pub open spec fn sumsq_s(self) -> int {
        self.x * self.x + self.y * self.y + self.z * self.z
    }

    /// Fixed-point Euclidean length (saturating).
    pub open spec fn norm_s(self) -> i64 {
        sat64(isqrt_s(self.sumsq_s() as nat) as int) as i64
    }

    /// The unit vector with this vector's direction, computed by fixed-point
    /// division of each coordinate by the length. The zero vector (the only
    /// vector of length zero) is returned unchanged: a degenerate ray built
    /// from it hits nothing, so the affected pixel resolves to the
    /// background color.
    pub open spec fn normalize_s(self) -> Vec3 {
        let n = self.norm_s();
        if n <= 0 {
            self
        } else {
            Vec3 { x: fdiv_s(self.x, n), y: fdiv_s(self.y, n), z: fdiv_s(self.z, n) }
        }
    }

    pub fn new(x: i64, y: i64, z: i64) -> (v: Vec3)
        ensures
            v == (Vec3 { x, y, z }),
    {
        Vec3 { x, y, z }
    }

    /// Componentwise saturating sum.
    pub fn add(self, o: Vec3) -> (v: Vec3)
        ensures
            v == self.add_s(o),
    {
        Vec3 { x: sadd(self.x, o.x), y: sadd(self.y, o.y), z: sadd(self.z, o.z) }
    }

    /// Componentwise saturating difference.
    pub fn sub(self, o: Vec3) -> (v: Vec3)
        ensures
            v == self.sub_s(o),
    {
        Vec3 { x: ssub(self.x, o.x), y: ssub(self.y, o.y), z: ssub(self.z, o.z) }
    }

    /// Componentwise negation.
    pub fn neg(self) -> (v: Vec3)
        ensures
            v == self.neg_s(),
    {
        Vec3 { x: ssub(0, self.x), y: ssub(0, self.y), z: ssub(0, self.z) }
    }

    /// Componentwise fixed-point scaling.
    pub fn scale(self, k: i64) -> (v: Vec3)
        ensures
            v == self.scale_s(k),
    {
        Vec3 { x: fmul(self.x, k), y: fmul(self.y, k), z: fmul(self.z, k) }
    }

    /// Fixed-point dot product.
    pub fn dot(self, o: Vec3) -> (r: i64)
        ensures
            r == self.dot_s(o),
    {
        sadd(sadd(fmul(self.x, o.x), fmul(self.y, o.y)), fmul(self.z, o.z))
    }

    /// Fixed-point Euclidean length.
    pub fn norm(self) -> (r: i64)
        ensures
            r == self.norm_s(),
    {
        let mx: u128 = mag(self.x);
        let my: u128 = mag(self.y);
        let mz: u128 = mag(self.z);
        proof {
            lemma_square_of_mag(self.x as int, mx as int);
            lemma_square_of_mag(self.y as int, my as int);
            lemma_square_of_mag(self.z as int, mz as int);
        }
        let sum: u128 = mx * mx + my * my + mz * mz;
        let r: u64 = isqrt(sum);
        proof {
            assert(sum as int == self.sumsq_s());
            lemma_isqrt_unique(sum as nat, r as nat);
        }
        if r > 0x7fff_ffff_ffff_ffffu64 {
            i64::MAX
        } else {
            r as i64
        }
    }

    /// The unit vector with this vector's direction; the zero vector is
    /// returned unchanged.
    pub fn normalize(self) -> (v: Vec3)
        ensures
            v == self.normalize_s(),
    {
        let n: i64 = self.norm();
        if n <= 0 {
            self
        } else {
            Vec3 { x: fdiv(self.x, n), y: fdiv(self.y, n), z: fdiv(self.z, n) }
        }
    }
}

/// Magnitude of a coordinate, squared without overflow in `u128`.
fn mag(a: i64) -> (m: u128)
    ensures
        m as int == iabs(a as int),
        m <= 0x8000_0000_0000_0000u128,
        m * m <= 0x8000_0000_0000_0000u128 * 0x8000_0000_0000_0000u128,
{
    let m: u128 = if a >= 0 {
        a as u128
    } else {
        (-(a as i128)) as u128
    };
    proof {
        assert(m * m <= 0x8000_0000_0000_0000u128 * 0x8000_0000_0000_0000u128)
            by (nonlinear_arith)
            requires
                m <= 0x8000_0000_0000_0000u128,
        ;
    }
    m
}

/// The square of a coordinate equals the square of its magnitude.
proof fn lemma_square_of_mag(a: int, m: int)
    requires
        m == iabs(a),
    ensures
        m * m == a * a,
{
    assert(m * m == a * a) by (nonlinear_arith)
        requires
            m == a || m == -a,
    ;
}

} // verus!
