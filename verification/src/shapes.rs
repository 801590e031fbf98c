//! Geometric primitives: a closed set of shape variants, each exposing ray
//! intersection, an outward surface normal, and material coefficients.

use vstd::prelude::*;

use crate::color::Color;
use crate::fixed::{fdiv, fdiv_s, fmul, fmul_s, sadd, sadd_s, sqrt_fp, sqrt_fp_s, ssub, ssub_s};
use crate::raytracer::Ray;
use crate::vec3::Vec3;

verus! {

/// Material coefficients of a shape, per the Phong illumination model.
#[derive(Clone, Copy, Debug, PartialEq, Eq, Structural)]
pub struct Material {
    /// Base color of the surface.
    pub color: Color,
    /// Ambient coefficient.
    pub k_a: i64,
    /// Diffuse coefficient.
    pub k_d: i64,
    /// Specular coefficient.
    pub k_s: i64,
    /// Shininess exponent.
    pub k_n: u32,
    /// Opacity: the fraction of local shading (versus recursively gathered
    /// reflection) contributing to the final color. `ONE` is fully opaque.
    pub o1: i64,
    /// Fraction of light that is a mirror reflection, in `[0, ONE]`.
    pub reflection: i64,
}

/// A geometric primitive together with its material.
#[derive(Clone, Copy, Debug, PartialEq, Eq, Structural)]
pub enum Shape {
    Sphere { center: Vec3, radius: i64, material: Material },
    Plane { point: Vec3, normal: Vec3, material: Material },
}

impl Shape {
    /// The shape's material.
    pub open spec fn material_s(self) -> Material {
        match self {
            Shape::Sphere { material, .. } => material,
            Shape::Plane { material, .. } => material,
        }
    }

    /// The smallest positive ray parameter at which the ray meets the
    /// surface, if any. Parameters at or before the ray origin are rejected,
    /// and a degenerate ray (zero direction) hits nothing.
    pub open spec fn intersection_s(self, ray: Ray) -> Option<i64> {
        match self {
            Shape::Sphere { center, radius, .. } => {
                let oc = ray.anchor.sub_s(center);
                let a = ray.dir.dot_s(ray.dir);
                if a <= 0 {
                    None
                } else {
                    let b = oc.dot_s(ray.dir);
                    let c = ssub_s(oc.dot_s(oc), fmul_s(radius, radius));
                    let disc = ssub_s(fmul_s(b, b), fmul_s(a, c));
                    if disc < 0 {
                        None
                    } else {
                        let sq = sqrt_fp_s(disc);
                        let t1 = fdiv_s(ssub_s(ssub_s(0, b), sq), a);
                        if t1 > 0 {
                            Some(t1)
                        } else {
                            let t2 = fdiv_s(sadd_s(ssub_s(0, b), sq), a);
                            if t2 > 0 {
                                Some(t2)
                            } else {
                                None
                            }
                        }
                    }
                }
            },
            Shape::Plane { point, normal, .. } => {
                let denom = ray.dir.dot_s(normal);
                if denom == 0 {
                    None
                } else {
                    let t = fdiv_s(point.sub_s(ray.anchor).dot_s(normal), denom);
                    if t > 0 {
                        Some(t)
                    } else {
                        None
                    }
                }
            },
        }
    }

    /// Unit outward normal at a point assumed to lie on the surface.
    pub open spec fn normal_s(self, point: Vec3) -> Vec3 {
        match self {
            Shape::Sphere { center, .. } => point.sub_s(center).normalize_s(),
            Shape::Plane { normal, .. } => normal.normalize_s(),
        }
    }

    /// The smallest positive ray parameter at which the ray meets the
    /// surface, or `None`.
    pub fn get_intersection(&self, ray: &Ray) -> (res: Option<i64>)
        ensures
            res == self.intersection_s(*ray),
    {
        match self {
            Shape::Sphere { center, radius, .. } => {
                let oc = ray.anchor.sub(*center);
                let a = ray.dir.dot(ray.dir);
                if a <= 0 {
                    None
                } else {
                    let b = oc.dot(ray.dir);
                    let c = ssub(oc.dot(oc), fmul(*radius, *radius));
                    let disc = ssub(fmul(b, b), fmul(a, c));
                    if disc < 0 {
                        None
                    } else {
                        let sq = sqrt_fp(disc);
                        let t1 = fdiv(ssub(ssub(0, b), sq), a);
                        if t1 > 0 {
                            Some(t1)
                        } else {
                            let t2 = fdiv(sadd(ssub(0, b), sq), a);
                            if t2 > 0 {
                                Some(t2)
                            } else {
                                None
                            }
                        }
                    }
                }
            },
            Shape::Plane { point, normal, .. } => {
                let denom = ray.dir.dot(*normal);
                if denom == 0 {
                    None
                } else {
                    let t = fdiv(point.sub(ray.anchor).dot(*normal), denom);
                    if t > 0 {
                        Some(t)
                    } else {
                        None
                    }
                }
            },
        }
    }

    /// Unit outward normal at a point assumed to lie on the surface.
    pub fn get_normal_vec(&self, point: Vec3) -> (n: Vec3)
        ensures
            n == self.normal_s(point),
    {
        match self {
            Shape::Sphere { center, .. } => point.sub(*center).normalize(),
            Shape::Plane { normal, .. } => normal.normalize(),
        }
    }

    /// Base color of the surface.
    pub fn get_color(&self) -> (c: Color)
        ensures
            c == self.material_s().color,
    {
        match self {
            Shape::Sphere { material, .. } => material.color,
            Shape::Plane { material, .. } => material.color,
        }
    }

    /// Ambient coefficient.
    pub fn k_a(&self) -> (k: i64)
        ensures
            k == self.material_s().k_a,
    {
        match self {
            Shape::Sphere { material, .. } => material.k_a,
            Shape::Plane { material, .. } => material.k_a,
        }
    }

    /// Diffuse coefficient.
    pub fn k_d(&self) -> (k: i64)
        ensures
            k == self.material_s().k_d,
    {
        match self {
            Shape::Sphere { material, .. } => material.k_d,
            Shape::Plane { material, .. } => material.k_d,
        }
    }

    /// Specular coefficient.
    pub fn k_s(&self) -> (k: i64)
        ensures
            k == self.material_s().k_s,
    {
        match self {
            Shape::Sphere { material, .. } => material.k_s,
            Shape::Plane { material, .. } => material.k_s,
        }
    }

    /// Shininess exponent.
    pub fn k_n(&self) -> (k: u32)
        ensures
            k == self.material_s().k_n,
    {
        match self {
            Shape::Sphere { material, .. } => material.k_n,
            Shape::Plane { material, .. } => material.k_n,
        }
    }

    /// Opacity.
    pub fn o1(&self) -> (k: i64)
        ensures
            k == self.material_s().o1,
    {
        match self {
            Shape::Sphere { material, .. } => material.o1,
            Shape::Plane { material, .. } => material.o1,
        }
    }

    /// Mirror-reflection fraction.
    pub fn reflection(&self) -> (k: i64)
        ensures
            k == self.material_s().reflection,
    {
        match self {
            Shape::Sphere { material, .. } => material.reflection,
            Shape::Plane { material, .. } => material.reflection,
        }
    }
}

} // verus!
