//! The scene: shapes, point lights, ambient term and background, plus the
//! observer that maps pixels to world-space ray targets.

use vstd::prelude::*;

use crate::color::Color;
use crate::constants::ONE;
use crate::fixed::{fdiv, fdiv_s, fmul, fmul_s, lemma_fdiv_nonneg};
use crate::shapes::Shape;
use crate::vec3::Vec3;

verus! {

/// A point light.
#[derive(Clone, Copy, Debug, PartialEq, Eq, Structural)]
pub struct Light {
    pub position: Vec3,
    pub intensity: i64,
    pub color: Color,
}

impl Light {
    /// Inverse-square attenuation, guarded against a zero distance and
    /// capped at `ONE`: monotonically decreasing in the distance.
    pub open spec fn attenuation_s(self, distance: i64) -> i64 {
        let q = fmul_s(distance, distance);
        if q <= 0 {
            ONE
        } else {
            let f = fdiv_s(ONE, q);
            if f > ONE {
                ONE
            } else {
                f
            }
        }
    }

    /// Unit vector from a surface point toward the light.
    pub open spec fn l_vec_s(self, point: Vec3) -> Vec3 {
        self.position.sub_s(point).normalize_s()
    }

    /// Attenuation factor for a surface point at the given distance.
    pub fn get_attenuation(&self, distance: i64) -> (f: i64)
        ensures
            f == self.attenuation_s(distance),
    {
        let q = fmul(distance, distance);
        if q <= 0 {
            ONE
        } else {
            let f = fdiv(ONE, q);
            if f > ONE {
                ONE
            } else {
                f
            }
        }
    }

    /// Unit vector from a surface point toward the light.
    pub fn get_l_vec(&self, point: Vec3) -> (l: Vec3)
        ensures
            l == self.l_vec_s(point),
    {
        self.position.sub(point).normalize()
    }
}

/// An immutable scene: ordered shapes and lights, an ambient term and a
/// background color. Read-only during rendering; zero shapes or lights are
/// legal (the render degenerates to background / ambient-only light).
pub struct Scene {
    pub objects: Vec<Shape>,
    pub lights: Vec<Light>,
    pub ambient: i64,
    pub ambient_color: Color,
    pub bg_color: Color,
}

impl Scene {
    /// Read-only access to the ordered shape collection.
    pub fn get_objects(&self) -> (objects: &Vec<Shape>)
        ensures
            objects == &self.objects,
    {
        &self.objects
    }

    /// Read-only access to the ordered light collection.
    pub fn get_lights(&self) -> (lights: &Vec<Light>)
        ensures
            lights == &self.lights,
    {
        &self.lights
    }
}

/// The attenuation factor always lies in `[0, ONE]`, whatever the distance.
pub proof fn lemma_attenuation_in_range(light: Light, distance: i64)
    ensures
        0 <= light.attenuation_s(distance) <= ONE,
{
    let q = fmul_s(distance, distance);
    if q > 0 {
        lemma_fdiv_nonneg(ONE, q);
    }
}

/// The eye position and an axis-aligned viewport rectangle at a fixed depth
/// (`min_p.z == max_p.z`), mapping pixel coordinates to world-space ray
/// targets.
#[derive(Clone, Copy, Debug, PartialEq, Eq, Structural)]
pub struct Observer {
    pub camera: Vec3,
    pub min_p: Vec3,
    pub max_p: Vec3,
}

} // verus!
