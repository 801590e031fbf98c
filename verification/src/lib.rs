//! A recursive ray tracer over fixed-point arithmetic.
//!
//! For each output pixel the renderer casts a ray from an observer into a
//! scene of shapes and lights, finds the nearest surface hit, evaluates a
//! Phong-style illumination model (ambient + diffuse + specular, with
//! shadowing), and recurses into reflected rays up to a depth and
//! energy-attenuation cutoff.
//!
//! All coordinates, colors and material coefficients are fixed-point values:
//! an `i64` holding the real value times [`constants::ONE`]. Every operation
//! saturates at the `i64` range instead of overflowing.

pub mod color;
pub mod constants;
pub mod fixed;
pub mod raytracer;
pub mod scene;
pub mod shapes;
pub mod vec3;
