use raytracer::color::Color;
use raytracer::constants::ONE;
use raytracer::raytracer::Ray;
use raytracer::shapes::{Material, Shape};
use raytracer::vec3::Vec3;

fn plain_material() -> Material {
    Material {
        color: Color::new(ONE, ONE, ONE),
        k_a: ONE,
        k_d: ONE,
        k_s: 0,
        k_n: 1,
        o1: ONE,
        reflection: 0,
    }
}

#[test]
fn vector_arithmetic() {
    let a = Vec3::new(ONE, 2 * ONE, 3 * ONE);
    let b = Vec3::new(4 * ONE, 5 * ONE, 6 * ONE);
    assert_eq!(a.add(b), Vec3::new(5 * ONE, 7 * ONE, 9 * ONE));
    assert_eq!(b.sub(a), Vec3::new(3 * ONE, 3 * ONE, 3 * ONE));
    assert_eq!(a.neg(), Vec3::new(-ONE, -2 * ONE, -3 * ONE));
    assert_eq!(a.scale(2 * ONE), Vec3::new(2 * ONE, 4 * ONE, 6 * ONE));
    assert_eq!(a.dot(b), 32 * ONE);
}

#[test]
fn vector_norm_and_normalize() {
    let v = Vec3::new(3 * ONE, 4 * ONE, 0);
    assert_eq!(v.norm(), 5 * ONE);
    let u = v.normalize();
    // 3/5 and 4/5 in fixed point, truncated toward zero.
    assert_eq!(u, Vec3::new(39321, 52428, 0));
    // The zero vector keeps its (zero) direction.
    assert_eq!(Vec3::new(0, 0, 0).normalize(), Vec3::new(0, 0, 0));
}

#[test]
fn ray_construction_and_points() {
    let ray = Ray::from_2_points(Vec3::new(0, 0, 0), Vec3::new(10 * ONE, 0, 0));
    assert_eq!(ray.anchor, Vec3::new(0, 0, 0));
    assert_eq!(ray.dir, Vec3::new(ONE, 0, 0));
    assert_eq!(ray.point_at_t(3 * ONE), Vec3::new(3 * ONE, 0, 0));
}

#[test]
fn sphere_intersection_nearest_root() {
    let sphere = Shape::Sphere {
        center: Vec3::new(0, 0, 0),
        radius: ONE,
        material: plain_material(),
    };
    let ray = Ray::from_2_points(Vec3::new(0, 0, 5 * ONE), Vec3::new(0, 0, 0));
    assert_eq!(sphere.get_intersection(&ray), Some(4 * ONE));
    assert_eq!(ray.point_at_t(4 * ONE), Vec3::new(0, 0, ONE));
}

#[test]
fn sphere_miss_returns_none() {
    let sphere = Shape::Sphere {
        center: Vec3::new(0, 0, 0),
        radius: ONE,
        material: plain_material(),
    };
    // A ray well off the silhouette.
    let miss = Ray::from_2_points(Vec3::new(0, 5 * ONE, 5 * ONE), Vec3::new(0, 5 * ONE, 0));
    assert_eq!(sphere.get_intersection(&miss), None);
    // A ray pointing away from the sphere: both roots behind the origin.
    let away = Ray::from_2_points(Vec3::new(0, 0, 5 * ONE), Vec3::new(0, 0, 10 * ONE));
    assert_eq!(sphere.get_intersection(&away), None);
}

#[test]
fn degenerate_ray_hits_nothing() {
    let sphere = Shape::Sphere {
        center: Vec3::new(0, 0, 0),
        radius: ONE,
        material: plain_material(),
    };
    // Origin and target coincide: the direction degenerates to zero.
    let ray = Ray::from_2_points(Vec3::new(0, 0, 5 * ONE), Vec3::new(0, 0, 5 * ONE));
    assert_eq!(ray.dir, Vec3::new(0, 0, 0));
    assert_eq!(sphere.get_intersection(&ray), None);
}

#[test]
fn plane_intersection() {
    let plane = Shape::Plane {
        point: Vec3::new(0, 0, 0),
        normal: Vec3::new(0, 0, ONE),
        material: plain_material(),
    };
    let ray = Ray::from_2_points(Vec3::new(0, 0, 5 * ONE), Vec3::new(0, 0, 0));
    assert_eq!(plane.get_intersection(&ray), Some(5 * ONE));
    // A ray parallel to the plane never meets it.
    let parallel = Ray::from_2_points(Vec3::new(0, ONE, ONE), Vec3::new(ONE, ONE, ONE));
    assert_eq!(plane.get_intersection(&parallel), None);
    assert_eq!(plane.get_normal_vec(Vec3::new(ONE, ONE, 0)), Vec3::new(0, 0, ONE));
}

#[test]
fn sphere_normal_points_outward() {
    let sphere = Shape::Sphere {
        center: Vec3::new(0, 0, 0),
        radius: ONE,
        material: plain_material(),
    };
    assert_eq!(sphere.get_normal_vec(Vec3::new(0, 0, ONE)), Vec3::new(0, 0, ONE));
    assert_eq!(sphere.get_normal_vec(Vec3::new(0, -ONE, 0)), Vec3::new(0, -ONE, 0));
}

#[test]
fn color_arithmetic_and_clamps() {
    let c = Color::new(ONE / 2, ONE, 2 * ONE);
    assert_eq!(c.add(Color::new(1, 2, 3)), Color::new(ONE / 2 + 1, ONE + 2, 2 * ONE + 3));
    assert_eq!(c.sub(Color::new(ONE, ONE, ONE)), Color::new(-ONE / 2, 0, ONE));
    assert_eq!(c.scale(ONE / 2), Color::new(ONE / 4, ONE / 2, ONE));
    assert_eq!(c.mul(Color::new(ONE, ONE / 2, 0)), Color::new(ONE / 2, ONE / 2, 0));
    assert_eq!(c.min_one(), Color::new(ONE / 2, ONE, ONE));
    // The upper clamp leaves negative channels alone; the full clamp does not.
    assert_eq!(Color::new(-5, 2 * ONE, 7).min_one(), Color::new(-5, ONE, 7));
    assert_eq!(Color::new(-5, 2 * ONE, 7).clamp01(), Color::new(0, ONE, 7));
}
