use raytracer::color::Color;
use raytracer::constants::{MAX_REFLECTIONS, ONE, TOLERANCE};
use raytracer::raytracer::{
    get_color_pixel, get_first_intersection, get_shadow_intersection, raytrace, Ray,
};
use raytracer::scene::{Light, Observer, Scene};
use raytracer::shapes::{Material, Shape};
use raytracer::vec3::Vec3;

fn opaque_material(color: Color, k_a: i64, k_d: i64) -> Material {
    Material { color, k_a, k_d, k_s: 0, k_n: 1, o1: ONE, reflection: 0 }
}

fn sphere(center: Vec3, radius: i64, material: Material) -> Shape {
    Shape::Sphere { center, radius, material }
}

fn white() -> Color {
    Color::new(ONE, ONE, ONE)
}

/// A scene with no shapes: every ray resolves to the background color.
#[test]
fn background_for_empty_scene() {
    let scene = Scene {
        objects: vec![],
        lights: vec![Light { position: Vec3::new(0, 0, 0), intensity: ONE, color: white() }],
        ambient: ONE / 2,
        ambient_color: white(),
        bg_color: Color::new(ONE / 8, ONE / 16, ONE / 4),
    };
    let observer = Observer {
        camera: Vec3::new(0, 0, 5 * ONE),
        min_p: Vec3::new(-ONE, -ONE, ONE),
        max_p: Vec3::new(ONE, ONE, ONE),
    };
    let img = raytrace(&observer, &scene, 3, 2);
    assert_eq!(img.len(), 6);
    for pixel in img {
        assert_eq!(pixel, Color::new(ONE / 8, ONE / 16, ONE / 4));
    }
}

/// Rendering the same scene twice yields bit-identical output.
#[test]
fn rendering_is_deterministic() {
    let scene = Scene {
        objects: vec![sphere(
            Vec3::new(0, 0, 0),
            ONE,
            opaque_material(white(), ONE / 2, ONE),
        )],
        lights: vec![Light {
            position: Vec3::new(0, 5 * ONE, 5 * ONE),
            intensity: ONE,
            color: white(),
        }],
        ambient: ONE / 2,
        ambient_color: white(),
        bg_color: Color::new(0, 0, 0),
    };
    let observer = Observer {
        camera: Vec3::new(0, 0, 5 * ONE),
        min_p: Vec3::new(-ONE, -ONE, ONE),
        max_p: Vec3::new(ONE, ONE, ONE),
    };
    let first = raytrace(&observer, &scene, 4, 4);
    let second = raytrace(&observer, &scene, 4, 4);
    assert_eq!(first, second);
}

/// Two shapes hit at exactly the same parameter: the one earlier in the
/// scene's ordering is reported.
#[test]
fn tie_break_prefers_scan_order() {
    let first_shape = sphere(Vec3::new(0, 0, 0), ONE, opaque_material(white(), ONE, 0));
    let second_shape = sphere(
        Vec3::new(0, 0, 0),
        ONE,
        opaque_material(Color::new(ONE, 0, 0), ONE, 0),
    );
    let scene = Scene {
        objects: vec![first_shape, second_shape],
        lights: vec![],
        ambient: 0,
        ambient_color: white(),
        bg_color: Color::new(0, 0, 0),
    };
    let ray = Ray::from_2_points(Vec3::new(0, 0, 5 * ONE), Vec3::new(0, 0, 0));
    assert_eq!(first_shape.get_intersection(&ray), Some(4 * ONE));
    assert_eq!(second_shape.get_intersection(&ray), Some(4 * ONE));
    let hit = get_first_intersection(&ray, &scene).unwrap();
    assert_eq!(hit.object_index, 0);
    assert_eq!(hit.t, 4 * ONE);
    assert_eq!(hit.point, Vec3::new(0, 0, ONE));
}

/// Shadow bias: a ray anchored on a shape's own surface (within rounding)
/// does intersect that shape at a tiny positive parameter, but the shadow
/// query rejects any hit at or below TOLERANCE, so the shape does not
/// shadow itself.
#[test]
fn surface_does_not_shadow_itself() {
    let shape = sphere(Vec3::new(0, 0, 0), ONE, opaque_material(white(), ONE, ONE));
    let light = Light { position: Vec3::new(0, 0, 10 * ONE), intensity: ONE, color: white() };
    let scene = Scene {
        objects: vec![shape],
        lights: vec![light],
        ambient: 0,
        ambient_color: white(),
        bg_color: Color::new(0, 0, 0),
    };
    // One representation unit inside the surface, as rounding leaves it.
    let anchor = Vec3::new(0, 0, ONE - 1);
    let ray = Ray::from_2_points(anchor, light.position);
    let t = shape.get_intersection(&ray).unwrap();
    assert!(0 < t && t <= TOLERANCE);
    assert_eq!(get_shadow_intersection(&ray, &scene, &light), None);
}

/// A single sphere lit from above and in front: pixels off the silhouette
/// equal the background exactly, and the diffuse brightness falls off with
/// dot(L, normal) from the top of the lit side downward.
#[test]
fn single_sphere_diffuse_falloff() {
    let scene = Scene {
        objects: vec![sphere(Vec3::new(0, 0, 0), ONE, opaque_material(white(), 0, ONE))],
        lights: vec![Light {
            position: Vec3::new(0, 5 * ONE, 5 * ONE),
            intensity: ONE,
            color: white(),
        }],
        ambient: 0,
        ambient_color: white(),
        bg_color: Color::new(ONE / 8, ONE / 8, ONE / 8),
    };
    let camera = Vec3::new(0, 0, 4 * ONE);
    let miss = get_color_pixel(
        Ray::from_2_points(camera, Vec3::new(0, 3 * ONE, 0)),
        &scene,
        ONE,
        MAX_REFLECTIONS,
    );
    assert_eq!(miss, Color::new(ONE / 8, ONE / 8, ONE / 8));
    let upper = get_color_pixel(
        Ray::from_2_points(camera, Vec3::new(0, ONE / 2, 0)),
        &scene,
        ONE,
        MAX_REFLECTIONS,
    );
    let lower = get_color_pixel(
        Ray::from_2_points(camera, Vec3::new(0, -ONE / 2, 0)),
        &scene,
        ONE,
        MAX_REFLECTIONS,
    );
    // The upper hit point faces the light more directly than the lower one.
    assert!(upper.r > lower.r);
    assert!(upper.r > 0);
    assert_ne!(upper, Color::new(ONE / 8, ONE / 8, ONE / 8));
}

/// One sphere fully occludes another from the light: the occluded sphere's
/// lit side keeps exactly its ambient contribution and nothing else.
#[test]
fn occluded_sphere_keeps_only_ambient() {
    let visible = sphere(
        Vec3::new(0, 0, 0),
        ONE,
        Material {
            color: white(),
            k_a: ONE / 2,
            k_d: ONE,
            k_s: ONE / 2,
            k_n: 4,
            o1: ONE,
            reflection: 0,
        },
    );
    let blocker = sphere(Vec3::new(0, 0, 3 * ONE), ONE, opaque_material(white(), ONE, ONE));
    let light = Light { position: Vec3::new(0, 0, 10 * ONE), intensity: ONE, color: white() };
    let scene = Scene {
        objects: vec![visible, blocker],
        lights: vec![light],
        ambient: ONE / 2,
        ambient_color: white(),
        bg_color: Color::new(0, 0, 0),
    };
    // The camera looks at the visible sphere from a direction that clears
    // the blocker; the light behind the blocker cannot reach the hit point.
    let ray = Ray::from_2_points(Vec3::new(0, 4 * ONE, 4 * ONE), Vec3::new(0, 0, 0));
    let hit = get_first_intersection(&ray, &scene).unwrap();
    assert_eq!(hit.object_index, 0);
    let shadow_ray = Ray::from_2_points(hit.point, light.position);
    assert!(get_shadow_intersection(&shadow_ray, &scene, &light).is_some());
    let color = get_color_pixel(ray, &scene, ONE, MAX_REFLECTIONS);
    // ambient_color * ambient * k_a == ONE/4 per channel, exactly.
    assert_eq!(color, Color::new(ONE / 4, ONE / 4, ONE / 4));
}

/// A fully opaque, non-reflective sphere: the reflection recursion never
/// triggers, and the result equals the non-recursive depth-0 pass exactly.
#[test]
fn opaque_sphere_matches_depth_zero() {
    let scene = Scene {
        objects: vec![sphere(
            Vec3::new(0, 0, 0),
            ONE,
            opaque_material(Color::new(ONE, ONE / 2, ONE / 4), ONE / 2, ONE),
        )],
        lights: vec![Light {
            position: Vec3::new(0, 5 * ONE, 5 * ONE),
            intensity: ONE,
            color: white(),
        }],
        ambient: ONE / 2,
        ambient_color: white(),
        bg_color: Color::new(0, 0, 0),
    };
    let ray = Ray::from_2_points(Vec3::new(0, 0, 4 * ONE), Vec3::new(0, 0, 0));
    let deep = get_color_pixel(ray, &scene, ONE, MAX_REFLECTIONS);
    let shallow = get_color_pixel(ray, &scene, ONE, 0);
    assert_eq!(deep, shallow);
}

/// With every reflection coefficient zero (and all shapes opaque), any
/// depth gives the same image as a depth-0 pass.
#[test]
fn zero_reflection_equals_depth_zero_pass() {
    let scene = Scene {
        objects: vec![
            sphere(Vec3::new(0, 0, 0), ONE, opaque_material(white(), ONE / 2, ONE)),
            sphere(Vec3::new(3 * ONE, 0, 0), ONE, opaque_material(white(), ONE / 4, ONE)),
        ],
        lights: vec![Light {
            position: Vec3::new(0, 5 * ONE, 5 * ONE),
            intensity: ONE,
            color: white(),
        }],
        ambient: ONE / 2,
        ambient_color: white(),
        bg_color: Color::new(0, ONE / 8, 0),
    };
    for target in [Vec3::new(0, 0, 0), Vec3::new(3 * ONE, 0, 0), Vec3::new(0, 3 * ONE, 0)] {
        let ray = Ray::from_2_points(Vec3::new(0, 0, 6 * ONE), target);
        assert_eq!(
            get_color_pixel(ray, &scene, ONE, MAX_REFLECTIONS),
            get_color_pixel(ray, &scene, ONE, 0),
        );
    }
}

/// Clamping inside the shading pipeline: an over-bright ambient term is
/// clamped to exactly ONE, and no channel of a shaded pixel built from
/// non-negative inputs drops below zero.
#[test]
fn shading_clamps_channels() {
    let scene = Scene {
        objects: vec![sphere(Vec3::new(0, 0, 0), ONE, opaque_material(white(), ONE, ONE))],
        lights: vec![],
        ambient: 2 * ONE,
        ambient_color: white(),
        bg_color: Color::new(0, 0, 0),
    };
    let ray = Ray::from_2_points(Vec3::new(0, 0, 5 * ONE), Vec3::new(0, 0, 0));
    let color = get_color_pixel(ray, &scene, ONE, MAX_REFLECTIONS);
    // ambient * k_a == 2, clamped to 1, times the white base color.
    assert_eq!(color, white());
}

/// Row flip: viewport pixel (0, 0) is the bottom-left of the viewport and
/// lands in the bottom image row, index (height - 1) * width.
#[test]
fn bottom_viewport_row_lands_in_last_image_row() {
    // A small sphere placed on the ray of viewport pixel (0, 0) only.
    let scene = Scene {
        objects: vec![sphere(
            Vec3::new(-ONE, -ONE, -3 * ONE),
            ONE / 2,
            opaque_material(Color::new(ONE, 0, 0), ONE, 0),
        )],
        lights: vec![],
        ambient: ONE,
        ambient_color: white(),
        bg_color: Color::new(0, 0, ONE / 4),
    };
    let observer = Observer {
        camera: Vec3::new(0, 0, 5 * ONE),
        min_p: Vec3::new(-ONE, -ONE, ONE),
        max_p: Vec3::new(ONE, ONE, ONE),
    };
    let img = raytrace(&observer, &scene, 2, 2);
    assert_eq!(img.len(), 4);
    // Image layout: row 0 = top (viewport j = 1), row 1 = bottom (j = 0).
    assert_eq!(img[0], Color::new(0, 0, ONE / 4));
    assert_eq!(img[1], Color::new(0, 0, ONE / 4));
    assert_eq!(img[2], Color::new(ONE, 0, 0));
    assert_eq!(img[3], Color::new(0, 0, ONE / 4));
}

/// A reflective floor under a colored sphere: the reflection recursion
/// contributes, so the result differs from the depth-0 pass and stays
/// deterministic.
#[test]
fn reflection_changes_the_picture() {
    let floor = Shape::Plane {
        point: Vec3::new(0, -ONE, 0),
        normal: Vec3::new(0, ONE, 0),
        material: Material {
            color: white(),
            k_a: ONE / 2,
            k_d: ONE / 2,
            k_s: 0,
            k_n: 1,
            o1: ONE / 2,
            reflection: ONE / 2,
        },
    };
    let ball = sphere(
        Vec3::new(0, ONE, 0),
        ONE,
        opaque_material(Color::new(ONE, 0, 0), ONE, ONE),
    );
    let scene = Scene {
        objects: vec![floor, ball],
        lights: vec![Light {
            position: Vec3::new(0, 5 * ONE, 5 * ONE),
            intensity: ONE,
            color: white(),
        }],
        ambient: ONE / 2,
        ambient_color: white(),
        bg_color: Color::new(0, 0, 0),
    };
    // A ray aimed at the floor in front of the sphere.
    let ray = Ray::from_2_points(Vec3::new(0, ONE, 6 * ONE), Vec3::new(0, -ONE, 2 * ONE));
    let deep = get_color_pixel(ray, &scene, ONE, MAX_REFLECTIONS);
    let shallow = get_color_pixel(ray, &scene, ONE, 0);
    assert_ne!(deep, shallow);
    assert_eq!(deep, get_color_pixel(ray, &scene, ONE, MAX_REFLECTIONS));
}
