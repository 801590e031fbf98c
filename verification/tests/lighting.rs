use raytracer::color::Color;
use raytracer::constants::ONE;
use raytracer::scene::Light;
use raytracer::vec3::Vec3;

fn light_at(position: Vec3) -> Light {
    Light { position, intensity: ONE, color: Color::new(ONE, ONE, ONE) }
}

#[test]
fn attenuation_is_guarded_and_capped() {
    let light = light_at(Vec3::new(0, 0, 0));
    // Zero distance must not blow up: the guard yields full intensity.
    assert_eq!(light.get_attenuation(0), ONE);
    // Up to a distance of 1 the inverse square is capped at ONE.
    assert_eq!(light.get_attenuation(ONE / 2), ONE);
    assert_eq!(light.get_attenuation(ONE), ONE);
    // Beyond that it is the exact fixed-point inverse square.
    assert_eq!(light.get_attenuation(2 * ONE), ONE / 4);
    assert_eq!(light.get_attenuation(4 * ONE), ONE / 16);
}

#[test]
fn attenuation_decreases_with_distance() {
    let light = light_at(Vec3::new(0, 0, 0));
    let mut previous: i64 = light.get_attenuation(0);
    for step in 1..40i64 {
        let current = light.get_attenuation(step * ONE / 4);
        assert!(current <= previous);
        previous = current;
    }
}

#[test]
fn light_vector_points_toward_the_light() {
    let light = light_at(Vec3::new(0, 10 * ONE, 0));
    let l = light.get_l_vec(Vec3::new(0, 4 * ONE, 0));
    assert_eq!(l, Vec3::new(0, ONE, 0));
    let diagonal = light_at(Vec3::new(3 * ONE, 4 * ONE, 0)).get_l_vec(Vec3::new(0, 0, 0));
    // (3, 4, 0) / 5 in fixed point, truncated toward zero.
    assert_eq!(diagonal, Vec3::new(39321, 52428, 0));
}
