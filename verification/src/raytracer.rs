//! The rendering engine: rays, nearest-intersection and shadow queries,
//! recursive Phong shading, and the per-pixel render loop.

use vstd::prelude::*;

use vstd::arithmetic::div_mod::lemma_fundamental_div_mod_converse;

use crate::color::{lemma_min_one_bounds, Color};
use crate::constants::{MAX_REFLECTIONS, ONE, SHADOWS, TOLERANCE};
use crate::fixed::{
    fmul, fmul_s, lemma_fmul_nonneg, lerp_coord, lerp_coord_s, max0, max0_s, pow_fp, pow_fp_s,
    sadd, sadd_s,
};
use crate::scene::{lemma_attenuation_in_range, Light, Observer, Scene};
use crate::shapes::Shape;
use crate::vec3::Vec3;

verus! {

/// A half-line: an origin (`anchor`) and a direction, unit length by
/// construction.
#[derive(Clone, Copy, Debug, PartialEq, Eq, Structural)]
pub struct Ray {
    pub anchor: Vec3,
    pub dir: Vec3,
}

impl Ray {
    /// The ray from `p_origin` toward `p_target`.
    pub open spec fn from_2_points_s(p_origin: Vec3, p_target: Vec3) -> Ray {
        Ray { anchor: p_origin, dir: p_target.sub_s(p_origin).normalize_s() }
    }

    /// The point at parameter `t` along the ray.
    pub open spec fn point_at_t_s(self, t: i64) -> Vec3 {
        self.anchor.add_s(self.dir.scale_s(t))
    }

    /// The ray from `p_origin` toward `p_target`: its direction is the
    /// normalized difference of the two points.
    pub fn from_2_points(p_origin: Vec3, p_target: Vec3) -> (ray: Ray)
        ensures
            ray == Ray::from_2_points_s(p_origin, p_target),
    {
        let v_dir: Vec3 = p_target.sub(p_origin).normalize();
        Ray { anchor: p_origin, dir: v_dir }
    }

    /// The point at parameter `t` along the ray.
    pub fn point_at_t(&self, t: i64) -> (p: Vec3)
        ensures
            p == self.point_at_t_s(t),
    {
        self.anchor.add(self.dir.scale(t))
    }
}

/// A nearest-hit record: the index of the hit shape in the scene's ordered
/// shape collection, the ray parameter of the hit, and the world-space hit
/// point.
#[derive(Clone, Copy, Debug, PartialEq, Eq, Structural)]
pub struct Intersection {
    pub object_index: usize,
    pub t: i64,
    pub point: Vec3,
}

/// Whether the shape meets the ray at a parameter strictly smaller than `t`.
pub open spec fn hit_lt(object: Shape, ray: Ray, t: i64) -> bool {
    match object.intersection_s(ray) {
        Some(tk) => tk < t,
        None => false,
    }
}

/// Whether the shape meets the ray at a parameter at most `t`.
pub open spec fn hit_le(object: Shape, ray: Ray, t: i64) -> bool {
    match object.intersection_s(ray) {
        Some(tk) => tk <= t,
        None => false,
    }
}

/// The nearest hit among the first `n` shapes: a linear scan keeping the
/// strictly smallest parameter seen so far, so that among equal parameters
/// the shape earliest in scan order wins.
pub open spec fn first_hit_s(ray: Ray, objects: Seq<Shape>, n: int) -> Option<Intersection>
    decreases n,
{
    if n <= 0 {
        None
    } else {
        let prev = first_hit_s(ray, objects, n - 1);
        match objects[n - 1].intersection_s(ray) {
            Some(t) => match prev {
                Some(p) => if t < p.t {
                    Some(
                        Intersection {
                            object_index: (n - 1) as usize,
                            t,
                            point: ray.point_at_t_s(t),
                        },
                    )
                } else {
                    prev
                },
                None => Some(
                    Intersection { object_index: (n - 1) as usize, t, point: ray.point_at_t_s(t) },
                ),
            },
            None => prev,
        }
    }
}

/// What the nearest-hit scan returns: a hit of the reported shape, minimal
/// over all shapes, achieved by no earlier shape (the tie-break), and
/// accompanied by the right hit point; or `None` exactly when no shape is
/// hit.
pub proof fn lemma_first_hit_props(ray: Ray, objects: Seq<Shape>, n: int)
    requires
        0 <= n <= objects.len(),
        n <= usize::MAX,
    ensures
        (match first_hit_s(ray, objects, n) {
            Some(h) => {
                &&& h.object_index < n
                &&& objects[h.object_index as int].intersection_s(ray) == Some(h.t)
                &&& h.point == ray.point_at_t_s(h.t)
                &&& forall|k: int| 0 <= k < n ==> !hit_lt(objects[k], ray, h.t)
                &&& forall|k: int| 0 <= k < h.object_index ==> !hit_le(objects[k], ray, h.t)
            },
            None => forall|k: int| 0 <= k < n ==> objects[k].intersection_s(ray) is None,
        }),
    decreases n,
{
    if n > 0 {
        lemma_first_hit_props(ray, objects, n - 1);
    }
}

/// The nearest intersection of the ray with any shape of the scene, or
/// `None` if no shape is hit. Ties in the hit parameter go to the shape
/// earliest in the scene's shape ordering.
pub fn get_first_intersection(ray: &Ray, scene: &Scene) -> (res: Option<Intersection>)
    ensures
        res == first_hit_s(*ray, scene.objects@, scene.objects@.len() as int),
{
    let mut res: Option<Intersection> = None;
    let mut k: usize = 0;
    let n: usize = scene.objects.len();
    while k < n
        invariant
            k <= n,
            n == scene.objects@.len(),
            res == first_hit_s(*ray, scene.objects@, k as int),
        decreases n - k,
    {
        let object = &scene.objects[k];
        match object.get_intersection(ray) {
            Some(t) => {
                let better: bool = match res {
                    Some(p) => t < p.t,
                    None => true,
                };
                if better {
                    res = Some(Intersection { object_index: k, t, point: ray.point_at_t(t) });
                }
            },
            None => {},
        }
        k = k + 1;
    }
    res
}

/// Whether the shape occludes the light along the ray: a hit strictly
/// between the self-intersection tolerance and the light's own distance.
pub open spec fn occludes(object: Shape, ray: Ray, t_light: i64) -> bool {
    match object.intersection_s(ray) {
        Some(t) => TOLERANCE < t && t < t_light,
        None => false,
    }
}

/// The light's own distance along a shadow ray anchored at a surface point.
pub open spec fn t_light_s(ray: Ray, light: Light) -> i64 {
    light.position.sub_s(ray.anchor).norm_s()
}

/// The first shape (in scan order) that occludes the light along the ray:
/// a hit counts only if its parameter lies strictly between `TOLERANCE`
/// (no self-shadowing through rounding) and `t_light` (shapes beyond the
/// light cast no shadow).
pub open spec fn shadow_first_s(ray: Ray, objects: Seq<Shape>, n: int, t_light: i64) -> Option<
    Intersection,
>
    decreases n,
{
    if n <= 0 {
        None
    } else {
        match shadow_first_s(ray, objects, n - 1, t_light) {
            Some(h) => Some(h),
            None => match objects[n - 1].intersection_s(ray) {
                Some(t) => if TOLERANCE < t && t < t_light {
                    Some(
                        Intersection {
                            object_index: (n - 1) as usize,
                            t,
                            point: ray.point_at_t_s(t),
                        },
                    )
                } else {
                    None
                },
                None => None,
            },
        }
    }
}

/// Once the scan has found an occluder, scanning further shapes does not
/// change the result.
proof fn lemma_shadow_first_stable(ray: Ray, objects: Seq<Shape>, m: int, n: int, t_light: i64)
    requires
        0 <= m <= n,
        shadow_first_s(ray, objects, m, t_light) is Some,
    ensures
        shadow_first_s(ray, objects, n, t_light) == shadow_first_s(ray, objects, m, t_light),
    decreases n - m,
{
    if m < n {
        lemma_shadow_first_stable(ray, objects, m, n - 1, t_light);
    }
}

/// What the shadow scan returns: an occluding hit of the reported shape,
/// with its parameter strictly between `TOLERANCE` and `t_light`; or `None`
/// exactly when no shape occludes the light.
pub proof fn lemma_shadow_first_props(ray: Ray, objects: Seq<Shape>, n: int, t_light: i64)
    requires
        0 <= n <= objects.len(),
        n <= usize::MAX,
    ensures
        (match shadow_first_s(ray, objects, n, t_light) {
            Some(h) => {
                &&& h.object_index < n
                &&& objects[h.object_index as int].intersection_s(ray) == Some(h.t)
                &&& TOLERANCE < h.t < t_light
                &&& h.point == ray.point_at_t_s(h.t)
            },
            None => forall|k: int| 0 <= k < n ==> !occludes(objects[k], ray, t_light),
        }),
    decreases n,
{
    if n > 0 {
        lemma_shadow_first_props(ray, objects, n - 1, t_light);
    }
}

/// The first shape that occludes the light along the shadow ray, or `None`
/// if the light is unobstructed. A hit qualifies only if its parameter
/// exceeds `TOLERANCE` (so a surface never shadows itself through rounding)
/// and falls short of the light's own distance along the ray.
pub fn get_shadow_intersection(ray: &Ray, scene: &Scene, light: &Light) -> (res: Option<
    Intersection,
>)
    ensures
        res == shadow_first_s(
            *ray,
            scene.objects@,
            scene.objects@.len() as int,
            t_light_s(*ray, *light),
        ),
{
    let t_light: i64 = light.position.sub(ray.anchor).norm();
    let mut k: usize = 0;
    let n: usize = scene.objects.len();
    while k < n
        invariant
            k <= n,
            n == scene.objects@.len(),
            t_light == t_light_s(*ray, *light),
            shadow_first_s(*ray, scene.objects@, k as int, t_light) is None,
        decreases n - k,
    {
        let object = &scene.objects[k];
        match object.get_intersection(ray) {
            Some(t) => {
                if t < t_light && t > TOLERANCE {
                    let res = Some(
                        Intersection { object_index: k, t, point: ray.point_at_t(t) },
                    );
                    proof {
                        assert(shadow_first_s(*ray, scene.objects@, k + 1, t_light) == res);
                        lemma_shadow_first_stable(
                            *ray,
                            scene.objects@,
                            k + 1,
                            scene.objects@.len() as int,
                            t_light,
                        );
                    }
                    return res;
                }
            },
            None => {},
        }
        k = k + 1;
    }
    None
}

/// The attenuated incoming intensity of a light at a surface point:
/// attenuation at the light's distance times the light's intensity.
pub open spec fn light_factor_s(light: Light, point: Vec3) -> i64 {
    fmul_s(light.attenuation_s(light.position.sub_s(point).norm_s()), light.intensity)
}

/// The shadow query for one light from one surface point: the occluder
/// found along the shadow ray toward the light, or `None` when the light is
/// unobstructed or shadows are disabled.
pub open spec fn shadow_for_light_s(scene: Scene, point: Vec3, light: Light) -> Option<
    Intersection,
> {
    if SHADOWS {
        let ray = Ray::from_2_points_s(point, light.position);
        shadow_first_s(ray, scene.objects@, scene.objects@.len() as int, t_light_s(ray, light))
    } else {
        None
    }
}

/// One light's diffuse contribution at a surface point: black when the
/// light is occluded, otherwise the light's color scaled by
/// `max(0, dot(L, normal)) * attenuated_intensity * k_d`.
pub open spec fn diffuse_term_s(
    scene: Scene,
    light: Light,
    point: Vec3,
    normal: Vec3,
    k_d: i64,
) -> Color {
    if shadow_for_light_s(scene, point, light) is None {
        let intensity = fmul_s(
            fmul_s(max0_s(light.l_vec_s(point).dot_s(normal)), light_factor_s(light, point)),
            k_d,
        );
        light.color.scale_s(intensity)
    } else {
        Color::black_s()
    }
}

/// Sum of the diffuse contributions of the first `n` lights.
pub open spec fn diffuse_sum_s(scene: Scene, n: int, point: Vec3, normal: Vec3, k_d: i64) -> Color
    decreases n,
{
    if n <= 0 {
        Color::black_s()
    } else {
        diffuse_sum_s(scene, n - 1, point, normal, k_d).add_s(
            diffuse_term_s(scene, scene.lights@[n - 1], point, normal, k_d),
        )
    }
}

/// One light's specular contribution at a surface point: black when the
/// light is occluded, otherwise `(light color - diffuse color)` scaled by
/// `max(0, dot(R, view))^k_n * attenuated_intensity * k_s`, where `R` is the
/// mirror reflection of the light vector about the normal. Subtracting the
/// diffuse color desaturates highlights toward the light's own color.
pub open spec fn specular_term_s(
    scene: Scene,
    light: Light,
    point: Vec3,
    normal: Vec3,
    backwards: Vec3,
    k_s: i64,
    k_n: u32,
    rgb_d: Color,
) -> Color {
    if shadow_for_light_s(scene, point, light) is None {
        let l = light.l_vec_s(point);
        let nd = normal.dot_s(l);
        let reflection_vec = normal.scale_s(sadd_s(nd, nd)).sub_s(l);
        let specular = fmul_s(
            fmul_s(
                pow_fp_s(max0_s(reflection_vec.dot_s(backwards)), k_n as nat),
                light_factor_s(light, point),
            ),
            k_s,
        );
        light.color.sub_s(rgb_d).scale_s(specular)
    } else {
        Color::black_s()
    }
}

/// Sum of the specular contributions of the first `n` lights.
pub open spec fn specular_sum_s(
    scene: Scene,
    n: int,
    point: Vec3,
    normal: Vec3,
    backwards: Vec3,
    k_s: i64,
    k_n: u32,
    rgb_d: Color,
) -> Color
    decreases n,
{
    if n <= 0 {
        Color::black_s()
    } else {
        specular_sum_s(scene, n - 1, point, normal, backwards, k_s, k_n, rgb_d).add_s(
            specular_term_s(
                scene,
                scene.lights@[n - 1],
                point,
                normal,
                backwards,
                k_s,
                k_n,
                rgb_d,
            ),
        )
    }
}

/// The color gathered by one ray: the background if nothing is hit, and
/// otherwise ambient + diffuse + specular shading of the nearest hit,
/// blended by opacity with the color gathered by the reflected ray while
/// depth remains and the accumulated energy weight `total_o1` stays above
/// the cutoff.
pub open spec fn shade_s(ray: Ray, scene: Scene, total_o1: i64, reflections: u32) -> Color
    decreases reflections,
{
    match first_hit_s(ray, scene.objects@, scene.objects@.len() as int) {
        None => scene.bg_color,
        Some(inter) => {
            let object = scene.objects@[inter.object_index as int];
            let material = object.material_s();
            let normal = object.normal_s(inter.point);
            let backwards = ray.dir.neg_s();
            let nl = scene.lights@.len() as int;
            let total_intensity = diffuse_sum_s(
                scene,
                nl,
                inter.point,
                normal,
                material.k_d,
            ).add_s(scene.ambient_color.scale_s(scene.ambient).scale_s(material.k_a)).min_one_s();
            let rgb_d = total_intensity.mul_s(material.color);
            let total_speculation = specular_sum_s(
                scene,
                nl,
                inter.point,
                normal,
                backwards,
                material.k_s,
                material.k_n,
                rgb_d,
            ).clamp01_s();
            if material.o1 < ONE && total_o1 > TOLERANCE && reflections > 0 {
                let dn = ray.dir.dot_s(normal);
                let reflection_dir = ray.dir.sub_s(normal.scale_s(sadd_s(dn, dn)));
                let reflection_ray = Ray {
                    anchor: inter.point.add_s(reflection_dir.scale_s(TOLERANCE)),
                    dir: reflection_dir,
                };
                let rec = shade_s(
                    reflection_ray,
                    scene,
                    fmul_s(total_o1, material.reflection),
                    (reflections - 1) as u32,
                );
                rgb_d.add_s(total_speculation).scale_s(material.o1).add_s(
                    rec.scale_s(material.reflection),
                )
            } else {
                rgb_d.add_s(total_speculation)
            }
        },
    }
}

/// Splits the per-light precomputations into parallel arrays.
/// Relies on itertools::multiunzip: it unzips a collection of triples into
/// three collections, one per column, preserving order and length.
#[verifier::external_body]
fn unzip3(v: Vec<(Option<Intersection>, i64, Vec3)>) -> (r: (
    Vec<Option<Intersection>>,
    Vec<i64>,
    Vec<Vec3>,
))
    ensures
        r.0@.len() == v@.len(),
        r.1@.len() == v@.len(),
        r.2@.len() == v@.len(),
        forall|q: int| 0 <= q < v@.len() ==> r.0@[q] == v@[q].0,
        forall|q: int| 0 <= q < v@.len() ==> r.1@[q] == v@[q].1,
        forall|q: int| 0 <= q < v@.len() ==> r.2@[q] == v@[q].2,
{
    itertools::multiunzip(v)
}

/// The color of one primary ray: nearest hit, Phong shading with shadow
/// tests, and recursion into the reflected ray. `total_o1` is the
/// accumulated energy weight of this call (relevant for reflections), and
/// `reflections` the remaining recursion depth.
pub fn get_color_pixel(ray: Ray, scene: &Scene, total_o1: i64, reflections: u32) -> (color: Color)
    ensures
        color == shade_s(ray, *scene, total_o1, reflections),
    decreases reflections,
{
    match get_first_intersection(&ray, scene) {
        None => scene.bg_color,
        Some(inter) => {
            let n_objects: usize = scene.objects.len();
            proof {
                lemma_first_hit_props(ray, scene.objects@, n_objects as int);
            }
            let object = &scene.objects[inter.object_index];
            let normal: Vec3 = object.get_normal_vec(inter.point);
            let backwards_vec: Vec3 = ray.dir.neg();
            let nl: usize = scene.lights.len();

            // Per-light precomputations, shared between the diffuse and
            // specular passes: the shadow query, the attenuated incoming
            // intensity, and the unit light vector.
            let mut pre: Vec<(Option<Intersection>, i64, Vec3)> = Vec::new();
            let mut i: usize = 0;
            while i < nl
                invariant
                    i <= nl,
                    nl == scene.lights@.len(),
                    pre@.len() == i as int,
                    forall|q: int|
                        0 <= q < i ==> pre@[q] == (
                            shadow_for_light_s(*scene, inter.point, scene.lights@[q]),
                            light_factor_s(scene.lights@[q], inter.point),
                            scene.lights@[q].l_vec_s(inter.point),
                        ),
                decreases nl - i,
            {
                let light = &scene.lights[i];
                let shadow: Option<Intersection> = if SHADOWS {
                    let shadow_ray = Ray::from_2_points(inter.point, light.position);
                    get_shadow_intersection(&shadow_ray, scene, light)
                } else {
                    None
                };
                let factor: i64 = fmul(
                    light.get_attenuation(light.position.sub(inter.point).norm()),
                    light.intensity,
                );
                let lv: Vec3 = light.get_l_vec(inter.point);
                pre.push((shadow, factor, lv));
                i = i + 1;
            }
            let arrays = unzip3(pre);
            let shadow_intersections: Vec<Option<Intersection>> = arrays.0;
            let light_factors: Vec<i64> = arrays.1;
            let l_vecs: Vec<Vec3> = arrays.2;

            // Diffuse pass.
            let mut diffuse: Color = Color::black();
            let mut i: usize = 0;
            while i < nl
                invariant
                    i <= nl,
                    nl == scene.lights@.len(),
                    shadow_intersections@.len() == nl,
                    light_factors@.len() == nl,
                    l_vecs@.len() == nl,
                    forall|q: int|
                        0 <= q < nl ==> shadow_intersections@[q] == shadow_for_light_s(
                            *scene,
                            inter.point,
                            scene.lights@[q],
                        ),
                    forall|q: int|
                        0 <= q < nl ==> light_factors@[q] == light_factor_s(
                            scene.lights@[q],
                            inter.point,
                        ),
                    forall|q: int|
                        0 <= q < nl ==> l_vecs@[q] == scene.lights@[q].l_vec_s(inter.point),
                    inter.object_index < scene.objects@.len(),
                    object == &scene.objects@[inter.object_index as int],
                    normal == object.normal_s(inter.point),
                    diffuse == diffuse_sum_s(
                        *scene,
                        i as int,
                        inter.point,
                        normal,
                        object.material_s().k_d,
                    ),
                decreases nl - i,
            {
                let contribution: Color = if shadow_intersections[i].is_none() {
                    let intensity: i64 = fmul(
                        fmul(max0(l_vecs[i].dot(normal)), light_factors[i]),
                        object.k_d(),
                    );
                    scene.lights[i].color.scale(intensity)
                } else {
                    Color::black()
                };
                diffuse = diffuse.add(contribution);
                i = i + 1;
            }
            let ambient: Color = scene.ambient_color.scale(scene.ambient).scale(object.k_a());
            let total_intensity: Color = diffuse.add(ambient).min_one();
            let rgb_d: Color = total_intensity.mul(object.get_color());

            // Specular pass, reusing the cached shadow queries.
            let mut speculation: Color = Color::black();
            let mut i: usize = 0;
            while i < nl
                invariant
                    i <= nl,
                    nl == scene.lights@.len(),
                    shadow_intersections@.len() == nl,
                    light_factors@.len() == nl,
                    l_vecs@.len() == nl,
                    forall|q: int|
                        0 <= q < nl ==> shadow_intersections@[q] == shadow_for_light_s(
                            *scene,
                            inter.point,
                            scene.lights@[q],
                        ),
                    forall|q: int|
                        0 <= q < nl ==> light_factors@[q] == light_factor_s(
                            scene.lights@[q],
                            inter.point,
                        ),
                    forall|q: int|
                        0 <= q < nl ==> l_vecs@[q] == scene.lights@[q].l_vec_s(inter.point),
                    inter.object_index < scene.objects@.len(),
                    object == &scene.objects@[inter.object_index as int],
                    normal == object.normal_s(inter.point),
                    backwards_vec == ray.dir.neg_s(),
                    speculation == specular_sum_s(
                        *scene,
                        i as int,
                        inter.point,
                        normal,
                        backwards_vec,
                        object.material_s().k_s,
                        object.material_s().k_n,
                        rgb_d,
                    ),
                decreases nl - i,
            {
                let contribution: Color = if shadow_intersections[i].is_none() {
                    let l: Vec3 = l_vecs[i];
                    let nd: i64 = normal.dot(l);
                    let reflection_vec: Vec3 = normal.scale(sadd(nd, nd)).sub(l);
                    let specular: i64 = fmul(
                        fmul(
                            pow_fp(max0(reflection_vec.dot(backwards_vec)), object.k_n()),
                            light_factors[i],
                        ),
                        object.k_s(),
                    );
                    scene.lights[i].color.sub(rgb_d).scale(specular)
                } else {
                    Color::black()
                };
                speculation = speculation.add(contribution);
                i = i + 1;
            }
            let total_speculation: Color = speculation.clamp01();

            let o1: i64 = object.o1();
            if o1 < ONE && total_o1 > TOLERANCE && reflections > 0 {
                let dn: i64 = ray.dir.dot(normal);
                let reflection_dir: Vec3 = ray.dir.sub(normal.scale(sadd(dn, dn)));
                // The new anchor is advanced a TOLERANCE amount along the
                // reflected direction so that the surface does not get stuck
                // reflecting itself through rounding.
                let reflection_ray = Ray {
                    anchor: inter.point.add(reflection_dir.scale(TOLERANCE)),
                    dir: reflection_dir,
                };
                let reflection: i64 = object.reflection();
                let rec: Color = get_color_pixel(
                    reflection_ray,
                    scene,
                    fmul(total_o1, reflection),
                    reflections - 1,
                );
                rgb_d.add(total_speculation).scale(o1).add(rec.scale(reflection))
            } else {
                rgb_d.add(total_speculation)
            }
        },
    }
}

/// The primary ray of viewport pixel `(i, j)` for an image of `width`
/// columns and `height` rows: from the camera through the center of the
/// pixel's cell on the viewport rectangle. `j` counts viewport rows, which
/// increase upward.
pub open spec fn pixel_ray_s(observer: Observer, width: u32, height: u32, i: int, j: int) -> Ray {
    let target = Vec3 {
        x: lerp_coord_s(observer.min_p.x, observer.max_p.x, i, width as int),
        y: lerp_coord_s(observer.min_p.y, observer.max_p.y, j, height as int),
        z: observer.min_p.z,
    };
    Ray::from_2_points_s(observer.camera, target)
}

/// The final color of viewport pixel `(i, j)`: the full recursive shading
/// of its primary ray, at full energy weight and full reflection depth.
/// Each pixel's color depends only on its own ray, the observer and the
/// immutable scene — never on render order.
pub open spec fn pixel_color_s(
    observer: Observer,
    scene: Scene,
    width: u32,
    height: u32,
    i: int,
    j: int,
) -> Color {
    shade_s(pixel_ray_s(observer, width, height, i, j), scene, ONE, MAX_REFLECTIONS)
}

/// Renders the scene as seen by the observer into a row-major framebuffer
/// of `width * height` pixels, image row 0 at the top. Viewport row `j`
/// increases upward, so pixel `(i, j)` lands in image row `height - 1 - j`:
/// the image is flipped so it is not upside down.
pub fn raytrace(observer: &Observer, scene: &Scene, width: u32, height: u32) -> (img: Vec<Color>)
    requires
        (width as int) * (height as int) <= usize::MAX as int,
    ensures
        img@.len() == (width as int) * (height as int),
        forall|i: int, j: int|
            0 <= i < width && 0 <= j < height ==> img@[(height - 1 - j) * (width as int) + i]
                == pixel_color_s(*observer, *scene, width, height, i, j),
{
    let mut img: Vec<Color> = Vec::new();
    let mut r: u32 = 0;
    while r < height
        invariant
            r <= height,
            (width as int) * (height as int) <= usize::MAX as int,
            img@.len() == (r as int) * (width as int),
            forall|idx: int|
                0 <= idx < img@.len() ==> img@[idx] == pixel_color_s(
                    *observer,
                    *scene,
                    width,
                    height,
                    idx % (width as int),
                    (height - 1) - idx / (width as int),
                ),
        decreases height - r,
    {
        let mut c: u32 = 0;
        while c < width
            invariant
                r < height,
                c <= width,
                (width as int) * (height as int) <= usize::MAX as int,
                img@.len() == (r as int) * (width as int) + (c as int),
                forall|idx: int|
                    0 <= idx < img@.len() ==> img@[idx] == pixel_color_s(
                        *observer,
                        *scene,
                        width,
                        height,
                        idx % (width as int),
                        (height - 1) - idx / (width as int),
                    ),
            decreases width - c,
        {
            let j: u32 = height - 1 - r;
            let x: i64 = lerp_coord(observer.min_p.x, observer.max_p.x, c, width);
            let y: i64 = lerp_coord(observer.min_p.y, observer.max_p.y, j, height);
            let target = Vec3 { x, y, z: observer.min_p.z };
            let ray = Ray::from_2_points(observer.camera, target);
            let color = get_color_pixel(ray, scene, ONE, MAX_REFLECTIONS);
            proof {
                assert(img@.len() < (width as int) * (height as int)) by (nonlinear_arith)
                    requires
                        img@.len() == (r as int) * (width as int) + (c as int),
                        0 <= (r as int) < (height as int),
                        0 <= (c as int) < (width as int),
                ;
                lemma_fundamental_div_mod_converse(
                    img@.len() as int,
                    width as int,
                    r as int,
                    c as int,
                );
            }
            img.push(color);
            c = c + 1;
        }
        proof {
            assert((r as int + 1) * (width as int) == (r as int) * (width as int) + (
            width as int)) by (nonlinear_arith);
        }
        r = r + 1;
    }
    proof {
        let w = width as int;
        let h = height as int;
        assert(h * w == w * h) by (nonlinear_arith);
        assert forall|i: int, j: int| 0 <= i < width && 0 <= j < height implies img@[(height - 1
            - j) * (width as int) + i] == pixel_color_s(*observer, *scene, width, height, i, j) by {
            let row = h - 1 - j;
            let idx = row * w + i;
            assert(0 <= idx && idx < h * w) by (nonlinear_arith)
                requires
                    0 <= row < h,
                    0 <= i < w,
                    idx == row * w + i,
            ;
            lemma_fundamental_div_mod_converse(idx, w, row, i);
        }
    }
    img
}

/// Determinism: the color of a ray is a function of the ray, the scene, the
/// energy weight and the depth alone, so any two shading results for the
/// same inputs are bit-identical.
pub proof fn lemma_shade_deterministic(c1: Color, c2: Color, ray: Ray, scene: &Scene, total_o1: i64, reflections: u32)
    requires
        c1 == shade_s(ray, *scene, total_o1, reflections),
        c2 == shade_s(ray, *scene, total_o1, reflections),
    ensures
        c1 == c2,
{
}

/// Determinism of the whole render: any two framebuffers that satisfy the
/// contract of [`raytrace`] for the same observer, scene and resolution are
/// bit-identical.
pub proof fn lemma_raytrace_deterministic(
    img1: Seq<Color>,
    img2: Seq<Color>,
    observer: Observer,
    scene: &Scene,
    width: u32,
    height: u32,
)
    requires
        img1.len() == (width as int) * (height as int),
        img2.len() == (width as int) * (height as int),
        forall|i: int, j: int|
            0 <= i < width && 0 <= j < height ==> img1[(height - 1 - j) * (width as int) + i]
                == pixel_color_s(observer, *scene, width, height, i, j),
        forall|i: int, j: int|
            0 <= i < width && 0 <= j < height ==> img2[(height - 1 - j) * (width as int) + i]
                == pixel_color_s(observer, *scene, width, height, i, j),
    ensures
        img1 == img2,
{
    let w = width as int;
    let h = height as int;
    assert forall|idx: int| 0 <= idx < img1.len() implies img1[idx] == img2[idx] by {
        assert(w != 0) by (nonlinear_arith)
            requires
                0 <= idx < w * h,
        ;
        vstd::arithmetic::div_mod::lemma_fundamental_div_mod(idx, w);
        vstd::arithmetic::div_mod::lemma_mod_bound(idx, w);
        let i = idx % w;
        let row = idx / w;
        assert(0 <= row && row < h) by (nonlinear_arith)
            requires
                0 <= idx < w * h,
                w > 0,
                idx == w * row + i,
                0 <= i < w,
        ;
        let j = h - 1 - row;
        assert(height - 1 - j == row);
        assert(row * w == w * row) by (nonlinear_arith);
        assert((height - 1 - j) * (width as int) + i == idx);
        assert(img1[(height - 1 - j) * (width as int) + i] == pixel_color_s(
            observer,
            *scene,
            width,
            height,
            i,
            j,
        ));
        assert(img2[(height - 1 - j) * (width as int) + i] == pixel_color_s(
            observer,
            *scene,
            width,
            height,
            i,
            j,
        ));
    }
    assert(img1 =~= img2);
}

/// Background correctness: in a scene with no shapes, every ray — and so
/// every pixel — resolves to exactly the scene's background color.
pub proof fn lemma_background_scene(scene: &Scene)
    requires
        scene.objects@.len() == 0,
    ensures
        forall|ray: Ray, total_o1: i64, reflections: u32|
            shade_s(ray, *scene, total_o1, reflections) == scene.bg_color,
        forall|observer: Observer, width: u32, height: u32, i: int, j: int|
            pixel_color_s(observer, *scene, width, height, i, j) == scene.bg_color,
{
    assert forall|ray: Ray, total_o1: i64, reflections: u32|
        shade_s(ray, *scene, total_o1, reflections) == scene.bg_color by {
        assert(first_hit_s(ray, scene.objects@, scene.objects@.len() as int) is None);
    }
}

/// Tie-break determinism: when two shapes are hit at the same parameter `t`
/// and no shape is hit strictly earlier, the scan reports a hit at exactly
/// `t`, at an index no later than the first of the two — in particular the
/// later shape is never the reported one.
pub proof fn lemma_tie_break_first_wins(
    ray: Ray,
    objects: Seq<Shape>,
    a: int,
    b: int,
    t: i64,
)
    requires
        0 <= a < b < objects.len(),
        objects.len() <= usize::MAX,
        objects[a].intersection_s(ray) == Some(t),
        objects[b].intersection_s(ray) == Some(t),
        forall|k: int| 0 <= k < objects.len() ==> !hit_lt(objects[k], ray, t),
    ensures
        first_hit_s(ray, objects, objects.len() as int) is Some,
        (first_hit_s(ray, objects, objects.len() as int)->Some_0).t == t,
        (first_hit_s(ray, objects, objects.len() as int)->Some_0).object_index <= a,
        (first_hit_s(ray, objects, objects.len() as int)->Some_0).object_index != b,
{
    let n = objects.len() as int;
    lemma_first_hit_props(ray, objects, n);
    match first_hit_s(ray, objects, n) {
        None => {
            assert(objects[a].intersection_s(ray) is None);
        },
        Some(h) => {
            assert(!hit_lt(objects[a], ray, h.t));
            assert(h.t <= t) by {
                assert(!hit_lt(objects[h.object_index as int], ray, t));
            }
            if h.object_index > a {
                assert(hit_le(objects[a], ray, h.t));
            }
        },
    }
}

/// Shadow bias: a shape whose intersection along a shadow ray lies at or
/// below `TOLERANCE` — as a surface's own rounded self-intersection does —
/// is never reported as the occluder.
pub proof fn lemma_no_self_shadow(
    ray: Ray,
    objects: Seq<Shape>,
    t_light: i64,
    k: int,
    t: i64,
)
    requires
        0 <= k < objects.len(),
        objects.len() <= usize::MAX,
        objects[k].intersection_s(ray) == Some(t),
        t <= TOLERANCE,
    ensures
        shadow_first_s(ray, objects, objects.len() as int, t_light) matches Some(h)
            ==> h.object_index != k,
{
    lemma_shadow_first_props(ray, objects, objects.len() as int, t_light);
}

/// No light's diffuse contribution is ever negative when the scene's lights
/// and the diffuse coefficient are non-negative.
pub proof fn lemma_diffuse_sum_nonneg(
    scene: &Scene,
    n: int,
    point: Vec3,
    normal: Vec3,
    k_d: i64,
)
    requires
        0 <= n <= scene.lights@.len(),
        k_d >= 0,
        forall|k: int| 0 <= k < scene.lights@.len() ==> (#[trigger] scene.lights@[k]).intensity >= 0,
        forall|k: int|
            0 <= k < scene.lights@.len() ==> (#[trigger] scene.lights@[k]).color.r >= 0
                && scene.lights@[k].color.g >= 0 && scene.lights@[k].color.b >= 0,
    ensures
        diffuse_sum_s(*scene, n, point, normal, k_d).r >= 0,
        diffuse_sum_s(*scene, n, point, normal, k_d).g >= 0,
        diffuse_sum_s(*scene, n, point, normal, k_d).b >= 0,
    decreases n,
{
    if n > 0 {
        lemma_diffuse_sum_nonneg(scene, n - 1, point, normal, k_d);
        let light = scene.lights@[n - 1];
        if shadow_for_light_s(*scene, point, light) is None {
            lemma_attenuation_in_range(light, light.position.sub_s(point).norm_s());
            lemma_fmul_nonneg(
                light.attenuation_s(light.position.sub_s(point).norm_s()),
                light.intensity,
            );
            let m0 = max0_s(light.l_vec_s(point).dot_s(normal));
            lemma_fmul_nonneg(m0, light_factor_s(light, point));
            lemma_fmul_nonneg(fmul_s(m0, light_factor_s(light, point)), k_d);
            let intensity = fmul_s(fmul_s(m0, light_factor_s(light, point)), k_d);
            lemma_fmul_nonneg(light.color.r, intensity);
            lemma_fmul_nonneg(light.color.g, intensity);
            lemma_fmul_nonneg(light.color.b, intensity);
        }
    }
}

/// Clamping of the diffuse pass: for a scene whose lights, ambient term and
/// coefficients are non-negative, the clamped light total that scales a
/// surface's base color lies in `[0, ONE]` in every channel.
pub proof fn lemma_diffuse_total_in_range(
    scene: &Scene,
    point: Vec3,
    normal: Vec3,
    k_d: i64,
    k_a: i64,
)
    requires
        k_d >= 0,
        k_a >= 0,
        scene.ambient >= 0,
        scene.ambient_color.r >= 0,
        scene.ambient_color.g >= 0,
        scene.ambient_color.b >= 0,
        forall|k: int| 0 <= k < scene.lights@.len() ==> (#[trigger] scene.lights@[k]).intensity >= 0,
        forall|k: int|
            0 <= k < scene.lights@.len() ==> (#[trigger] scene.lights@[k]).color.r >= 0
                && scene.lights@[k].color.g >= 0 && scene.lights@[k].color.b >= 0,
    ensures
        ({
            let total = diffuse_sum_s(
                *scene,
                scene.lights@.len() as int,
                point,
                normal,
                k_d,
            ).add_s(scene.ambient_color.scale_s(scene.ambient).scale_s(k_a)).min_one_s();
            0 <= total.r <= ONE && 0 <= total.g <= ONE && 0 <= total.b <= ONE
        }),
{
    lemma_diffuse_sum_nonneg(scene, scene.lights@.len() as int, point, normal, k_d);
    lemma_fmul_nonneg(scene.ambient_color.r, scene.ambient);
    lemma_fmul_nonneg(scene.ambient_color.g, scene.ambient);
    lemma_fmul_nonneg(scene.ambient_color.b, scene.ambient);
    let once = scene.ambient_color.scale_s(scene.ambient);
    lemma_fmul_nonneg(once.r, k_a);
    lemma_fmul_nonneg(once.g, k_a);
    lemma_fmul_nonneg(once.b, k_a);
    let sum = diffuse_sum_s(*scene, scene.lights@.len() as int, point, normal, k_d).add_s(
        once.scale_s(k_a),
    );
    lemma_min_one_bounds(sum);
}

/// Energy cutoff: once the accumulated energy weight has fallen to the
/// tolerance or below, the reflection recursion is skipped as imperceptible,
/// and shading at any depth equals the non-recursive depth-0 pass.
pub proof fn lemma_energy_cutoff(ray: Ray, scene: &Scene, total_o1: i64, reflections: u32)
    requires
        total_o1 <= TOLERANCE,
    ensures
        shade_s(ray, *scene, total_o1, reflections) == shade_s(ray, *scene, total_o1, 0),
{
}

/// Energy bound, non-recursive half: in a scene of fully opaque shapes
/// (`o1 == ONE`) whose reflection coefficients are all zero, the reflection
/// recursion never contributes, and shading at any depth equals the
/// non-recursive depth-0 pass. (The termination half of the bound is
/// structural: the depth strictly decreases at each recursive call.)
pub proof fn lemma_opaque_depth_irrelevant(
    ray: Ray,
    scene: &Scene,
    total_o1: i64,
    reflections: u32,
)
    requires
        forall|k: int|
            0 <= k < scene.objects@.len() ==> (#[trigger] scene.objects@[k]).material_s().reflection
                == 0,
        forall|k: int|
            0 <= k < scene.objects@.len() ==> (#[trigger] scene.objects@[k]).material_s().o1 == ONE,
    ensures
        shade_s(ray, *scene, total_o1, reflections) == shade_s(ray, *scene, total_o1, 0),
{
    broadcast use vstd::std_specs::vec::axiom_spec_len;

    assert(scene.objects.len() == scene.objects@.len());
    let n = scene.objects@.len() as int;
    match first_hit_s(ray, scene.objects@, n) {
        None => {},
        Some(h) => {
            lemma_first_hit_props(ray, scene.objects@, n);
            assert(scene.objects@[h.object_index as int].material_s().o1 == ONE);
        },
    }
}

} // verus!
