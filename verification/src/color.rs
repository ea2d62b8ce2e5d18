//! Radiance estimation: the sky gradient for rays that miss, and the
//! bounded bounce loop that folds material attenuation into the estimate.

use vstd::prelude::*;

use crate::fixed::{fx_add, fx_add_spec, fx_mul, fx_mul_spec, fx_sub, fx_sub_spec, HALF, SCALE};
use crate::hitable::{list_hit_spec, HitableList};
use crate::material::wf_color;
use crate::ray::Ray;
use crate::vec3::{add_spec, mul_s_spec, mul_spec, unit_spec, Vec3};

verus! {

/// Minimum accepted ray parameter while bouncing, to avoid
/// self-intersection at the origin of a scattered ray (shadow acne).
pub const EPS: i64 = 1_000;

/// Bounce budget of the integrator.
pub const MAX_DEPTH: u32 = 50;

/// The vertical white-to-blue background blend: with `u` the unit vector
/// along the ray and `t = (u.y + 1) / 2`, the colour is
/// `(1 - t) * (1,1,1) + t * (0.5, 0.7, 1)`.  The blend parameter is
/// clamped to the unit interval, where the rounding of a normalized
/// direction could push it outside; so the gradient is always a
/// well-formed colour.
pub open spec fn sky_color_spec(ray: Ray) -> Vec3 {
    let ud = unit_spec(ray.b);
    let t = crate::fixed::clamp_unit_spec(
        fx_mul_spec(HALF as int, fx_add_spec(ud.y as int, SCALE as int)),
    );
    add_spec(
        mul_s_spec(Vec3 { x: SCALE, y: SCALE, z: SCALE }, fx_sub_spec(SCALE as int, t)),
        mul_s_spec(Vec3 { x: HALF, y: 700_000, z: SCALE }, t),
    )
}

/// The background gradient for a ray that misses everything.
pub fn sky_color(ray: &Ray) -> (c: Vec3)
    ensures
        c == sky_color_spec(*ray),
{
    let ud = ray.direction().unit_vector();
    let t0 = fx_mul(HALF, fx_add(ud.y(), SCALE));
    let t: i64 = if t0 < 0 {
        0
    } else if t0 > SCALE {
        SCALE
    } else {
        t0
    };
    Vec3::new(SCALE, SCALE, SCALE).mul_s(fx_sub(SCALE, t)).add(
        &Vec3::new(HALF, 700_000, SCALE).mul_s(t),
    )
}

proof fn lemma_channel_blend(c: int, t: int)
    requires
        0 <= c <= SCALE,
        0 <= t <= SCALE,
    ensures
        0 <= fx_mul_spec(c, t) <= t,
{
    assert(c * t <= t * SCALE as int) by (nonlinear_arith)
        requires
            0 <= c <= SCALE,
            0 <= t,
    ;
    crate::fixed::lemma_mul_fits(c, t, t);
}

/// The sky gradient is a well-formed colour: every channel stays in the
/// unit interval, whatever the ray.
pub proof fn lemma_sky_wf(ray: Ray)
    ensures
        wf_color(sky_color_spec(ray)),
{
    let ud = unit_spec(ray.b);
    let t = crate::fixed::clamp_unit_spec(
        fx_mul_spec(HALF as int, fx_add_spec(ud.y as int, SCALE as int)),
    );
    assert(0 <= t <= SCALE);
    let omt = fx_sub_spec(SCALE as int, t);
    assert(omt == SCALE - t);
    lemma_one_mul_scalar(omt);
    lemma_channel_blend(HALF as int, t);
    lemma_channel_blend(700_000, t);
    lemma_channel_blend(SCALE as int, t);
}

/// Multiplying a colour by one (per channel) changes nothing.
pub proof fn lemma_one_mul(c: Vec3)
    ensures
        mul_spec(Vec3 { x: SCALE, y: SCALE, z: SCALE }, c) == c,
{
    lemma_one_mul_scalar(c.x as int);
    lemma_one_mul_scalar(c.y as int);
    lemma_one_mul_scalar(c.z as int);
}

proof fn lemma_one_mul_scalar(v: int)
    requires
        i64::MIN <= v <= i64::MAX,
    ensures
        fx_mul_spec(SCALE as int, v) == v,
{
    assert(SCALE as int * v == v * SCALE as int) by (nonlinear_arith);
    if v >= 0 {
        vstd::arithmetic::div_mod::lemma_div_by_multiple(v, SCALE as int);
        assert(crate::fixed::div_trunc(v * SCALE, SCALE as int) == v);
    } else {
        assert(-(v * SCALE) == (-v) * SCALE) by (nonlinear_arith);
        vstd::arithmetic::div_mod::lemma_div_by_multiple(-v, SCALE as int);
        assert(crate::fixed::div_trunc(v * SCALE, SCALE as int) == v);
    }
}

/// The radiance estimate for a camera ray: scatter off the nearest hit
/// until the ray is absorbed, escapes to the sky, or the bounce budget is
/// spent.  A ray that misses the whole scene outright returns the sky
/// gradient exactly; otherwise the result is black (absorption, or the
/// budget ran out) or the sky colour of the escaping ray weighted by the
/// accumulated attenuation of the path; in a well-formed scene every
/// channel stays in the unit interval.
pub fn calc_color(ray: &Ray, world: &HitableList, rng: &mut rand::rngs::ThreadRng) -> (c: Vec3)
    ensures
        list_hit_spec(world.list@, *ray, EPS as int, i64::MAX as int) is None ==> c
            == sky_color_spec(*ray),
        c == (Vec3 { x: 0i64, y: 0i64, z: 0i64 }) || exists|att: Vec3, r2: Ray|
            c == #[trigger] mul_spec(att, sky_color_spec(r2)),
        crate::hitable::wf_world(world.list@) ==> wf_color(c),
{
    let white = Vec3::new(SCALE, SCALE, SCALE);
    let mut acc: Vec3 = white;
    let mut current: Ray = *ray;
    let mut depth: u32 = 0;
    while depth < MAX_DEPTH
        invariant
            list_hit_spec(world.list@, *ray, EPS as int, i64::MAX as int) is None ==> (depth == 0
                && current == *ray && acc == (Vec3 { x: SCALE, y: SCALE, z: SCALE })),
            crate::hitable::wf_world(world.list@) ==> wf_color(acc),
        decreases MAX_DEPTH - depth,
    {
        match world.hit(&current, EPS, i64::MAX) {
            None => {
                let sky = sky_color(&current);
                proof {
                    if list_hit_spec(world.list@, *ray, EPS as int, i64::MAX as int) is None {
                        lemma_one_mul(sky_color_spec(*ray));
                    }
                    if crate::hitable::wf_world(world.list@) {
                        lemma_sky_wf(current);
                        crate::fixed::lemma_mul_unit_interval(acc.x as int, sky.x as int);
                        crate::fixed::lemma_mul_unit_interval(acc.y as int, sky.y as int);
                        crate::fixed::lemma_mul_unit_interval(acc.z as int, sky.z as int);
                    }
                }
                let out = acc.mul(&sky);
                proof {
                    assert(out == mul_spec(acc, sky_color_spec(current)));
                }
                return out;
            },
            Some(hit_rec) => {
                match hit_rec.material {
                    None => {
                        return Vec3::new(0, 0, 0);
                    },
                    Some(m) => {
                        let (attenuation, scattered) = m.scatter(&current, &hit_rec, rng);
                        match scattered {
                            None => {
                                return Vec3::new(0, 0, 0);
                            },
                            Some(sr) => {
                                proof {
                                    if crate::hitable::wf_world(world.list@) {
                                        crate::fixed::lemma_mul_unit_interval(
                                            acc.x as int,
                                            attenuation.x as int,
                                        );
                                        crate::fixed::lemma_mul_unit_interval(
                                            acc.y as int,
                                            attenuation.y as int,
                                        );
                                        crate::fixed::lemma_mul_unit_interval(
                                            acc.z as int,
                                            attenuation.z as int,
                                        );
                                    }
                                }
                                acc = acc.mul(&attenuation);
                                current = sr;
                            },
                        }
                    },
                }
            },
        }
        depth = depth + 1;
    }
    Vec3::new(0, 0, 0)
}

/// The diffuse-only radiance estimate: every bounce scatters into the
/// unit ball around the normal and halves the carried light; the bounce
/// budget bounds the recursion that the scattering would otherwise
/// unroll forever.  A ray that misses the whole scene outright returns
/// the sky gradient exactly; otherwise the result is black or the sky of
/// the escaping ray scaled by the halvings of the path, and every
/// channel stays in the unit interval.
pub fn diffuse_color(ray: &Ray, world: &HitableList, rng: &mut rand::rngs::ThreadRng) -> (c: Vec3)
    ensures
        list_hit_spec(world.list@, *ray, EPS as int, i64::MAX as int) is None ==> c
            == sky_color_spec(*ray),
        c == (Vec3 { x: 0i64, y: 0i64, z: 0i64 }) || exists|a: int, r2: Ray|
            0 <= a <= SCALE && c == #[trigger] mul_s_spec(sky_color_spec(r2), a),
        wf_color(c),
{
    let mut acc: i64 = SCALE;
    let mut current: Ray = *ray;
    let mut depth: u32 = 0;
    while depth < MAX_DEPTH
        invariant
            list_hit_spec(world.list@, *ray, EPS as int, i64::MAX as int) is None ==> (depth == 0
                && current == *ray && acc == SCALE),
            0 <= acc <= SCALE,
        decreases MAX_DEPTH - depth,
    {
        match world.hit(&current, EPS, i64::MAX) {
            None => {
                let sky = sky_color(&current);
                let out = sky.mul_s(acc);
                proof {
                    if list_hit_spec(world.list@, *ray, EPS as int, i64::MAX as int) is None {
                        let s = sky_color_spec(*ray);
                        lemma_mul_one_scalar(s.x as int);
                        lemma_mul_one_scalar(s.y as int);
                        lemma_mul_one_scalar(s.z as int);
                    }
                    lemma_sky_wf(current);
                    crate::fixed::lemma_mul_unit_interval(sky.x as int, acc as int);
                    crate::fixed::lemma_mul_unit_interval(sky.y as int, acc as int);
                    crate::fixed::lemma_mul_unit_interval(sky.z as int, acc as int);
                    assert(out == mul_s_spec(sky_color_spec(current), acc as int));
                }
                return out;
            },
            Some(hit_rec) => {
                let q = crate::material::random_point_in_unit_sphere(rng);
                let target = hit_rec.p.add(&hit_rec.normal).add(&q);
                current = Ray::new(hit_rec.p, target.sub(&hit_rec.p));
                proof {
                    crate::fixed::lemma_mul_unit_interval(acc as int, HALF as int);
                }
                acc = fx_mul(acc, HALF);
            },
        }
        depth = depth + 1;
    }
    Vec3::new(0, 0, 0)
}

proof fn lemma_mul_one_scalar(v: int)
    requires
        i64::MIN <= v <= i64::MAX,
    ensures
        fx_mul_spec(v, SCALE as int) == v,
{
    assert(v * SCALE as int == SCALE as int * v) by (nonlinear_arith);
    lemma_one_mul_scalar(v);
}

/// Normal visualisation: an accepted hit is coloured by its outward
/// normal shifted from `[-1, 1]` to `[0, 1]`; a miss shows the sky.
pub open spec fn normal_color_spec(spheres: Seq<crate::sphere::Sphere>, ray: Ray, t_min: int) -> Vec3 {
    match list_hit_spec(spheres, ray, t_min, i64::MAX as int) {
        Some(h) => mul_s_spec(
            add_spec(h.normal, Vec3 { x: SCALE, y: SCALE, z: SCALE }),
            HALF as int,
        ),
        None => sky_color_spec(ray),
    }
}

/// The deterministic shading used by the normal-visualisation demos.
pub fn color_normal(ray: &Ray, world: &HitableList, t_min: i64) -> (c: Vec3)
    ensures
        c == normal_color_spec(world.list@, *ray, t_min as int),
{
    match world.hit(ray, t_min, i64::MAX) {
        Some(h) => h.normal.add(&Vec3::new(SCALE, SCALE, SCALE)).mul_s(HALF),
        None => sky_color(ray),
    }
}

/// The background gradient at the vertical extremes: a ray pointing
/// straight up shows the far blend colour `(0.5, 0.7, 1.0)` exactly, and
/// a ray pointing straight down shows pure white, whatever its origin.
pub proof fn lemma_sky_gradient_extremes(o: Vec3)
    ensures
        sky_color_spec(Ray { a: o, b: Vec3 { x: 0, y: SCALE, z: 0 } }) == (Vec3 {
            x: HALF,
            y: 700_000,
            z: SCALE,
        }),
        sky_color_spec(Ray { a: o, b: Vec3 { x: 0, y: -1_000_000i64, z: 0 } }) == (Vec3 {
            x: SCALE,
            y: SCALE,
            z: SCALE,
        }),
{
    lemma_unit_axis_y(SCALE as int);
    lemma_unit_axis_y(-1_000_000);
    let up = Vec3 { x: 0, y: SCALE, z: 0 };
    let down = Vec3 { x: 0, y: -1_000_000i64, z: 0 };
    assert(unit_spec(up).y == SCALE && unit_spec(down).y == -1_000_000);
    vstd::arithmetic::div_mod::lemma_div_by_multiple(SCALE as int, SCALE as int);
    assert(HALF as int * (2 * SCALE) == SCALE as int * SCALE) by (nonlinear_arith);
    assert(fx_mul_spec(HALF as int, fx_add_spec(SCALE as int, SCALE as int)) == SCALE as int);
    vstd::arithmetic::div_mod::lemma_div_of0(SCALE as int);
    assert(fx_mul_spec(HALF as int, fx_add_spec(-1_000_000, SCALE as int)) == 0);
    lemma_one_mul_scalar(HALF as int);
    lemma_one_mul_scalar(700_000);
    lemma_one_mul_scalar(SCALE as int);
    lemma_zero_mul_scalar(SCALE as int);
    lemma_zero_mul_scalar(HALF as int);
    lemma_zero_mul_scalar(700_000);
    assert(sky_color_spec(Ray { a: o, b: up }) == (Vec3 { x: HALF, y: 700_000, z: SCALE }));
    assert(sky_color_spec(Ray { a: o, b: down }) == (Vec3 { x: SCALE, y: SCALE, z: SCALE }));
}

/// A vector along the `y` axis of unit magnitude normalizes to itself.
proof fn lemma_unit_axis_y(y: int)
    requires
        y == SCALE || y == -(SCALE as int),
    ensures
        unit_spec(Vec3 { x: 0, y: y as i64, z: 0 }) == (Vec3 { x: 0, y: y as i64, z: 0 }),
{
    let v = Vec3 { x: 0, y: y as i64, z: 0 };
    vstd::arithmetic::div_mod::lemma_div_of0(SCALE as int);
    assert(y * y == SCALE as int * SCALE) by (nonlinear_arith)
        requires
            y == SCALE || y == -(SCALE as int),
    ;
    vstd::arithmetic::div_mod::lemma_div_by_multiple(SCALE as int, SCALE as int);
    assert(crate::fixed::fx_mul_spec(y, y) == SCALE as int);
    assert(crate::vec3::sq_len_spec(v) == SCALE as int);
    assert((SCALE as int) * (SCALE as int) < ((SCALE as int) + 1) * ((SCALE as int) + 1))
        by (nonlinear_arith);
    crate::fixed::lemma_sqrt_floor_is((SCALE as int * SCALE) as nat, SCALE as nat);
    assert(crate::vec3::length_spec(v) == SCALE as int);
    lemma_one_mul_scalar(y);
    assert(y * SCALE as int == SCALE as int * y) by (nonlinear_arith);
    assert(crate::fixed::fx_div_spec(y, SCALE as int) == y);
    assert(crate::fixed::fx_div_spec(0, SCALE as int) == 0);
}

proof fn lemma_zero_mul_scalar(v: int)
    requires
        i64::MIN <= v <= i64::MAX,
    ensures
        fx_mul_spec(v, 0) == 0,
        fx_mul_spec(0, v) == 0,
{
    vstd::arithmetic::div_mod::lemma_div_of0(SCALE as int);
    assert(v * 0 == 0 && 0 * v == 0) by (nonlinear_arith);
}

} // verus!
