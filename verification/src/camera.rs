//! The observer: maps normalized image-plane coordinates (and a lens
//! sample, for depth of field) to a world-space ray.

use vstd::prelude::*;

use crate::fixed::{fx_add_spec, fx_div, fx_div_int, fx_div_int_spec, fx_div_spec, fx_mul,
    fx_mul_spec, fx_sub, fx_sub_spec, SCALE};
use crate::ray::Ray;
use crate::rng::rand_unit;
use crate::vec3::{add_spec, cross_spec, mul_s_spec, sq_len_spec, sub_spec, unit_spec, Vec3};

verus! {

/// The circle constant as a fixed-point scalar.
pub const PI_FX: i64 = 3_141_593;

pub open spec fn sin_fx_spec(x: int) -> int {
    let x2 = fx_mul_spec(x, x);
    let x3 = fx_mul_spec(x2, x);
    let x5 = fx_mul_spec(x3, x2);
    let x7 = fx_mul_spec(x5, x2);
    fx_sub_spec(
        fx_add_spec(fx_sub_spec(x, fx_div_int_spec(x3, 6)), fx_div_int_spec(x5, 120)),
        fx_div_int_spec(x7, 5040),
    )
}

pub open spec fn cos_fx_spec(x: int) -> int {
    let x2 = fx_mul_spec(x, x);
    let x4 = fx_mul_spec(x2, x2);
    let x6 = fx_mul_spec(x4, x2);
    fx_sub_spec(
        fx_add_spec(fx_sub_spec(SCALE as int, fx_div_int_spec(x2, 2)), fx_div_int_spec(x4, 24)),
        fx_div_int_spec(x6, 720),
    )
}

/// The tangent as the quotient of truncated sine and cosine series;
/// adequate for the half-angles of a field of view below a straight
/// angle.
pub open spec fn tan_fx_spec(x: int) -> int {
    fx_div_spec(sin_fx_spec(x), cos_fx_spec(x))
}

pub fn sin_fx(x: i64) -> (r: i64)
    ensures
        r as int == sin_fx_spec(x as int),
{
    let x2 = fx_mul(x, x);
    let x3 = fx_mul(x2, x);
    let x5 = fx_mul(x3, x2);
    let x7 = fx_mul(x5, x2);
    fx_sub(
        crate::fixed::fx_add(fx_sub(x, fx_div_int(x3, 6)), fx_div_int(x5, 120)),
        fx_div_int(x7, 5040),
    )
}

pub fn cos_fx(x: i64) -> (r: i64)
    ensures
        r as int == cos_fx_spec(x as int),
{
    let x2 = fx_mul(x, x);
    let x4 = fx_mul(x2, x2);
    let x6 = fx_mul(x4, x2);
    fx_sub(
        crate::fixed::fx_add(fx_sub(SCALE, fx_div_int(x2, 2)), fx_div_int(x4, 24)),
        fx_div_int(x6, 720),
    )
}

pub fn tan_fx(x: i64) -> (r: i64)
    ensures
        r as int == tan_fx_spec(x as int),
{
    fx_div(sin_fx(x), cos_fx(x))
}

/// A point strictly inside the unit disk of the lens plane.
pub open spec fn in_unit_disk(q: Vec3) -> bool {
    &&& sq_len_spec(q) < SCALE
    &&& q.z == 0
    &&& -SCALE <= q.x <= SCALE
    &&& -SCALE <= q.y <= SCALE
}

fn random_disk_component(rng: &mut rand::rngs::ThreadRng) -> (r: i64)
    ensures
        -SCALE <= r <= SCALE,
{
    let u = rand_unit(rng);
    let d = fx_mul(u, 2 * SCALE);
    proof {
        vstd::arithmetic::div_mod::lemma_div_by_multiple(2 * u as int, SCALE as int);
        assert(u as int * (2 * SCALE) as int == (2 * u as int) * SCALE as int) by (nonlinear_arith);
    }
    fx_sub(d, SCALE)
}

/// Rejection sampling over the square `[-1, 1]^2` of the lens plane; if
/// no draw lands strictly inside the disk within the attempt budget, the
/// center is used.
pub fn random_in_unit_disk(rng: &mut rand::rngs::ThreadRng) -> (p: Vec3)
    ensures
        in_unit_disk(p),
{
    let mut i: usize = 0;
    while i < 64
        invariant
            true,
        decreases 64 - i,
    {
        let q = Vec3::new(random_disk_component(rng), random_disk_component(rng), 0);
        if q.dot(&q) < SCALE {
            return q;
        }
        i = i + 1;
    }
    let zero = Vec3::new(0, 0, 0);
    proof {
        assert(sq_len_spec(zero) == 0);
    }
    zero
}

/// The camera with its orthonormal basis, image-plane frame scaled by the
/// focus distance, and lens radius.
pub struct Camera {
    pub origin: Vec3,
    pub lower_left_corner: Vec3,
    pub horizontal: Vec3,
    pub vertical: Vec3,
    pub u: Vec3,
    pub v: Vec3,
    pub w: Vec3,
    pub lens_radius: i64,
}

/// Mirrors the camera construction: basis from the view direction and the
/// up hint, image plane from the field of view, aspect ratio and focus
/// distance, lens radius as half the aperture.
pub open spec fn camera_spec(
    look_from: Vec3,
    look_at: Vec3,
    v_up: Vec3,
    vertical_fov: int,
    aspect: int,
    aperture: int,
    focus_distance: int,
) -> Camera {
    let angle = fx_div_spec(fx_mul_spec(vertical_fov, PI_FX as int), 180 * SCALE);
    let half_height = tan_fx_spec(fx_div_int_spec(angle, 2));
    let half_width = fx_mul_spec(aspect, half_height);
    let origin = look_from;
    let w = unit_spec(sub_spec(look_from, look_at));
    let u = unit_spec(cross_spec(v_up, w));
    let v = cross_spec(w, u);
    let lower_left_corner = sub_spec(
        sub_spec(
            sub_spec(origin, mul_s_spec(mul_s_spec(u, focus_distance), half_width)),
            mul_s_spec(mul_s_spec(v, focus_distance), half_height),
        ),
        mul_s_spec(w, focus_distance),
    );
    let horizontal = mul_s_spec(mul_s_spec(mul_s_spec(u, half_width), focus_distance), 2 * SCALE);
    let vertical = mul_s_spec(mul_s_spec(mul_s_spec(v, half_height), focus_distance), 2 * SCALE);
    let lens_radius = fx_div_spec(aperture, 2 * SCALE);
    Camera {
        origin,
        lower_left_corner,
        horizontal,
        vertical,
        u,
        v,
        w,
        lens_radius: lens_radius as i64,
    }
}

/// The ray through plane coordinates `(s, t)` for the lens sample `d`.
pub open spec fn get_ray_spec(c: Camera, s: int, t: int, d: Vec3) -> Ray {
    let rd = mul_s_spec(d, c.lens_radius as int);
    let offset = add_spec(mul_s_spec(c.u, rd.x as int), mul_s_spec(c.v, rd.y as int));
    Ray {
        a: add_spec(c.origin, offset),
        b: sub_spec(
            sub_spec(
                add_spec(
                    add_spec(c.lower_left_corner, mul_s_spec(c.horizontal, s)),
                    mul_s_spec(c.vertical, t),
                ),
                c.origin,
            ),
            offset,
        ),
    }
}

impl Camera {
    pub fn new(
        look_from: Vec3,
        look_at: Vec3,
        v_up: Vec3,
        vertical_fov: i64,
        aspect: i64,
        aperture: i64,
        focus_distance: i64,
    ) -> (c: Camera)
        ensures
            c == camera_spec(
                look_from,
                look_at,
                v_up,
                vertical_fov as int,
                aspect as int,
                aperture as int,
                focus_distance as int,
            ),
    {
        let angle = fx_div(fx_mul(vertical_fov, PI_FX), 180 * SCALE);
        let half_height = tan_fx(fx_div_int(angle, 2));
        let half_width = fx_mul(aspect, half_height);
        let origin = look_from;
        let w = look_from.sub(&look_at).unit_vector();
        let u = v_up.cross(&w).unit_vector();
        let v = w.cross(&u);
        let lower_left_corner = origin
            .sub(&u.mul_s(focus_distance).mul_s(half_width))
            .sub(&v.mul_s(focus_distance).mul_s(half_height))
            .sub(&w.mul_s(focus_distance));
        let horizontal = u.mul_s(half_width).mul_s(focus_distance).mul_s(2 * SCALE);
        let vertical = v.mul_s(half_height).mul_s(focus_distance).mul_s(2 * SCALE);
        let lens_radius = fx_div(aperture, 2 * SCALE);
        Camera { origin, lower_left_corner, horizontal, vertical, u, v, w, lens_radius }
    }

    /// Builds the sample ray through `(s, t)`, with its origin spread over
    /// the lens.  With a zero lens radius the ray is deterministic.
    pub fn get_ray(&self, s: i64, t: i64, rng: &mut rand::rngs::ThreadRng) -> (r: Ray)
        ensures
            exists|d: Vec3| #[trigger] in_unit_disk(d) && r == get_ray_spec(
                *self,
                s as int,
                t as int,
                d,
            ),
            self.lens_radius == 0 ==> r == get_ray_spec(
                *self,
                s as int,
                t as int,
                Vec3 { x: 0, y: 0, z: 0 },
            ),
    {
        let d = random_in_unit_disk(rng);
        let rd = d.mul_s(self.lens_radius);
        let offset = self.u.mul_s(rd.x).add(&self.v.mul_s(rd.y));
        let r = Ray::new(
            self.origin.add(&offset),
            self
                .lower_left_corner
                .add(&self.horizontal.mul_s(s))
                .add(&self.vertical.mul_s(t))
                .sub(&self.origin)
                .sub(&offset),
        );
        proof {
            assert(in_unit_disk(d) && r == get_ray_spec(*self, s as int, t as int, d));
            if self.lens_radius == 0 {
                let z = Vec3 { x: 0i64, y: 0i64, z: 0i64 };
                assert(mul_s_spec(d, 0) == z);
                assert(mul_s_spec(z, 0) == z);
                assert(r == get_ray_spec(*self, s as int, t as int, z));
            }
        }
        r
    }
}

impl Default for Camera {
    /// The camera of the chunked demos: at the origin, looking down the
    /// negative `z` axis, a right angle of vertical field of view, an
    /// aspect ratio of two, no aperture, unit focus distance.
    fn default() -> (c: Camera)
        ensures
            c == camera_spec(
                Vec3 { x: 0, y: 0, z: 0 },
                Vec3 { x: 0, y: 0, z: -1_000_000i64 },
                Vec3 { x: 0, y: SCALE, z: 0 },
                90 * SCALE,
                2 * SCALE,
                0,
                SCALE as int,
            ),
    {
        Camera::new(
            Vec3::new(0, 0, 0),
            Vec3::new(0, 0, -SCALE),
            Vec3::new(0, SCALE, 0),
            90 * SCALE,
            2 * SCALE,
            0,
            SCALE,
        )
    }
}

} // verus!
