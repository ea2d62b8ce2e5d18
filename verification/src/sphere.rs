//! The one geometric primitive: an analytic sphere.

use vstd::prelude::*;

use crate::fixed::{fx_add, fx_add_spec, fx_div, fx_div_spec, fx_mul, fx_mul_spec, fx_sqrt,
    fx_sqrt_spec, fx_sub, fx_sub_spec};
use crate::hitable::HitRecord;
use crate::material::Material;
use crate::ray::{ray_at_spec, Ray};
use crate::vec3::{div_s_spec, dot_spec, sub_spec, Vec3};

verus! {

/// A sphere with a positive radius and, optionally, a surface material.
pub struct Sphere {
    pub center: Vec3,
    pub radius: i64,
    pub material: Option<Material>,
}

/// The record produced when the ray strikes the sphere at parameter `t`:
/// the hit point lies at `t` along the ray and the normal is the offset
/// from the center scaled by the inverse radius.
pub open spec fn sphere_record_spec(s: Sphere, ray: Ray, t: int) -> HitRecord {
    let p = ray_at_spec(ray, t);
    HitRecord {
        t: t as i64,
        p,
        normal: div_s_spec(sub_spec(p, s.center), s.radius as int),
        material: s.material,
    }
}

/// Mirrors the quadratic intersection test: with `oc` the offset from the
/// center to the ray origin, the roots of
/// `|oc + t * dir|^2 == radius^2` are examined nearest first, and the
/// first root strictly inside `(t_min, t_max)` is accepted.  The
/// discriminant uses the half-`b` form, so no factor of four appears.  A
/// direction whose fixed-point square length vanishes cannot be
/// intersected (the quadratic degenerates) and yields no hit.
pub open spec fn sphere_hit_spec(s: Sphere, ray: Ray, t_min: int, t_max: int) -> Option<
    HitRecord,
> {
    let oc = sub_spec(ray.a, s.center);
    let a = dot_spec(ray.b, ray.b);
    let b = dot_spec(oc, ray.b);
    let c = fx_sub_spec(dot_spec(oc, oc), fx_mul_spec(s.radius as int, s.radius as int));
    let disc = fx_sub_spec(fx_mul_spec(b, b), fx_mul_spec(a, c));
    if disc > 0 && a != 0 {
        let sq = fx_sqrt_spec(disc);
        let neg_b = fx_sub_spec(0, b);
        let near = fx_div_spec(fx_sub_spec(neg_b, sq), a);
        let far = fx_div_spec(fx_add_spec(neg_b, sq), a);
        if t_min < near < t_max {
            Some(sphere_record_spec(s, ray, near))
        } else if t_min < far < t_max {
            Some(sphere_record_spec(s, ray, far))
        } else {
            None
        }
    } else {
        None
    }
}

impl Sphere {
    pub fn new(center: Vec3, radius: i64) -> (s: Sphere)
        requires
            radius > 0,
        ensures
            s == (Sphere { center, radius, material: None }),
    {
        Sphere { center, radius, material: None }
    }

    pub fn with_material(center: Vec3, radius: i64, material: Material) -> (s: Sphere)
        requires
            radius > 0,
        ensures
            s == (Sphere { center, radius, material: Some(material) }),
    {
        Sphere { center, radius, material: Some(material) }
    }

    /// The nearest intersection strictly inside `(t_min, t_max)`, if any.
    /// Every accepted hit satisfies the round trip: its point is the ray
    /// evaluated at its parameter.
    pub fn hit(&self, ray: &Ray, t_min: i64, t_max: i64) -> (r: Option<HitRecord>)
        ensures
            r == sphere_hit_spec(*self, *ray, t_min as int, t_max as int),
            r matches Some(h) ==> t_min < h.t < t_max,
            r matches Some(h) ==> h.p == ray_at_spec(*ray, h.t as int),
            r matches Some(h) ==> h.normal == div_s_spec(
                sub_spec(h.p, self.center),
                self.radius as int,
            ),
            r matches Some(h) ==> h.material == self.material,
    {
        let oc = ray.origin().sub(&self.center);
        let a = ray.direction().dot(&ray.direction());
        let b = oc.dot(&ray.direction());
        let c = fx_sub(oc.dot(&oc), fx_mul(self.radius, self.radius));
        let disc = fx_sub(fx_mul(b, b), fx_mul(a, c));
        if disc > 0 && a != 0 {
            let sq = fx_sqrt(disc);
            let neg_b = fx_sub(0, b);
            let near = fx_div(fx_sub(neg_b, sq), a);
            if t_min < near && near < t_max {
                let p = ray.point_at_parameter(near);
                return Some(
                    HitRecord {
                        t: near,
                        p,
                        normal: p.sub(&self.center).div_s(self.radius),
                        material: self.material,
                    },
                );
            }
            let far = fx_div(fx_add(neg_b, sq), a);
            if t_min < far && far < t_max {
                let p = ray.point_at_parameter(far);
                return Some(
                    HitRecord {
                        t: far,
                        p,
                        normal: p.sub(&self.center).div_s(self.radius),
                        material: self.material,
                    },
                );
            }
        }
        None
    }
}

} // verus!
