//! Rays: an origin and a direction, with parametric point evaluation.

use vstd::prelude::*;

use crate::vec3::{add_spec, mul_s_spec, Vec3};

verus! {

/// A parametric line `a + t * b`.
#[derive(Clone, Copy, Debug, PartialEq, Eq, Structural)]
pub struct Ray {
    pub a: Vec3,
    pub b: Vec3,
}

/// The point reached after `t` along the ray.
pub open spec fn ray_at_spec(r: Ray, t: int) -> Vec3 {
    add_spec(r.a, mul_s_spec(r.b, t))
}

impl Ray {
    pub fn new(a: Vec3, b: Vec3) -> (r: Ray)
        ensures
            r == (Ray { a, b }),
    {
        Ray { a, b }
    }

    pub fn origin(&self) -> (r: Vec3)
        ensures
            r == self.a,
    {
        self.a
    }

    pub fn direction(&self) -> (r: Vec3)
        ensures
            r == self.b,
    {
        self.b
    }

    pub fn point_at_parameter(&self, t: i64) -> (p: Vec3)
        ensures
            p == ray_at_spec(*self, t as int),
    {
        self.a.add(&self.b.mul_s(t))
    }
}

} // verus!
