//! Three-component fixed-point vectors, used for points, directions and
//! colours alike.

use vstd::prelude::*;

use crate::fixed::{
    fx_add, fx_add_spec, fx_div, fx_div_spec, fx_mul, fx_mul_spec, fx_sqrt, fx_sqrt_spec, fx_sub,
    fx_sub_spec,
};

verus! {

/// A point, direction or colour; each component is a fixed-point scalar.
#[derive(Clone, Copy, Debug, PartialEq, Eq, Structural)]
pub struct Vec3 {
    pub x: i64,
    pub y: i64,
    pub z: i64,
}

/// Builds a `Vec3` from mathematical integers already in the `i64` range.
pub open spec fn v3(x: int, y: int, z: int) -> Vec3 {
    Vec3 { x: x as i64, y: y as i64, z: z as i64 }
}

pub open spec fn add_spec(a: Vec3, b: Vec3) -> Vec3 {
    v3(
        fx_add_spec(a.x as int, b.x as int),
        fx_add_spec(a.y as int, b.y as int),
        fx_add_spec(a.z as int, b.z as int),
    )
}

pub open spec fn sub_spec(a: Vec3, b: Vec3) -> Vec3 {
    v3(
        fx_sub_spec(a.x as int, b.x as int),
        fx_sub_spec(a.y as int, b.y as int),
        fx_sub_spec(a.z as int, b.z as int),
    )
}

pub open spec fn neg_spec(a: Vec3) -> Vec3 {
    sub_spec(Vec3 { x: 0, y: 0, z: 0 }, a)
}

/// Component-wise product, the combination used for colour attenuation.
pub open spec fn mul_spec(a: Vec3, b: Vec3) -> Vec3 {
    v3(
        fx_mul_spec(a.x as int, b.x as int),
        fx_mul_spec(a.y as int, b.y as int),
        fx_mul_spec(a.z as int, b.z as int),
    )
}

pub open spec fn mul_s_spec(a: Vec3, s: int) -> Vec3 {
    v3(
        fx_mul_spec(a.x as int, s),
        fx_mul_spec(a.y as int, s),
        fx_mul_spec(a.z as int, s),
    )
}

pub open spec fn div_spec(a: Vec3, b: Vec3) -> Vec3 {
    v3(
        fx_div_spec(a.x as int, b.x as int),
        fx_div_spec(a.y as int, b.y as int),
        fx_div_spec(a.z as int, b.z as int),
    )
}

pub open spec fn div_s_spec(a: Vec3, s: int) -> Vec3 {
    v3(
        fx_div_spec(a.x as int, s),
        fx_div_spec(a.y as int, s),
        fx_div_spec(a.z as int, s),
    )
}

pub open spec fn dot_spec(a: Vec3, b: Vec3) -> int {
    fx_add_spec(
        fx_add_spec(fx_mul_spec(a.x as int, b.x as int), fx_mul_spec(a.y as int, b.y as int)),
        fx_mul_spec(a.z as int, b.z as int),
    )
}

pub open spec fn sq_len_spec(a: Vec3) -> int {
    dot_spec(a, a)
}

pub open spec fn length_spec(a: Vec3) -> int {
    fx_sqrt_spec(sq_len_spec(a))
}

/// The unit vector along `a`; a zero-length input yields the zero vector.
pub open spec fn unit_spec(a: Vec3) -> Vec3 {
    div_s_spec(a, length_spec(a))
}

pub open spec fn cross_spec(a: Vec3, b: Vec3) -> Vec3 {
    v3(
        fx_sub_spec(fx_mul_spec(a.y as int, b.z as int), fx_mul_spec(a.z as int, b.y as int)),
        fx_sub_spec(fx_mul_spec(a.z as int, b.x as int), fx_mul_spec(a.x as int, b.z as int)),
        fx_sub_spec(fx_mul_spec(a.x as int, b.y as int), fx_mul_spec(a.y as int, b.x as int)),
    )
}

impl Vec3 {
    pub fn new(x: i64, y: i64, z: i64) -> (v: Vec3)
        ensures
            v == (Vec3 { x, y, z }),
    {
        Vec3 { x, y, z }
    }

    pub fn x(&self) -> (r: i64)
        ensures
            r == self.x,
    {
        self.x
    }

    pub fn y(&self) -> (r: i64)
        ensures
            r == self.y,
    {
        self.y
    }

    pub fn z(&self) -> (r: i64)
        ensures
            r == self.z,
    {
        self.z
    }

    pub fn r(&self) -> (r: i64)
        ensures
            r == self.x,
    {
        self.x
    }

    pub fn g(&self) -> (r: i64)
        ensures
            r == self.y,
    {
        self.y
    }

    pub fn b(&self) -> (r: i64)
        ensures
            r == self.z,
    {
        self.z
    }

    pub fn add(&self, o: &Vec3) -> (r: Vec3)
        ensures
            r == add_spec(*self, *o),
    {
        Vec3 { x: fx_add(self.x, o.x), y: fx_add(self.y, o.y), z: fx_add(self.z, o.z) }
    }

    pub fn sub(&self, o: &Vec3) -> (r: Vec3)
        ensures
            r == sub_spec(*self, *o),
    {
        Vec3 { x: fx_sub(self.x, o.x), y: fx_sub(self.y, o.y), z: fx_sub(self.z, o.z) }
    }

    pub fn neg(&self) -> (r: Vec3)
        ensures
            r == neg_spec(*self),
    {
        Vec3 { x: fx_sub(0, self.x), y: fx_sub(0, self.y), z: fx_sub(0, self.z) }
    }

    /// Component-wise product.
    pub fn mul(&self, o: &Vec3) -> (r: Vec3)
        ensures
            r == mul_spec(*self, *o),
    {
        Vec3 { x: fx_mul(self.x, o.x), y: fx_mul(self.y, o.y), z: fx_mul(self.z, o.z) }
    }

    /// Product with a fixed-point scalar.
    pub fn mul_s(&self, s: i64) -> (r: Vec3)
        ensures
            r == mul_s_spec(*self, s as int),
    {
        Vec3 { x: fx_mul(self.x, s), y: fx_mul(self.y, s), z: fx_mul(self.z, s) }
    }

    /// Component-wise quotient.
    pub fn div(&self, o: &Vec3) -> (r: Vec3)
        ensures
            r == div_spec(*self, *o),
    {
        Vec3 { x: fx_div(self.x, o.x), y: fx_div(self.y, o.y), z: fx_div(self.z, o.z) }
    }

    /// Quotient by a fixed-point scalar.
    pub fn div_s(&self, s: i64) -> (r: Vec3)
        ensures
            r == div_s_spec(*self, s as int),
    {
        Vec3 { x: fx_div(self.x, s), y: fx_div(self.y, s), z: fx_div(self.z, s) }
    }

    pub fn dot(&self, o: &Vec3) -> (r: i64)
        ensures
            r as int == dot_spec(*self, *o),
    {
        fx_add(fx_add(fx_mul(self.x, o.x), fx_mul(self.y, o.y)), fx_mul(self.z, o.z))
    }

    pub fn cross(&self, o: &Vec3) -> (r: Vec3)
        ensures
            r == cross_spec(*self, *o),
    {
        Vec3 {
            x: fx_sub(fx_mul(self.y, o.z), fx_mul(self.z, o.y)),
            y: fx_sub(fx_mul(self.z, o.x), fx_mul(self.x, o.z)),
            z: fx_sub(fx_mul(self.x, o.y), fx_mul(self.y, o.x)),
        }
    }

    pub fn sq_len(&self) -> (r: i64)
        ensures
            r as int == sq_len_spec(*self),
    {
        self.dot(self)
    }

    pub fn length(&self) -> (r: i64)
        ensures
            r as int == length_spec(*self),
    {
        fx_sqrt(self.sq_len())
    }

    /// The unit vector along `self`; a zero-length vector is returned
    /// unchanged as zero.
    pub fn unit_vector(&self) -> (r: Vec3)
        ensures
            r == unit_spec(*self),
    {
        let len: i64 = self.length();
        self.div_s(len)
    }

    /// Normalizes in place.
    pub fn make_unit_vector(&mut self)
        ensures
            *final(self) == unit_spec(*old(self)),
    {
        *self = self.unit_vector();
    }
}

} // verus!
