//! Hit records and the scene: an unordered collection of spheres queried
//! as one composite object, returning the nearest intersection.

use vstd::prelude::*;

use crate::material::{wf_material, Material};
use crate::ray::Ray;
use crate::sphere::{sphere_hit_spec, Sphere};
use crate::vec3::Vec3;

verus! {

/// One intersection: the ray parameter, the world point, the outward
/// normal (unit length up to fixed-point rounding) and the material of the
/// surface that was struck.
#[derive(Clone, Copy, Debug, PartialEq)]
pub struct HitRecord {
    pub t: i64,
    pub p: Vec3,
    pub normal: Vec3,
    pub material: Option<Material>,
}

/// Every member of the scene has a positive radius and, where a material
/// is attached, a well-formed one.
pub open spec fn wf_world(spheres: Seq<Sphere>) -> bool {
    forall|i: int|
        0 <= i < spheres.len() ==> #[trigger] spheres[i].radius > 0 && match spheres[i].material {
            Some(m) => wf_material(m),
            None => true,
        }
}

/// The scene: every sphere, in insertion order.
pub struct HitableList {
    pub list: Vec<Sphere>,
}

/// Mirrors the scan of the scene from member `i` on: the window's far end
/// shrinks to the parameter of the best hit found so far, so a later
/// member replaces the best hit only by a strictly nearer one.
pub open spec fn list_hit_from(
    spheres: Seq<Sphere>,
    i: int,
    ray: Ray,
    t_min: int,
    closest: int,
    best: Option<HitRecord>,
) -> Option<HitRecord>
    decreases spheres.len() - i,
{
    if i < 0 || i >= spheres.len() {
        best
    } else {
        match sphere_hit_spec(spheres[i], ray, t_min, closest) {
            Some(h) => list_hit_from(spheres, i + 1, ray, t_min, h.t as int, Some(h)),
            None => list_hit_from(spheres, i + 1, ray, t_min, closest, best),
        }
    }
}

/// The nearest intersection of the ray with the whole scene inside the
/// window `(t_min, t_max)`.
pub open spec fn list_hit_spec(spheres: Seq<Sphere>, ray: Ray, t_min: int, t_max: int) -> Option<
    HitRecord,
> {
    list_hit_from(spheres, 0, ray, t_min, t_max, None)
}

impl HitableList {
    pub fn new(items: Vec<Sphere>) -> (r: HitableList)
        ensures
            r.list@ == items@,
    {
        HitableList { list: items }
    }

    pub fn push(&mut self, s: Sphere)
        ensures
            final(self).list@ == old(self).list@.push(s),
    {
        self.list.push(s);
    }

    /// Scans every member and keeps the hit with the smallest accepted
    /// parameter, shrinking the window after each success.  The scene
    /// misses exactly when every member misses, every returned hit lies
    /// strictly inside the window, and in a well-formed scene the struck
    /// material is well-formed.
    pub fn hit(&self, ray: &Ray, t_min: i64, t_max: i64) -> (r: Option<HitRecord>)
        ensures
            r == list_hit_spec(self.list@, *ray, t_min as int, t_max as int),
            r is None <==> (forall|i: int|
                0 <= i < self.list@.len() ==> #[trigger] sphere_hit_spec(
                    self.list@[i],
                    *ray,
                    t_min as int,
                    t_max as int,
                ) is None),
            r matches Some(h) ==> t_min < h.t < t_max,
            wf_world(self.list@) ==> (r matches Some(h) ==> match h.material {
                Some(m) => wf_material(m),
                None => true,
            }),
    {
        proof {
            lemma_list_hit_characterization(self.list@, *ray, t_min as int, t_max as int);
            if wf_world(self.list@) {
                lemma_from_material(self.list@, 0, *ray, t_min as int, t_max as int, None);
            }
        }
        let ghost full = self.list@;
        let mut closest_so_far: i64 = t_max;
        let mut hit_rec: Option<HitRecord> = None;
        let n: usize = self.list.len();
        let mut i: usize = 0;
        while i < n
            invariant
                n == full.len(),
                i <= n,
                self.list@ == full,
                list_hit_spec(full, *ray, t_min as int, t_max as int) == list_hit_from(
                    full,
                    i as int,
                    *ray,
                    t_min as int,
                    closest_so_far as int,
                    hit_rec,
                ),
            decreases n - i,
        {
            match self.list[i].hit(ray, t_min, closest_so_far) {
                Some(h) => {
                    closest_so_far = h.t;
                    hit_rec = Some(h);
                },
                None => {},
            }
            i = i + 1;
        }
        hit_rec
    }
}

proof fn lemma_from_some(
    spheres: Seq<Sphere>,
    i: int,
    ray: Ray,
    t_min: int,
    closest: int,
    best: Option<HitRecord>,
)
    requires
        best is Some,
    ensures
        list_hit_from(spheres, i, ray, t_min, closest, best) is Some,
    decreases spheres.len() - i,
{
    if 0 <= i < spheres.len() {
        match sphere_hit_spec(spheres[i], ray, t_min, closest) {
            Some(h) => {
                lemma_from_some(spheres, i + 1, ray, t_min, h.t as int, Some(h));
            },
            None => {
                lemma_from_some(spheres, i + 1, ray, t_min, closest, best);
            },
        }
    }
}

proof fn lemma_from_none_iff(spheres: Seq<Sphere>, i: int, ray: Ray, t_min: int, closest: int)
    requires
        0 <= i,
    ensures
        list_hit_from(spheres, i, ray, t_min, closest, None) is None <==> (forall|j: int|
            i <= j < spheres.len() ==> #[trigger] sphere_hit_spec(
                spheres[j],
                ray,
                t_min,
                closest,
            ) is None),
    decreases spheres.len() - i,
{
    if i < spheres.len() {
        match sphere_hit_spec(spheres[i], ray, t_min, closest) {
            Some(h) => {
                lemma_from_some(spheres, i + 1, ray, t_min, h.t as int, Some(h));
                assert(!(sphere_hit_spec(spheres[i], ray, t_min, closest) is None));
            },
            None => {
                lemma_from_none_iff(spheres, i + 1, ray, t_min, closest);
                if forall|j: int|
                    i + 1 <= j < spheres.len() ==> #[trigger] sphere_hit_spec(
                        spheres[j],
                        ray,
                        t_min,
                        closest,
                    ) is None {
                    assert forall|j: int| i <= j < spheres.len() implies #[trigger] sphere_hit_spec(
                        spheres[j],
                        ray,
                        t_min,
                        closest,
                    ) is None by {}
                }
            },
        }
    }
}

proof fn lemma_from_window(
    spheres: Seq<Sphere>,
    i: int,
    ray: Ray,
    t_min: int,
    closest: int,
    best: Option<HitRecord>,
    t_max: int,
)
    requires
        0 <= i,
        closest <= t_max,
        best matches Some(b) ==> t_min < b.t < t_max,
    ensures
        list_hit_from(spheres, i, ray, t_min, closest, best) matches Some(h) ==> t_min < h.t
            < t_max,
    decreases spheres.len() - i,
{
    if i < spheres.len() {
        match sphere_hit_spec(spheres[i], ray, t_min, closest) {
            Some(h) => {
                lemma_from_window(spheres, i + 1, ray, t_min, h.t as int, Some(h), t_max);
            },
            None => {
                lemma_from_window(spheres, i + 1, ray, t_min, closest, best, t_max);
            },
        }
    }
}

proof fn lemma_from_material(
    spheres: Seq<Sphere>,
    i: int,
    ray: Ray,
    t_min: int,
    closest: int,
    best: Option<HitRecord>,
)
    requires
        0 <= i,
        wf_world(spheres),
        best matches Some(b) ==> match b.material {
            Some(m) => wf_material(m),
            None => true,
        },
    ensures
        list_hit_from(spheres, i, ray, t_min, closest, best) matches Some(h) ==> match h.material {
            Some(m) => wf_material(m),
            None => true,
        },
    decreases spheres.len() - i,
{
    if i < spheres.len() {
        match sphere_hit_spec(spheres[i], ray, t_min, closest) {
            Some(h) => {
                assert(spheres[i].radius > 0 && match spheres[i].material {
                    Some(m) => wf_material(m),
                    None => true,
                });
                assert(h.material == spheres[i].material);
                lemma_from_material(spheres, i + 1, ray, t_min, h.t as int, Some(h));
            },
            None => {
                lemma_from_material(spheres, i + 1, ray, t_min, closest, best);
            },
        }
    }
}

/// The composite query in terms of its members: the scene misses exactly
/// when every member misses over the whole window, and every returned
/// hit lies strictly inside the window.
pub proof fn lemma_list_hit_characterization(
    spheres: Seq<Sphere>,
    ray: Ray,
    t_min: int,
    t_max: int,
)
    ensures
        list_hit_spec(spheres, ray, t_min, t_max) is None <==> (forall|i: int|
            0 <= i < spheres.len() ==> #[trigger] sphere_hit_spec(
                spheres[i],
                ray,
                t_min,
                t_max,
            ) is None),
        list_hit_spec(spheres, ray, t_min, t_max) matches Some(h) ==> t_min < h.t < t_max,
{
    lemma_from_none_iff(spheres, 0, ray, t_min, t_max);
    lemma_from_window(spheres, 0, ray, t_min, t_max, None, t_max);
}

} // verus!
