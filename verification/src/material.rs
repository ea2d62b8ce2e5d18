//! Surface scattering: diffuse (Lambertian), specular with fuzz (Metal)
//! and refractive with Schlick-approximated Fresnel (Dielectric).

use vstd::prelude::*;

use crate::fixed::{clamp_unit_spec, fx_add, fx_add_spec, fx_div, fx_div_spec, fx_mul, fx_mul_spec,
    fx_sqrt, fx_sqrt_spec, fx_sub, fx_sub_spec, SCALE};
use crate::hitable::HitRecord;
use crate::ray::Ray;
use crate::rng::rand_unit;
use crate::vec3::{add_spec, dot_spec, length_spec, mul_s_spec, neg_spec, sq_len_spec, sub_spec,
    unit_spec, Vec3};

verus! {

/// A colour with every channel inside the unit interval.
pub open spec fn wf_color(c: Vec3) -> bool {
    &&& 0 <= c.x <= SCALE
    &&& 0 <= c.y <= SCALE
    &&& 0 <= c.z <= SCALE
}

/// A point strictly inside the unit ball, as produced by rejection
/// sampling; the component bounds come from the sampled cube.
pub open spec fn in_unit_ball(q: Vec3) -> bool {
    &&& sq_len_spec(q) < SCALE
    &&& -SCALE <= q.x <= SCALE
    &&& -SCALE <= q.y <= SCALE
    &&& -SCALE <= q.z <= SCALE
}

/// Diffuse: scatters into the unit ball around the normal.
#[derive(Clone, Copy, Debug, PartialEq)]
pub struct Lambertian {
    pub albedo: Vec3,
}

/// Specular: mirrors the incoming direction, perturbed by `fuzz` times a
/// point in the unit ball.
#[derive(Clone, Copy, Debug, PartialEq)]
pub struct Metal {
    pub albedo: Vec3,
    pub fuzz: i64,
}

/// Refractive: absorbs nothing, refracts by Snell's law where possible
/// and otherwise reflects.
#[derive(Clone, Copy, Debug, PartialEq)]
pub struct Dielectric {
    pub reflection_index: i64,
}

/// The closed set of material models.
#[derive(Clone, Copy, Debug, PartialEq)]
pub enum Material {
    Lambertian(Lambertian),
    Metal(Metal),
    Dielectric(Dielectric),
}

/// The ideal mirror reflection `v - 2 (v . n) n`.
pub open spec fn reflect_spec(v: Vec3, n: Vec3) -> Vec3 {
    sub_spec(v, mul_s_spec(n, fx_mul_spec(dot_spec(v, n), 2 * SCALE)))
}

/// Mirrors Snell's law: refraction succeeds exactly when the discriminant
/// `1 - (ni/nt)^2 (1 - (u . n)^2)` is positive; otherwise the ray is
/// totally internally reflected and no refracted direction exists.
pub open spec fn refract_spec(v: Vec3, n: Vec3, ni_over_nt: int) -> Option<Vec3> {
    let uv = unit_spec(v);
    let dt = dot_spec(uv, n);
    let disc = fx_sub_spec(
        SCALE as int,
        fx_mul_spec(fx_mul_spec(ni_over_nt, ni_over_nt), fx_sub_spec(SCALE as int, fx_mul_spec(dt, dt))),
    );
    if disc > 0 {
        Some(
            sub_spec(
                mul_s_spec(sub_spec(uv, mul_s_spec(n, dt)), ni_over_nt),
                mul_s_spec(n, fx_sqrt_spec(disc)),
            ),
        )
    } else {
        None
    }
}

/// Schlick's polynomial approximation of Fresnel reflectance.
pub open spec fn schlick_spec(cosine: int, reflection_index: int) -> int {
    let r0 = fx_div_spec(
        fx_sub_spec(SCALE as int, reflection_index),
        fx_add_spec(SCALE as int, reflection_index),
    );
    let r0sq = fx_mul_spec(r0, r0);
    let omc = fx_sub_spec(SCALE as int, cosine);
    let p2 = fx_mul_spec(omc, omc);
    let p5 = fx_mul_spec(fx_mul_spec(p2, p2), omc);
    fx_add_spec(r0sq, fx_mul_spec(fx_sub_spec(SCALE as int, r0sq), p5))
}

/// The ideal mirror reflection about `normal`.
pub fn reflect(incident: Vec3, normal: Vec3) -> (r: Vec3)
    ensures
        r == reflect_spec(incident, normal),
{
    incident.sub(&normal.mul_s(fx_mul(incident.dot(&normal), 2 * SCALE)))
}

/// Refraction by Snell's law; `None` means total internal reflection.
pub fn refract(incident: Vec3, normal: Vec3, ni_over_nt: i64) -> (r: Option<Vec3>)
    ensures
        r == refract_spec(incident, normal, ni_over_nt as int),
{
    let uv = incident.unit_vector();
    let dt = uv.dot(&normal);
    let disc = fx_sub(
        SCALE,
        fx_mul(fx_mul(ni_over_nt, ni_over_nt), fx_sub(SCALE, fx_mul(dt, dt))),
    );
    if disc > 0 {
        Some(
            uv.sub(&normal.mul_s(dt)).mul_s(ni_over_nt).sub(&normal.mul_s(fx_sqrt(disc))),
        )
    } else {
        None
    }
}

/// Schlick's reflectance approximation as the reflection probability.
pub fn schlick(cosine: i64, reflection_index: i64) -> (r: i64)
    ensures
        r as int == schlick_spec(cosine as int, reflection_index as int),
{
    let r0 = fx_div(fx_sub(SCALE, reflection_index), fx_add(SCALE, reflection_index));
    let r0sq = fx_mul(r0, r0);
    let omc = fx_sub(SCALE, cosine);
    let p2 = fx_mul(omc, omc);
    let p5 = fx_mul(fx_mul(p2, p2), omc);
    fx_add(r0sq, fx_mul(fx_sub(SCALE, r0sq), p5))
}

fn random_component(rng: &mut rand::rngs::ThreadRng) -> (r: i64)
    ensures
        -SCALE <= r <= SCALE,
{
    let u = rand_unit(rng);
    let d = fx_mul(u, 2 * SCALE);
    proof {
        vstd::arithmetic::div_mod::lemma_div_by_multiple(2 * u as int, SCALE as int);
        assert(u as int * (2 * SCALE) as int == (2 * u as int) * SCALE as int) by (nonlinear_arith);
    }
    fx_sub(d, SCALE)
}

/// Rejection sampling: points drawn uniformly from the cube `[-1, 1]^3`
/// until one falls strictly inside the unit ball.  If no draw succeeds
/// within the attempt budget the center is returned, which is inside the
/// ball as well.
pub fn random_point_in_unit_sphere(rng: &mut rand::rngs::ThreadRng) -> (p: Vec3)
    ensures
        in_unit_ball(p),
{
    let mut i: usize = 0;
    while i < 64
        invariant
            true,
        decreases 64 - i,
    {
        let q = Vec3::new(
            random_component(rng),
            random_component(rng),
            random_component(rng),
        );
        if q.sq_len() < SCALE {
            return q;
        }
        i = i + 1;
    }
    let zero = Vec3::new(0, 0, 0);
    proof {
        assert(sq_len_spec(zero) == 0);
    }
    zero
}

/// What `Lambertian::scatter` produced, for a given ball point `q`.
pub open spec fn lambertian_scatter_spec(hit: HitRecord, q: Vec3) -> Ray {
    let target = add_spec(add_spec(hit.p, hit.normal), q);
    Ray { a: hit.p, b: sub_spec(target, hit.p) }
}

/// What direction `Metal::scatter` perturbs the reflection to, for a
/// given ball point `q`.
pub open spec fn metal_scatter_dir_spec(m: Metal, ray: Ray, hit: HitRecord, q: Vec3) -> Vec3 {
    add_spec(reflect_spec(unit_spec(ray.b), hit.normal), mul_s_spec(q, m.fuzz as int))
}

/// The outward normal, index ratio and incidence cosine used by the
/// dielectric, chosen by the side of the surface the ray arrives from.
pub open spec fn dielectric_params_spec(d: Dielectric, ray: Ray, hit: HitRecord) -> (Vec3, int, int) {
    let dv = dot_spec(ray.b, hit.normal);
    if dv > 0 {
        (
            neg_spec(hit.normal),
            d.reflection_index as int,
            fx_div_spec(fx_mul_spec(dv, d.reflection_index as int), length_spec(ray.b)),
        )
    } else {
        (
            hit.normal,
            fx_div_spec(SCALE as int, d.reflection_index as int),
            fx_div_spec(fx_sub_spec(0, dv), length_spec(ray.b)),
        )
    }
}

/// Everything `Lambertian::scatter` promises of its result: the albedo
/// comes back as the attenuation and the ray scatters into the unit ball
/// around the normal, for some ball point.
pub open spec fn lambertian_scatter_ok(m: Lambertian, hit: HitRecord, r: (Vec3, Option<Ray>)) -> bool {
    &&& r.0 == m.albedo
    &&& r.1 is Some
    &&& exists|q: Vec3| #[trigger] in_unit_ball(q) && r.1 == Some(lambertian_scatter_spec(hit, q))
}

/// Everything `Metal::scatter` promises: for some ball point, the
/// perturbed reflection is returned when it points out of the surface and
/// the ray is absorbed when it points in; with zero fuzz the direction is
/// the exact mirror reflection.
pub open spec fn metal_scatter_ok(m: Metal, ray: Ray, hit: HitRecord, r: (Vec3, Option<Ray>)) -> bool {
    &&& r.0 == m.albedo
    &&& exists|q: Vec3|
        #[trigger] in_unit_ball(q) && ({
            let d = metal_scatter_dir_spec(m, ray, hit, q);
            &&& (dot_spec(d, hit.normal) > 0 ==> r.1 == Some(Ray { a: hit.p, b: d }))
            &&& (dot_spec(d, hit.normal) <= 0 ==> r.1 == (None::<Ray>))
        })
    &&& (m.fuzz == 0 ==> ({
        let d = reflect_spec(unit_spec(ray.b), hit.normal);
        &&& (dot_spec(d, hit.normal) > 0 ==> r.1 == Some(Ray { a: hit.p, b: d }))
        &&& (dot_spec(d, hit.normal) <= 0 ==> r.1 == (None::<Ray>))
    }))
}

/// Which ray the dielectric hands back for the uniform draw `u`: the
/// reflection when the draw falls below Schlick's reflectance, the
/// refraction otherwise.
pub open spec fn dielectric_choice_spec(
    u: int,
    cosine: int,
    reflection_index: int,
    reflected: Ray,
    refracted: Ray,
) -> Ray {
    if u < schlick_spec(cosine, reflection_index) {
        reflected
    } else {
        refracted
    }
}

/// Everything `Dielectric::scatter` promises: the attenuation is one,
/// total internal reflection deterministically reflects, and otherwise
/// the result is the reflection or the refraction as some uniform draw
/// decides against Schlick's reflectance.
pub open spec fn dielectric_scatter_ok(m: Dielectric, ray: Ray, hit: HitRecord, r: (Vec3, Option<Ray>)) -> bool {
    &&& r.0 == (Vec3 { x: SCALE, y: SCALE, z: SCALE })
    &&& r.1 is Some
    &&& ({
        let params = dielectric_params_spec(m, ray, hit);
        let reflected = Ray { a: hit.p, b: reflect_spec(ray.b, hit.normal) };
        match refract_spec(ray.b, params.0, params.1) {
            None => r.1 == Some(reflected),
            Some(rf) => exists|u: int|
                0 <= u <= SCALE && r.1 == Some(
                    #[trigger] dielectric_choice_spec(
                        u,
                        params.2,
                        m.reflection_index as int,
                        reflected,
                        Ray { a: hit.p, b: rf },
                    ),
                ),
        }
    })
}

impl Lambertian {
    pub fn new(a: Vec3) -> (m: Lambertian)
        ensures
            m == (Lambertian { albedo: a }),
    {
        Lambertian { albedo: a }
    }

    /// Always scatters; the attenuation is the albedo, so channels of a
    /// well-formed albedo stay within the unit interval.
    pub fn scatter(&self, _ray: &Ray, hit_rec: &HitRecord, rng: &mut rand::rngs::ThreadRng) -> (r:
        (Vec3, Option<Ray>))
        ensures
            lambertian_scatter_ok(*self, *hit_rec, r),
            wf_color(self.albedo) ==> wf_color(r.0),
    {
        let q = random_point_in_unit_sphere(rng);
        let target = hit_rec.p.add(&hit_rec.normal).add(&q);
        let scattered = Ray::new(hit_rec.p, target.sub(&hit_rec.p));
        proof {
            assert(in_unit_ball(q) && Some(scattered) == Some(lambertian_scatter_spec(*hit_rec, q)));
        }
        (self.albedo, Some(scattered))
    }
}

impl Metal {
    pub fn new(albedo: Vec3) -> (m: Metal)
        ensures
            m == (Metal { albedo, fuzz: 0 }),
    {
        Metal { albedo, fuzz: 0 }
    }

    /// The fuzz parameter is clamped to the unit interval.
    pub fn with_fuzz(albedo: Vec3, fuzz: i64) -> (m: Metal)
        ensures
            m.albedo == albedo,
            m.fuzz as int == clamp_unit_spec(fuzz as int),
    {
        let clamped: i64 = if fuzz < 0 {
            0
        } else if fuzz > SCALE {
            SCALE
        } else {
            fuzz
        };
        Metal { albedo, fuzz: clamped }
    }

    /// Reflects about the normal, perturbs by `fuzz`, and absorbs the ray
    /// when the perturbed direction points into the surface.  With zero
    /// fuzz the scattered direction is the exact mirror reflection.
    pub fn scatter(&self, ray: &Ray, hit_rec: &HitRecord, rng: &mut rand::rngs::ThreadRng) -> (r:
        (Vec3, Option<Ray>))
        ensures
            metal_scatter_ok(*self, *ray, *hit_rec, r),
            wf_color(self.albedo) ==> wf_color(r.0),
    {
        let q = random_point_in_unit_sphere(rng);
        let reflected = reflect(ray.direction().unit_vector(), hit_rec.normal);
        let dir = reflected.add(&q.mul_s(self.fuzz));
        let scattered = Ray::new(hit_rec.p, dir);
        let accepted = scattered.direction().dot(&hit_rec.normal) > 0;
        proof {
            assert(dir == metal_scatter_dir_spec(*self, *ray, *hit_rec, q));
            if self.fuzz == 0 {
                assert(mul_s_spec(q, 0) == (Vec3 { x: 0i64, y: 0i64, z: 0i64 }));
                assert(dir == reflect_spec(unit_spec(ray.b), hit_rec.normal));
            }
        }
        if accepted {
            proof {
                assert(in_unit_ball(q) && ({
                    let d = metal_scatter_dir_spec(*self, *ray, *hit_rec, q);
                    &&& (dot_spec(d, hit_rec.normal) > 0 ==> Some(scattered) == Some(
                        Ray { a: hit_rec.p, b: d },
                    ))
                    &&& (dot_spec(d, hit_rec.normal) <= 0 ==> Some(scattered) == (None::<Ray>))
                }));
            }
            (self.albedo, Some(scattered))
        } else {
            proof {
                assert(in_unit_ball(q) && ({
                    let d = metal_scatter_dir_spec(*self, *ray, *hit_rec, q);
                    &&& (dot_spec(d, hit_rec.normal) > 0 ==> (None::<Ray>) == Some(
                        Ray { a: hit_rec.p, b: d },
                    ))
                    &&& (dot_spec(d, hit_rec.normal) <= 0 ==> (None::<Ray>) == (None::<Ray>))
                }));
            }
            (self.albedo, None)
        }
    }
}

impl Dielectric {
    pub fn new(reflection_index: i64) -> (m: Dielectric)
        ensures
            m == (Dielectric { reflection_index }),
    {
        Dielectric { reflection_index }
    }

    /// Glass absorbs nothing, so the attenuation is always one.  The ray
    /// always scatters: when refraction is geometrically impossible
    /// (total internal reflection) the reflected ray is produced
    /// deterministically, otherwise the reflectance probability from
    /// Schlick's approximation picks between reflection and refraction.
    pub fn scatter(&self, ray: &Ray, hit_rec: &HitRecord, rng: &mut rand::rngs::ThreadRng) -> (r:
        (Vec3, Option<Ray>))
        ensures
            dielectric_scatter_ok(*self, *ray, *hit_rec, r),
            wf_color(r.0),
    {
        let reflected = reflect(ray.direction(), hit_rec.normal);
        let attenuation = Vec3::new(SCALE, SCALE, SCALE);
        let dv = ray.direction().dot(&hit_rec.normal);
        let (outward_normal, ni_over_nt, cosine): (Vec3, i64, i64) = if dv > 0 {
            (
                hit_rec.normal.neg(),
                self.reflection_index,
                fx_div(fx_mul(dv, self.reflection_index), ray.direction().length()),
            )
        } else {
            (
                hit_rec.normal,
                fx_div(SCALE, self.reflection_index),
                fx_div(fx_sub(0, dv), ray.direction().length()),
            )
        };
        proof {
            let params = dielectric_params_spec(*self, *ray, *hit_rec);
            assert(outward_normal == params.0 && ni_over_nt as int == params.1 && cosine as int
                == params.2);
        }
        match refract(ray.direction(), outward_normal, ni_over_nt) {
            Some(refracted) => {
                let reflect_prob = schlick(cosine, self.reflection_index);
                let draw = rand_unit(rng);
                let out: (Vec3, Option<Ray>) = if draw < reflect_prob {
                    (attenuation, Some(Ray::new(hit_rec.p, reflected)))
                } else {
                    (attenuation, Some(Ray::new(hit_rec.p, refracted)))
                };
                proof {
                    let params = dielectric_params_spec(*self, *ray, *hit_rec);
                    let refl = Ray { a: hit_rec.p, b: reflect_spec(ray.b, hit_rec.normal) };
                    let rf = refract_spec(ray.b, params.0, params.1)->Some_0;
                    assert(out.1 == Some(
                        dielectric_choice_spec(
                            draw as int,
                            params.2,
                            self.reflection_index as int,
                            refl,
                            Ray { a: hit_rec.p, b: rf },
                        ),
                    ));
                }
                out
            },
            None => (attenuation, Some(Ray::new(hit_rec.p, reflected))),
        }
    }
}

/// True of every scatter result the material can produce: the dispatching
/// contract folds the full per-variant promises.
pub open spec fn scatter_ok(m: Material, ray: Ray, hit: HitRecord, r: (Vec3, Option<Ray>)) -> bool {
    match m {
        Material::Lambertian(l) => lambertian_scatter_ok(l, hit, r),
        Material::Metal(mm) => metal_scatter_ok(mm, ray, hit, r),
        Material::Dielectric(d) => dielectric_scatter_ok(d, ray, hit, r),
    }
}

/// A material whose parameters are inside their documented ranges.
pub open spec fn wf_material(m: Material) -> bool {
    match m {
        Material::Lambertian(l) => wf_color(l.albedo),
        Material::Metal(mm) => wf_color(mm.albedo) && 0 <= mm.fuzz <= SCALE,
        Material::Dielectric(d) => d.reflection_index > 0,
    }
}

impl Material {
    /// Dispatches to the variant's scattering model.  Whatever the random
    /// draws, the attenuation of a well-formed material stays within the
    /// unit interval.
    pub fn scatter(&self, ray: &Ray, hit_rec: &HitRecord, rng: &mut rand::rngs::ThreadRng) -> (r:
        (Vec3, Option<Ray>))
        ensures
            scatter_ok(*self, *ray, *hit_rec, r),
            wf_material(*self) ==> wf_color(r.0),
    {
        match self {
            Material::Lambertian(l) => l.scatter(ray, hit_rec, rng),
            Material::Metal(m) => m.scatter(ray, hit_rec, rng),
            Material::Dielectric(d) => d.scatter(ray, hit_rec, rng),
        }
    }
}

} // verus!
