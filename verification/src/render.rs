//! The tiled renderer: the closed set of shading models, per-pixel
//! shading over a chunk, and the full-frame scheduler that partitions the
//! image, renders every chunk and composites the results.

use vstd::prelude::*;

use crate::camera::{camera_spec, get_ray_spec, in_unit_disk, Camera};
use crate::chunk::{blit_chunk, byte_gamma_spec, byte_spec, chunk_offset, frame_offset,
    in_blit_region, lemma_chunk_partition, lemma_region_decode, to_byte, to_byte_gamma, wf_chunk,
    Chunk, HORIZONTAL_PARTITION, MAX_DIM, VERTICAL_PARTITION};
use crate::color::{calc_color, color_normal, diffuse_color, normal_color_spec, sky_color,
    sky_color_spec, EPS};
use crate::fixed::{fx_div, fx_div_int, fx_div_int_spec, fx_div_spec, fx_mul, fx_mul_spec,
    fx_sqrt, fx_sqrt_spec, fx_sub, fx_sub_spec, HALF, SCALE};
use crate::hitable::{list_hit_spec, wf_world, HitableList};
use crate::ray::{ray_at_spec, Ray};
use crate::rng::rand_unit;
use crate::sphere::Sphere;
use crate::vec3::{add_spec, dot_spec, mul_s_spec, mul_spec, sub_spec, unit_spec, v3, Vec3};

verus! {

/// The fraction `i / d` as a fixed-point scalar.
pub open spec fn frac_spec(i: int, d: int) -> int {
    fx_div_int_spec(i * SCALE, d)
}

pub fn frac(i: usize, d: usize) -> (r: i64)
    requires
        i <= MAX_DIM,
        1 <= d <= MAX_DIM,
    ensures
        r as int == frac_spec(i as int, d as int),
{
    fx_div_int((i as i64) * SCALE, d as i64)
}

/// The fraction `(i + jitter) / d` for a fresh unit draw: some jitter in
/// `[0, 1]` was added to the coordinate before dividing.
fn frac_jitter(i: usize, d: usize, rng: &mut rand::rngs::ThreadRng) -> (r: i64)
    requires
        i <= MAX_DIM,
        1 <= d <= MAX_DIM,
    ensures
        exists|j: int|
            0 <= j <= SCALE && r as int == #[trigger] fx_div_int_spec(
                i as int * SCALE + j,
                d as int,
            ),
{
    let jitter = rand_unit(rng);
    let r = fx_div_int((i as i64) * SCALE + jitter, d as i64);
    proof {
        assert(r as int == fx_div_int_spec(i as int * SCALE + jitter as int, d as int));
    }
    r
}

/// The fixed image-plane frame of the early demos: origin at zero, lower
/// left corner `(-2, -1, -1)`, spans `(4, 0, 0)` and `(0, 2, 0)`.
pub open spec fn frame_ray_spec(u: int, v: int) -> Ray {
    Ray {
        a: Vec3 { x: 0, y: 0, z: 0 },
        b: add_spec(
            add_spec(
                Vec3 { x: -2_000_000i64, y: -1_000_000i64, z: -1_000_000i64 },
                mul_s_spec(Vec3 { x: 4_000_000i64, y: 0, z: 0 }, u),
            ),
            mul_s_spec(Vec3 { x: 0, y: 2_000_000i64, z: 0 }, v),
        ),
    }
}

pub fn frame_ray(u: i64, v: i64) -> (r: Ray)
    ensures
        r == frame_ray_spec(u as int, v as int),
{
    let lower_left_corner = Vec3::new(-2_000_000, -1_000_000, -1_000_000);
    let horizontal = Vec3::new(4_000_000, 0, 0);
    let vertical = Vec3::new(0, 2_000_000, 0);
    let origin = Vec3::new(0, 0, 0);
    Ray::new(origin, lower_left_corner.add(&horizontal.mul_s(u)).add(&vertical.mul_s(v)))
}

/// The discriminant test of the full-`b` quadratic: whether the ray meets
/// the sphere at all.
pub open spec fn ray_hit_sphere_spec(center: Vec3, radius: int, ray: Ray) -> bool {
    let ac = sub_spec(ray.a, center);
    let a = dot_spec(ray.b, ray.b);
    let b = fx_mul_spec(2 * SCALE, dot_spec(ray.b, ac));
    let c = fx_sub_spec(dot_spec(ac, ac), fx_mul_spec(radius, radius));
    let disc = fx_sub_spec(fx_mul_spec(b, b), fx_mul_spec(fx_mul_spec(4 * SCALE, a), c));
    disc > 0
}

pub fn ray_hit_sphere(center: Vec3, radius: i64, ray: &Ray) -> (hit: bool)
    ensures
        hit == ray_hit_sphere_spec(center, radius as int, *ray),
{
    let ac = ray.origin().sub(&center);
    let a = ray.direction().dot(&ray.direction());
    let b = fx_mul(2 * SCALE, ray.direction().dot(&ac));
    let c = fx_sub(ac.dot(&ac), fx_mul(radius, radius));
    let disc = fx_sub(fx_mul(b, b), fx_mul(fx_mul(4 * SCALE, a), c));
    disc > 0
}

/// Flat red wherever the ray meets the demo sphere, the sky elsewhere.
pub open spec fn red_sphere_color_spec(ray: Ray) -> Vec3 {
    if ray_hit_sphere_spec(Vec3 { x: 0, y: 0, z: -1_000_000i64 }, HALF as int, ray) {
        Vec3 { x: SCALE, y: 0, z: 0 }
    } else {
        sky_color_spec(ray)
    }
}

pub fn red_sphere_color(ray: &Ray) -> (c: Vec3)
    ensures
        c == red_sphere_color_spec(*ray),
{
    if ray_hit_sphere(Vec3::new(0, 0, -1_000_000), HALF, ray) {
        Vec3::new(SCALE, 0, 0)
    } else {
        sky_color(ray)
    }
}

/// The near root of the full-`b` quadratic, or minus one when the ray
/// misses.
pub open spec fn surface_normal_t_spec(center: Vec3, radius: int, ray: Ray) -> int {
    let pc = sub_spec(ray.a, center);
    let a = dot_spec(ray.b, ray.b);
    let b = fx_mul_spec(2 * SCALE, dot_spec(pc, ray.b));
    let c = fx_sub_spec(dot_spec(pc, pc), fx_mul_spec(radius, radius));
    let disc = fx_sub_spec(fx_mul_spec(b, b), fx_mul_spec(fx_mul_spec(4 * SCALE, a), c));
    if disc >= 0 {
        fx_div_spec(fx_sub_spec(fx_sub_spec(0, b), fx_sqrt_spec(disc)), fx_mul_spec(2 * SCALE, a))
    } else {
        -SCALE as int
    }
}

/// The near intersection coloured by its unit surface normal shifted
/// into `[0, 1]`; the sky where the ray misses.
pub open spec fn surface_normal_color_spec(ray: Ray) -> Vec3 {
    let center = Vec3 { x: 0, y: 0, z: -1_000_000i64 };
    let t = surface_normal_t_spec(center, HALF as int, ray);
    if t > 0 {
        let n = unit_spec(sub_spec(ray_at_spec(ray, t), center));
        mul_s_spec(add_spec(n, Vec3 { x: SCALE, y: SCALE, z: SCALE }), HALF as int)
    } else {
        sky_color_spec(ray)
    }
}

pub fn surface_normal_color(ray: &Ray) -> (c: Vec3)
    ensures
        c == surface_normal_color_spec(*ray),
{
    let center = Vec3::new(0, 0, -1_000_000);
    let pc = ray.origin().sub(&center);
    let a = ray.direction().dot(&ray.direction());
    let b = fx_mul(2 * SCALE, pc.dot(&ray.direction()));
    let c = fx_sub(pc.dot(&pc), fx_mul(HALF, HALF));
    let disc = fx_sub(fx_mul(b, b), fx_mul(fx_mul(4 * SCALE, a), c));
    let t: i64 = if disc >= 0 {
        fx_div(fx_sub(fx_sub(0, b), fx_sqrt(disc)), fx_mul(2 * SCALE, a))
    } else {
        -SCALE
    };
    if t > 0 {
        let n = ray.point_at_parameter(t).sub(&center).unit_vector();
        n.add(&Vec3::new(SCALE, SCALE, SCALE)).mul_s(HALF)
    } else {
        sky_color(ray)
    }
}

/// The closed set of shading models the demos use.
#[derive(Clone, Copy, Debug, PartialEq)]
pub enum ShadeMode {
    /// Plain coordinate gradient: `(i / x, j / y, 0.2)`.
    UvPlain,
    /// The sky gradient through the fixed frame.
    Gradient,
    /// A flat red sphere in front of the sky.
    RedSphere,
    /// One sphere coloured by its surface normal.
    NormalSphere,
    /// The whole scene coloured by surface normals, fixed frame.
    NormalScene,
    /// Normal colouring, multi-sampled through the camera.
    SampledNormal,
    /// Diffuse bounces at half energy, multi-sampled, gamma corrected.
    Diffuse,
    /// The full material integrator, multi-sampled, gamma corrected.
    Full,
}

pub open spec fn mode_needs_world(m: ShadeMode) -> bool {
    m is NormalScene || m is SampledNormal || m is Diffuse || m is Full
}

pub open spec fn mode_needs_camera(m: ShadeMode) -> bool {
    m is SampledNormal || m is Full
}

pub open spec fn mode_gamma(m: ShadeMode) -> bool {
    m is Diffuse || m is Full
}

/// The models whose pixels are multi-sampled through a camera.
pub open spec fn mode_sampled(m: ShadeMode) -> bool {
    m is SampledNormal || m is Diffuse || m is Full
}

/// The sum of a sequence of colours, folded in order.
pub open spec fn sum_colors(cs: Seq<Vec3>) -> Vec3
    decreases cs.len(),
{
    if cs.len() == 0 {
        Vec3 { x: 0, y: 0, z: 0 }
    } else {
        add_spec(sum_colors(cs.drop_last()), cs.last())
    }
}

/// The colour divided by the sample count, per channel.
pub open spec fn average_spec(v: Vec3, n: int) -> Vec3 {
    v3(
        fx_div_int_spec(v.x as int, n),
        fx_div_int_spec(v.y as int, n),
        fx_div_int_spec(v.z as int, n),
    )
}

/// A radiance value the shading model admits for the given ray: exact
/// for normal colouring, and for the bouncing models exactly what their
/// integrators promise of every outcome.
pub open spec fn admitted_radiance(mode: ShadeMode, spheres: Seq<Sphere>, ray: Ray, c: Vec3) -> bool {
    match mode {
        ShadeMode::SampledNormal => c == normal_color_spec(spheres, ray, 0),
        ShadeMode::Diffuse => {
            &&& (list_hit_spec(spheres, ray, EPS as int, i64::MAX as int) is None ==> c
                == sky_color_spec(ray))
            &&& (c == (Vec3 { x: 0i64, y: 0i64, z: 0i64 }) || exists|a: int, r2: Ray|
                0 <= a <= SCALE && c == #[trigger] mul_s_spec(sky_color_spec(r2), a))
            &&& crate::material::wf_color(c)
        },
        ShadeMode::Full => {
            &&& (list_hit_spec(spheres, ray, EPS as int, i64::MAX as int) is None ==> c
                == sky_color_spec(ray))
            &&& (c == (Vec3 { x: 0i64, y: 0i64, z: 0i64 }) || exists|att: Vec3, r2: Ray|
                c == #[trigger] mul_spec(att, sky_color_spec(r2)))
            &&& (wf_world(spheres) ==> crate::material::wf_color(c))
        },
        _ => true,
    }
}

/// A sample ray the camera admits for pixel `(px, py)`: the plane
/// coordinates carry some jitter in `[0, 1]` and the origin some lens
/// point.
pub open spec fn admitted_ray(cam: Camera, px: int, py: int, x: int, y: int, ray: Ray) -> bool {
    exists|ju: int, jv: int, dp: Vec3|
        0 <= ju <= SCALE && 0 <= jv <= SCALE && in_unit_disk(dp) && ray == #[trigger] get_ray_spec(
            cam,
            fx_div_int_spec(px * SCALE + ju, x),
            fx_div_int_spec(py * SCALE + jv, y),
            dp,
        )
}

/// What a sampled pixel may show: the quantization input is the average
/// of `samples` admitted radiances along admitted sample rays.
pub open spec fn admissible_pixel(
    mode: ShadeMode,
    spheres: Seq<Sphere>,
    cam: Camera,
    px: int,
    py: int,
    x: int,
    y: int,
    samples: int,
    c: Vec3,
) -> bool {
    exists|rays: Seq<Ray>, cs: Seq<Vec3>|
        #![trigger rays.len(), cs.len()]
        {
            &&& rays.len() == samples
            &&& cs.len() == samples
            &&& (forall|k: int|
                0 <= k < samples ==> admitted_ray(cam, px, py, x, y, #[trigger] rays[k])
                    && admitted_radiance(mode, spheres, rays[k], cs[k]))
            &&& c == average_spec(sum_colors(cs), samples)
        }
}

/// The camera of the demos' shared frame: at the origin, looking down
/// the negative `z` axis, aspect ratio two.
pub open spec fn default_camera_spec() -> Camera {
    camera_spec(
        Vec3 { x: 0, y: 0, z: 0 },
        Vec3 { x: 0, y: 0, z: -1_000_000i64 },
        Vec3 { x: 0, y: SCALE, z: 0 },
        90 * SCALE,
        2 * SCALE,
        0,
        SCALE as int,
    )
}

/// The camera a chunk shades through: the diffuse model builds the
/// default camera itself, the others use the one handed in.
pub open spec fn chunk_camera(mode: ShadeMode, camera: Option<&Camera>) -> Camera {
    if mode is Diffuse {
        default_camera_spec()
    } else {
        match camera {
            Some(c) => *c,
            None => default_camera_spec(),
        }
    }
}

/// One multi-sampled pixel: `samples` jittered rays through the camera,
/// shaded by the model and averaged.
fn shade_pixel(
    mode: ShadeMode,
    world: &HitableList,
    camera: &Camera,
    px: usize,
    py: usize,
    x: usize,
    y: usize,
    samples: u8,
    rng: &mut rand::rngs::ThreadRng,
) -> (c: Vec3)
    requires
        mode_sampled(mode),
        px < x,
        py < y,
        x <= MAX_DIM,
        y <= MAX_DIM,
    ensures
        admissible_pixel(
            mode,
            world.list@,
            *camera,
            px as int,
            py as int,
            x as int,
            y as int,
            samples as int,
            c,
        ),
{
    let mut acc = Vec3::new(0, 0, 0);
    let ghost mut rays: Seq<Ray> = Seq::empty();
    let ghost mut cs: Seq<Vec3> = Seq::empty();
    let mut s: u8 = 0;
    while s < samples
        invariant
            mode_sampled(mode),
            px < x,
            py < y,
            x <= MAX_DIM,
            y <= MAX_DIM,
            s <= samples,
            rays.len() == s as int,
            cs.len() == s as int,
            acc == sum_colors(cs),
            forall|k: int|
                0 <= k < s as int ==> admitted_ray(
                    *camera,
                    px as int,
                    py as int,
                    x as int,
                    y as int,
                    #[trigger] rays[k],
                ) && admitted_radiance(mode, world.list@, rays[k], cs[k]),
        decreases samples - s,
    {
        let u = frac_jitter(px, x, rng);
        let v = frac_jitter(py, y, rng);
        let ray = camera.get_ray(u, v, rng);
        let sample: Vec3 = match mode {
            ShadeMode::SampledNormal => color_normal(&ray, world, 0),
            ShadeMode::Diffuse => diffuse_color(&ray, world, rng),
            ShadeMode::Full => calc_color(&ray, world, rng),
            _ => {
                proof {
                    assert(false);
                }
                Vec3::new(0, 0, 0)
            },
        };
        proof {
            let ju = choose|j: int|
                0 <= j <= SCALE && u as int == #[trigger] fx_div_int_spec(
                    px as int * SCALE + j,
                    x as int,
                );
            let jv = choose|j: int|
                0 <= j <= SCALE && v as int == #[trigger] fx_div_int_spec(
                    py as int * SCALE + j,
                    y as int,
                );
            let dp = choose|d: Vec3|
                in_unit_disk(d) && ray == get_ray_spec(*camera, u as int, v as int, d);
            assert(ray == get_ray_spec(
                *camera,
                fx_div_int_spec(px as int * SCALE + ju, x as int),
                fx_div_int_spec(py as int * SCALE + jv, y as int),
                dp,
            ));
            assert(admitted_ray(*camera, px as int, py as int, x as int, y as int, ray));
            let rays0 = rays;
            let cs0 = cs;
            rays = rays.push(ray);
            cs = cs.push(sample);
            assert(cs.drop_last() =~= cs0);
            assert(rays.len() == s as int + 1 && cs.len() == s as int + 1);
        }
        let ghost acc0 = acc;
        acc = acc.add(&sample);
        proof {
            assert(acc == add_spec(sum_colors(cs.drop_last()), cs.last()));
            assert(acc == sum_colors(cs));
            assert forall|k: int|
                0 <= k < s as int + 1 implies admitted_ray(
                *camera,
                px as int,
                py as int,
                x as int,
                y as int,
                #[trigger] rays[k],
            ) && admitted_radiance(mode, world.list@, rays[k], cs[k]) by {
                if k < s as int {
                    assert(rays[k] == rays.drop_last()[k] && cs[k] == cs.drop_last()[k]);
                } else {
                    assert(rays[k] == ray && cs[k] == sample);
                }
            }
        }
        s = s + 1;
    }
    let c = average(acc, samples);
    proof {
        assert(c == average_spec(sum_colors(cs), samples as int));
        assert(rays.len() == samples as int && cs.len() == samples as int);
        assert(admissible_pixel(
            mode,
            world.list@,
            *camera,
            px as int,
            py as int,
            x as int,
            y as int,
            samples as int,
            c,
        ));
    }
    c
}

/// The exact colour of a pixel under the deterministic shading models;
/// the sampled models give `None` here, since their pixels depend on the
/// random jitter.
pub open spec fn det_pixel_spec(
    mode: ShadeMode,
    spheres: Seq<Sphere>,
    px: int,
    py: int,
    x: int,
    y: int,
) -> Option<Vec3> {
    let u = frac_spec(px, x);
    let v = frac_spec(py, y);
    match mode {
        ShadeMode::UvPlain => Some(v3(u, v, 200_000)),
        ShadeMode::Gradient => Some(sky_color_spec(frame_ray_spec(u, v))),
        ShadeMode::RedSphere => Some(red_sphere_color_spec(frame_ray_spec(u, v))),
        ShadeMode::NormalSphere => Some(surface_normal_color_spec(frame_ray_spec(u, v))),
        ShadeMode::NormalScene => Some(normal_color_spec(spheres, frame_ray_spec(u, v), 0)),
        _ => None,
    }
}

/// The scene sequence a chunk is rendered against.
pub open spec fn world_seq(world: Option<&HitableList>) -> Seq<Sphere> {
    match world {
        Some(w) => w.list@,
        None => Seq::empty(),
    }
}

/// The byte a deterministic pixel's channel quantizes to.
pub open spec fn pixel_byte_spec(mode: ShadeMode, c: int) -> int {
    if mode_gamma(mode) {
        byte_gamma_spec(c)
    } else {
        byte_spec(c)
    }
}

proof fn lemma_rowmajor_lt(nx: int, a1: int, b1: int, a2: int, b2: int)
    requires
        0 <= b1 < nx,
        0 <= b2,
        a1 < a2 || (a1 == a2 && b1 < b2),
        0 <= a1,
    ensures
        a1 * nx + b1 < a2 * nx + b2,
{
    if a1 < a2 {
        assert(a1 * nx + nx <= a2 * nx) by (nonlinear_arith)
            requires
                a1 < a2,
                0 < nx,
        ;
    }
}

/// Writes one quantized pixel at `offset`; only the three colour bytes
/// change.
fn put_pixel(buffer: &mut Vec<u8>, offset: usize, c: Vec3, gamma: bool)
    requires
        offset + 4 <= old(buffer).len(),
    ensures
        final(buffer).len() == old(buffer).len(),
        final(buffer)@[offset as int] as int == (if gamma {
            byte_gamma_spec(c.x as int)
        } else {
            byte_spec(c.x as int)
        }),
        final(buffer)@[offset as int + 1] as int == (if gamma {
            byte_gamma_spec(c.y as int)
        } else {
            byte_spec(c.y as int)
        }),
        final(buffer)@[offset as int + 2] as int == (if gamma {
            byte_gamma_spec(c.z as int)
        } else {
            byte_spec(c.z as int)
        }),
        forall|idx: int|
            0 <= idx < old(buffer).len() && !(offset <= idx <= offset + 2) ==> final(buffer)@[idx]
                == old(buffer)@[idx],
{
    if gamma {
        buffer.set(offset, to_byte_gamma(c.x));
        buffer.set(offset + 1, to_byte_gamma(c.y));
        buffer.set(offset + 2, to_byte_gamma(c.z));
    } else {
        buffer.set(offset, to_byte(c.x));
        buffer.set(offset + 1, to_byte(c.y));
        buffer.set(offset + 2, to_byte(c.z));
    }
}

/// What a finished chunk promises: its geometry is unchanged, every
/// pixel of a deterministic model holds its exact quantized colour, and
/// the fourth byte of each pixel is untouched.
pub open spec fn chunk_rendered(mode: ShadeMode, pre: Chunk, post: Chunk, spheres: Seq<Sphere>) -> bool {
    &&& post.x == pre.x
    &&& post.y == pre.y
    &&& post.nx == pre.nx
    &&& post.ny == pre.ny
    &&& post.start_x == pre.start_x
    &&& post.start_y == pre.start_y
    &&& post.buffer.len() == pre.buffer.len()
    &&& forall|px: int, py: int|
        #![trigger chunk_offset(pre, px, py)]
        pre.start_x <= px < pre.start_x + pre.nx && pre.start_y <= py < pre.start_y + pre.ny
            ==> match det_pixel_spec(mode, spheres, px, py, pre.x as int, pre.y as int) {
            Some(c) => {
                let co = chunk_offset(pre, px, py);
                &&& post.buffer@[co] as int == pixel_byte_spec(mode, c.x as int)
                &&& post.buffer@[co + 1] as int == pixel_byte_spec(mode, c.y as int)
                &&& post.buffer@[co + 2] as int == pixel_byte_spec(mode, c.z as int)
            },
            None => true,
        }
    &&& forall|idx: int|
        0 <= idx < pre.buffer.len() && idx % 4 == 3 ==> post.buffer@[idx] == pre.buffer@[idx]
}

/// What the finished framebuffer shows at a sampled pixel: its colour
/// bytes quantize some admissible sampled colour.
pub open spec fn frame_sampled_pixel(
    mode: ShadeMode,
    spheres: Seq<Sphere>,
    cam: Camera,
    samples: int,
    buf: Seq<u8>,
    px: int,
    py: int,
    x: int,
    y: int,
) -> bool {
    exists|c: Vec3|
        {
            &&& #[trigger] admissible_pixel(mode, spheres, cam, px, py, x, y, samples, c)
            &&& buf[frame_offset(x, y, px, py)] as int == pixel_byte_spec(mode, c.x as int)
            &&& buf[frame_offset(x, y, px, py) + 1] as int == pixel_byte_spec(mode, c.y as int)
            &&& buf[frame_offset(x, y, px, py) + 2] as int == pixel_byte_spec(mode, c.z as int)
        }
}

/// What a finished frame promises of its sampled pixels.
pub open spec fn frame_sampled_shown(
    mode: ShadeMode,
    buf: Seq<u8>,
    spheres: Seq<Sphere>,
    cam: Camera,
    samples: int,
    x: int,
    y: int,
) -> bool {
    forall|px: int, py: int|
        0 <= px < x && 0 <= py < y && mode_sampled(mode) ==> #[trigger] frame_sampled_pixel(
            mode,
            spheres,
            cam,
            samples,
            buf,
            px,
            py,
            x,
            y,
        )
}

/// What the finished framebuffer shows at pixel `(px, py)`: under a
/// deterministic model, the exact quantized colour.
pub open spec fn frame_pixel_colors(
    buf: Seq<u8>,
    mode: ShadeMode,
    spheres: Seq<Sphere>,
    px: int,
    py: int,
    x: int,
    y: int,
) -> bool {
    let fo = frame_offset(x, y, px, py);
    match det_pixel_spec(mode, spheres, px, py, x, y) {
        Some(c) => {
            &&& buf[fo] as int == pixel_byte_spec(mode, c.x as int)
            &&& buf[fo + 1] as int == pixel_byte_spec(mode, c.y as int)
            &&& buf[fo + 2] as int == pixel_byte_spec(mode, c.z as int)
        },
        None => true,
    }
}

/// What a finished frame promises of its colour bytes: every pixel is
/// shown as `frame_pixel_colors` describes.  The fourth byte of a pixel
/// is the renderer's own affair: the tiled path zeroes it, the
/// whole-frame path leaves it untouched.
pub open spec fn frame_rendered(
    mode: ShadeMode,
    buf: Seq<u8>,
    spheres: Seq<Sphere>,
    x: int,
    y: int,
) -> bool {
    forall|px: int, py: int|
        #![trigger frame_offset(x, y, px, py)]
        0 <= px < x && 0 <= py < y ==> frame_pixel_colors(buf, mode, spheres, px, py, x, y)
}

/// What a sampled pixel of a finished chunk shows: its three colour
/// bytes quantize some admissible sampled colour.
pub open spec fn sampled_pixel_shown(
    mode: ShadeMode,
    spheres: Seq<Sphere>,
    cam: Camera,
    samples: int,
    pre: Chunk,
    buf: Seq<u8>,
    px: int,
    py: int,
) -> bool {
    exists|c: Vec3|
        {
            &&& #[trigger] admissible_pixel(
                mode,
                spheres,
                cam,
                px,
                py,
                pre.x as int,
                pre.y as int,
                samples,
                c,
            )
            &&& buf[chunk_offset(pre, px, py)] as int == pixel_byte_spec(mode, c.x as int)
            &&& buf[chunk_offset(pre, px, py) + 1] as int == pixel_byte_spec(mode, c.y as int)
            &&& buf[chunk_offset(pre, px, py) + 2] as int == pixel_byte_spec(mode, c.z as int)
        }
}

/// What a finished chunk promises of its sampled pixels: each one's
/// colour bytes quantize some admissible sampled colour.
pub open spec fn chunk_sampled_shown(
    mode: ShadeMode,
    pre: Chunk,
    post: Chunk,
    spheres: Seq<Sphere>,
    cam: Camera,
    samples: int,
) -> bool {
    forall|px: int, py: int|
        pre.start_x <= px < pre.start_x + pre.nx && pre.start_y <= py < pre.start_y + pre.ny
            && mode_sampled(mode) ==> #[trigger] sampled_pixel_shown(
            mode,
            spheres,
            cam,
            samples,
            pre,
            post.buffer@,
            px,
            py,
        )
}

/// What one finished pixel of a chunk shows: the exact quantized colour
/// under a deterministic model, and the quantization of some admissible
/// sampled colour under a sampled model.
pub open spec fn pixel_shown(
    mode: ShadeMode,
    spheres: Seq<Sphere>,
    cam: Camera,
    samples: int,
    pre: Chunk,
    buf: Seq<u8>,
    px: int,
    py: int,
) -> bool {
    match det_pixel_spec(mode, spheres, px, py, pre.x as int, pre.y as int) {
        Some(c) => {
            let co = chunk_offset(pre, px, py);
            &&& buf[co] as int == pixel_byte_spec(mode, c.x as int)
            &&& buf[co + 1] as int == pixel_byte_spec(mode, c.y as int)
            &&& buf[co + 2] as int == pixel_byte_spec(mode, c.z as int)
        },
        None => mode_sampled(mode) ==> sampled_pixel_shown(
            mode,
            spheres,
            cam,
            samples,
            pre,
            buf,
            px,
            py,
        ),
    }
}

/// Renders every pixel of the chunk's rectangle into its private buffer:
/// multi-sampled through the camera for the sampled models, and exactly
/// the deterministic pixel colour for the others.  The fourth byte of
/// each pixel is never touched.
#[verifier::rlimit(100)]
pub fn render_chunk(
    mode: ShadeMode,
    chunk: &mut Chunk,
    camera: Option<&Camera>,
    world: Option<&HitableList>,
    samples: u8,
    rng: &mut rand::rngs::ThreadRng,
)
    requires
        wf_chunk(*old(chunk)),
        mode_needs_world(mode) ==> world is Some,
        mode_needs_camera(mode) ==> camera is Some,
    ensures
        chunk_rendered(mode, *old(chunk), *final(chunk), world_seq(world)),
        chunk_sampled_shown(
            mode,
            *old(chunk),
            *final(chunk),
            world_seq(world),
            chunk_camera(mode, camera),
            samples as int,
        ),
{
    let x = chunk.x;
    let y = chunk.y;
    let nx = chunk.nx;
    let ny = chunk.ny;
    let start_x = chunk.start_x;
    let start_y = chunk.start_y;
    let default_camera = Camera::default();
    let ghost ccam = chunk_camera(mode, camera);
    let ghost spheres = world_seq(world);
    proof {
        if mode is Diffuse {
            assert(ccam == default_camera);
        }
    }
    let mut offset: usize = 0;
    let mut j: usize = start_y;
    while j < start_y + ny
        invariant
            wf_chunk(*old(chunk)),
            mode_needs_world(mode) ==> world is Some,
            mode_needs_camera(mode) ==> camera is Some,
            x == old(chunk).x && y == old(chunk).y && nx == old(chunk).nx && ny == old(chunk).ny,
            start_x == old(chunk).start_x && start_y == old(chunk).start_y,
            chunk.x == x && chunk.y == y && chunk.nx == nx && chunk.ny == ny,
            chunk.start_x == start_x && chunk.start_y == start_y,
            chunk.buffer.len() == old(chunk).buffer.len(),
            spheres == world_seq(world),
            start_y <= j <= start_y + ny,
            offset == ((j - start_y) * nx) * 4,
            ccam == chunk_camera(mode, camera),
            default_camera == default_camera_spec(),
            forall|px: int, py: int|
                #![trigger chunk_offset(*old(chunk), px, py)]
                start_x <= px < start_x + nx && start_y <= py < j ==> pixel_shown(
                    mode,
                    spheres,
                    ccam,
                    samples as int,
                    *old(chunk),
                    chunk.buffer@,
                    px,
                    py,
                ),
            forall|idx: int|
                0 <= idx < old(chunk).buffer.len() && idx % 4 == 3 ==> chunk.buffer@[idx] == old(
                    chunk,
                ).buffer@[idx],
        decreases start_y + ny - j,
    {
        let mut i: usize = start_x;
        while i < start_x + nx
            invariant
                wf_chunk(*old(chunk)),
                mode_needs_world(mode) ==> world is Some,
                mode_needs_camera(mode) ==> camera is Some,
                x == old(chunk).x && y == old(chunk).y && nx == old(chunk).nx && ny == old(
                    chunk,
                ).ny,
                start_x == old(chunk).start_x && start_y == old(chunk).start_y,
                chunk.x == x && chunk.y == y && chunk.nx == nx && chunk.ny == ny,
                chunk.start_x == start_x && chunk.start_y == start_y,
                chunk.buffer.len() == old(chunk).buffer.len(),
                spheres == world_seq(world),
                start_y <= j < start_y + ny,
                start_x <= i <= start_x + nx,
                offset == ((j - start_y) * nx + (i - start_x)) * 4,
                ccam == chunk_camera(mode, camera),
                default_camera == default_camera_spec(),
                forall|px: int, py: int|
                    #![trigger chunk_offset(*old(chunk), px, py)]
                    start_x <= px < start_x + nx && start_y <= py < start_y + ny && (py < j || (py
                        == j && px < i)) ==> pixel_shown(
                        mode,
                        spheres,
                        ccam,
                        samples as int,
                        *old(chunk),
                        chunk.buffer@,
                        px,
                        py,
                    ),
                forall|idx: int|
                    0 <= idx < old(chunk).buffer.len() && idx % 4 == 3 ==> chunk.buffer@[idx]
                        == old(chunk).buffer@[idx],
            decreases start_x + nx - i,
        {
            proof {
                assert(((j - start_y) as int * nx as int + (i - start_x)) * 4 + 4 <= nx as int
                    * ny as int * 4) by (nonlinear_arith)
                    requires
                        start_y <= j,
                        j - start_y < ny,
                        start_x <= i,
                        i - start_x < nx,
                        0 < nx,
                ;
            }
            let color: Vec3 = match mode {
                ShadeMode::UvPlain => Vec3::new(frac(i, x), frac(j, y), 200_000),
                ShadeMode::Gradient => sky_color(&frame_ray(frac(i, x), frac(j, y))),
                ShadeMode::RedSphere => red_sphere_color(&frame_ray(frac(i, x), frac(j, y))),
                ShadeMode::NormalSphere => surface_normal_color(
                    &frame_ray(frac(i, x), frac(j, y)),
                ),
                ShadeMode::NormalScene => {
                    match world {
                        Some(w) => color_normal(&frame_ray(frac(i, x), frac(j, y)), w, 0),
                        None => {
                            proof {
                                assert(false);
                            }
                            Vec3::new(0, 0, 0)
                        },
                    }
                },
                ShadeMode::SampledNormal => {
                    match (world, camera) {
                        (Some(w), Some(cam)) => shade_pixel(
                            mode,
                            w,
                            cam,
                            i,
                            j,
                            x,
                            y,
                            samples,
                            rng,
                        ),
                        _ => {
                            proof {
                                assert(false);
                            }
                            Vec3::new(0, 0, 0)
                        },
                    }
                },
                ShadeMode::Diffuse => {
                    match world {
                        Some(w) => shade_pixel(
                            mode,
                            w,
                            &default_camera,
                            i,
                            j,
                            x,
                            y,
                            samples,
                            rng,
                        ),
                        None => {
                            proof {
                                assert(false);
                            }
                            Vec3::new(0, 0, 0)
                        },
                    }
                },
                ShadeMode::Full => {
                    match (world, camera) {
                        (Some(w), Some(cam)) => shade_pixel(
                            mode,
                            w,
                            cam,
                            i,
                            j,
                            x,
                            y,
                            samples,
                            rng,
                        ),
                        _ => {
                            proof {
                                assert(false);
                            }
                            Vec3::new(0, 0, 0)
                        },
                    }
                },
            };
            proof {
                if mode_sampled(mode) {
                    assert(admissible_pixel(
                        mode,
                        spheres,
                        ccam,
                        i as int,
                        j as int,
                        x as int,
                        y as int,
                        samples as int,
                        color,
                    ));
                }
            }
            let ghost old_buf = chunk.buffer@;
            put_pixel(&mut chunk.buffer, offset, color, mode_gamma_exec(mode));
            proof {
                lemma_pixel_written(
                    *old(chunk),
                    chunk.buffer@,
                    old_buf,
                    mode,
                    spheres,
                    i as int,
                    j as int,
                    offset as int,
                    color,
                );
                assert forall|px: int, py: int|
                    #![trigger chunk_offset(*old(chunk), px, py)]
                    start_x <= px < start_x + nx && start_y <= py < start_y + ny && (py < j || (py
                        == j && px < i + 1)) implies pixel_shown(
                    mode,
                    spheres,
                    ccam,
                    samples as int,
                    *old(chunk),
                    chunk.buffer@,
                    px,
                    py,
                ) by {
                    let co = chunk_offset(*old(chunk), px, py);
                    if py == j && px == i {
                        assert(co == offset as int);
                        if mode_sampled(mode) {
                            assert(det_pixel_spec(mode, spheres, px, py, x as int, y as int)
                                is None);
                            assert(admissible_pixel(
                                mode,
                                spheres,
                                ccam,
                                px,
                                py,
                                x as int,
                                y as int,
                                samples as int,
                                color,
                            ) && chunk.buffer@[co] as int == pixel_byte_spec(mode, color.x as int)
                                && chunk.buffer@[co + 1] as int == pixel_byte_spec(
                                mode,
                                color.y as int,
                            ) && chunk.buffer@[co + 2] as int == pixel_byte_spec(
                                mode,
                                color.z as int,
                            ));
                        }
                    } else {
                        assert(pixel_shown(
                            mode,
                            spheres,
                            ccam,
                            samples as int,
                            *old(chunk),
                            old_buf,
                            px,
                            py,
                        ));
                        assert(chunk.buffer@[co + 0] == old_buf[co + 0] && chunk.buffer@[co + 1]
                            == old_buf[co + 1] && chunk.buffer@[co + 2] == old_buf[co + 2]);
                        if det_pixel_spec(mode, spheres, px, py, x as int, y as int) is None
                            && mode_sampled(mode) {
                            let cw = choose|c: Vec3|
                                {
                                    &&& #[trigger] admissible_pixel(
                                        mode,
                                        spheres,
                                        ccam,
                                        px,
                                        py,
                                        x as int,
                                        y as int,
                                        samples as int,
                                        c,
                                    )
                                    &&& old_buf[co] as int == pixel_byte_spec(mode, c.x as int)
                                    &&& old_buf[co + 1] as int == pixel_byte_spec(mode, c.y as int)
                                    &&& old_buf[co + 2] as int == pixel_byte_spec(mode, c.z as int)
                                };
                            assert(admissible_pixel(
                                mode,
                                spheres,
                                ccam,
                                px,
                                py,
                                x as int,
                                y as int,
                                samples as int,
                                cw,
                            ) && chunk.buffer@[co] as int == pixel_byte_spec(mode, cw.x as int)
                                && chunk.buffer@[co + 1] as int == pixel_byte_spec(
                                mode,
                                cw.y as int,
                            ) && chunk.buffer@[co + 2] as int == pixel_byte_spec(
                                mode,
                                cw.z as int,
                            ));
                        }
                    }
                }
            }
            offset = offset + 4;
            i = i + 1;
        }
        proof {
            assert(((j + 1 - start_y) as int * nx as int) == ((j - start_y) as int * nx as int
                + nx as int)) by (nonlinear_arith);
        }
        j = j + 1;
    }
    proof {
        assert forall|px: int, py: int|
            #![trigger chunk_offset(*old(chunk), px, py)]
            start_x <= px < start_x + nx && start_y <= py < start_y + ny implies ({
            &&& match det_pixel_spec(mode, spheres, px, py, x as int, y as int) {
                Some(c) => {
                    let co = chunk_offset(*old(chunk), px, py);
                    &&& chunk.buffer@[co] as int == pixel_byte_spec(mode, c.x as int)
                    &&& chunk.buffer@[co + 1] as int == pixel_byte_spec(mode, c.y as int)
                    &&& chunk.buffer@[co + 2] as int == pixel_byte_spec(mode, c.z as int)
                },
                None => true,
            }
            &&& (mode_sampled(mode) ==> sampled_pixel_shown(
                mode,
                spheres,
                ccam,
                samples as int,
                *old(chunk),
                chunk.buffer@,
                px,
                py,
            ))
        }) by {
            let co = chunk_offset(*old(chunk), px, py);
            assert(pixel_shown(
                mode,
                spheres,
                ccam,
                samples as int,
                *old(chunk),
                chunk.buffer@,
                px,
                py,
            ));
            if mode_sampled(mode) {
                assert(det_pixel_spec(mode, spheres, px, py, x as int, y as int) is None);
            }
        }
        assert forall|px: int, py: int|
            old(chunk).start_x <= px < old(chunk).start_x + old(chunk).nx && old(chunk).start_y
                <= py < old(chunk).start_y + old(chunk).ny && mode_sampled(mode)
                implies #[trigger] sampled_pixel_shown(
            mode,
            spheres,
            ccam,
            samples as int,
            *old(chunk),
            chunk.buffer@,
            px,
            py,
        ) by {
            let co = chunk_offset(*old(chunk), px, py);
            assert(pixel_shown(
                mode,
                spheres,
                ccam,
                samples as int,
                *old(chunk),
                chunk.buffer@,
                px,
                py,
            ));
            assert(det_pixel_spec(mode, spheres, px, py, x as int, y as int) is None);
        }
        assert(chunk_sampled_shown(mode, *old(chunk), *chunk, spheres, ccam, samples as int));
    }
}

/// A fresh buffer of `n` zero bytes.
fn zero_buffer(n: usize) -> (b: Vec<u8>)
    ensures
        b.len() == n,
        forall|idx: int| 0 <= idx < n ==> b@[idx] == 0u8,
{
    let mut b: Vec<u8> = Vec::new();
    while b.len() < n
        invariant
            b.len() <= n,
            forall|idx: int| 0 <= idx < b.len() ==> b@[idx] == 0u8,
        decreases n - b.len(),
    {
        b.push(0);
    }
    b
}

/// A chunk buffer for a whole-frame render: the fourth byte of every
/// pixel is copied from the caller's framebuffer (flipped into the
/// chunk's bottom-up order), so that the blit hands it back unchanged;
/// the colour bytes start at zero.
fn frame_alpha_buffer(buf: &Vec<u8>, w: usize, h: usize) -> (b: Vec<u8>)
    requires
        buf.len() == w * h * 4,
        1 <= w <= MAX_DIM,
        1 <= h <= MAX_DIM,
    ensures
        b.len() == w * h * 4,
        forall|px: int, py: int|
            #![trigger frame_offset(w as int, h as int, px, py)]
            0 <= px < w && 0 <= py < h ==> b@[(py * w + px) * 4 + 3] == buf@[frame_offset(
                w as int,
                h as int,
                px,
                py,
            ) + 3],
{
    let mut b: Vec<u8> = Vec::new();
    let mut py: usize = 0;
    while py < h
        invariant
            buf.len() == w * h * 4,
            1 <= w <= MAX_DIM,
            1 <= h <= MAX_DIM,
            py <= h,
            b.len() == py * w * 4,
            forall|qx: int, qy: int|
                #![trigger frame_offset(w as int, h as int, qx, qy)]
                0 <= qx < w && 0 <= qy < py ==> b@[(qy * w + qx) * 4 + 3] == buf@[frame_offset(
                    w as int,
                    h as int,
                    qx,
                    qy,
                ) + 3],
        decreases h - py,
    {
        let mut px: usize = 0;
        while px < w
            invariant
                buf.len() == w * h * 4,
                1 <= w <= MAX_DIM,
                1 <= h <= MAX_DIM,
                py < h,
                px <= w,
                b.len() == py * w * 4 + px * 4,
                forall|qx: int, qy: int|
                    #![trigger frame_offset(w as int, h as int, qx, qy)]
                    (0 <= qx < w && 0 <= qy < py) || (0 <= qx < px && qy == py) ==> b@[(qy * w + qx)
                        * 4 + 3] == buf@[frame_offset(w as int, h as int, qx, qy) + 3],
            decreases w - px,
        {
            proof {
                assert(((h - py - 1) * w + px) * 4 + 3 < w * h * 4 && py * w * 4 + px * 4 + 4 <= w
                    * h * 4 && (py * w + px) * 4 == py * w * 4 + px * 4) by (nonlinear_arith)
                    requires
                        0 <= px < w,
                        0 <= py < h,
                ;
            }
            let src = ((h - py - 1) * w + px) * 4 + 3;
            let alpha = buf[src];
            let ghost b0 = b@;
            b.push(0);
            b.push(0);
            b.push(0);
            b.push(alpha);
            proof {
                assert(frame_offset(w as int, h as int, px as int, py as int) == ((h - py - 1) * w
                    + px) * 4);
                assert(b@[(py * w + px) * 4 + 3] == buf@[frame_offset(
                    w as int,
                    h as int,
                    px as int,
                    py as int,
                ) + 3]);
                assert forall|qx: int, qy: int|
                    (0 <= qx < w && 0 <= qy < py as int) || (0 <= qx < px as int && qy
                        == py as int) implies b@[(qy * w + qx) * 4 + 3] == buf@[#[trigger] frame_offset(
                    w as int,
                    h as int,
                    qx,
                    qy,
                ) + 3] by {
                    assert(0 <= (qy * w + qx) * 4 + 3 < py as int * w * 4 + px as int * 4)
                        by (nonlinear_arith)
                        requires
                            (0 <= qx < w && 0 <= qy < py as int) || (0 <= qx < px as int && qy
                                == py as int),
                            0 < w,
                    ;
                    assert(b@[(qy * w + qx) * 4 + 3] == b0[(qy * w + qx) * 4 + 3]);
                }
            }
            px = px + 1;
        }
        proof {
            assert((py + 1) * w * 4 == py * w * 4 + w * 4) by (nonlinear_arith);
        }
        py = py + 1;
    }
    proof {
        assert(h * w * 4 == w * h * 4) by (nonlinear_arith);
    }
    b
}

/// The tiled renderer's per-pixel promise: the colour bytes as
/// `frame_pixel_colors` describes, and a zero fourth byte, since each
/// composited chunk buffer starts zeroed.
pub open spec fn frame_pixel_done(
    buf: Seq<u8>,
    mode: ShadeMode,
    spheres: Seq<Sphere>,
    px: int,
    py: int,
    x: int,
    y: int,
) -> bool {
    &&& frame_pixel_colors(buf, mode, spheres, px, py, x, y)
    &&& buf[frame_offset(x, y, px, py) + 3] == 0u8
}

/// Renders the whole image tile by tile: the image is cut into the fixed
/// grid of equal chunks, each chunk is rendered into its own buffer and
/// composited into the framebuffer at its offsets.  The image extents
/// must be multiples of the partition counts.  Under a deterministic
/// shading model every pixel of the result is pinned exactly.
#[verifier::rlimit(100)]
pub fn render(
    mode: ShadeMode,
    buf: &mut Vec<u8>,
    width: usize,
    height: usize,
    samples: u8,
    camera: Option<&Camera>,
    world: Option<&HitableList>,
    rng: &mut rand::rngs::ThreadRng,
)
    requires
        old(buf).len() == width * height * 4,
        8 <= width <= MAX_DIM,
        8 <= height <= MAX_DIM,
        width % VERTICAL_PARTITION == 0,
        height % HORIZONTAL_PARTITION == 0,
        mode_needs_world(mode) ==> world is Some,
        mode_needs_camera(mode) ==> camera is Some,
    ensures
        final(buf).len() == old(buf).len(),
        frame_rendered(mode, final(buf)@, world_seq(world), width as int, height as int),
        frame_sampled_shown(
            mode,
            final(buf)@,
            world_seq(world),
            chunk_camera(mode, camera),
            samples as int,
            width as int,
            height as int,
        ),
        forall|px: int, py: int|
            #![trigger frame_offset(width as int, height as int, px, py)]
            0 <= px < width && 0 <= py < height ==> final(buf)@[frame_offset(
                width as int,
                height as int,
                px,
                py,
            ) + 3] == 0u8,
{
    let ghost ccam = chunk_camera(mode, camera);
    let nx = width / VERTICAL_PARTITION;
    let ny = height / HORIZONTAL_PARTITION;
    proof {
        vstd::arithmetic::div_mod::lemma_fundamental_div_mod(width as int, 8);
        vstd::arithmetic::div_mod::lemma_fundamental_div_mod(height as int, 8);
        assert(width as int == 8 * (nx as int) && height as int == 8 * (ny as int));
    }
    let ghost spheres = world_seq(world);
    proof {
        assert(1 <= nx as int <= 2048 && 1 <= ny as int <= 2048) by (nonlinear_arith)
            requires
                width as int == 8 * (nx as int),
                height as int == 8 * (ny as int),
                8 <= width <= 16384,
                8 <= height <= 16384,
        ;
    }
    let mut j: usize = 0;
    while j < VERTICAL_PARTITION
        invariant
            buf.len() == width * height * 4,
            j <= VERTICAL_PARTITION,
            nx == width / 8 && ny == height / 8,
            width as int == 8 * (nx as int) && height as int == 8 * (ny as int),
            8 <= width <= MAX_DIM && 8 <= height <= MAX_DIM,
            1 <= nx <= 2048 && 1 <= ny <= 2048,
            mode_needs_world(mode) ==> world is Some,
            mode_needs_camera(mode) ==> camera is Some,
            spheres == world_seq(world),
            ccam == chunk_camera(mode, camera),
            forall|px: int, py: int|
                #![trigger frame_offset(width as int, height as int, px, py)]
                0 <= px < width && 0 <= py < height && py / (ny as int) < j ==> frame_pixel_done(
                    buf@,
                    mode,
                    spheres,
                    px,
                    py,
                    width as int,
                    height as int,
                ),
            forall|px: int, py: int|
                0 <= px < width && 0 <= py < height && py / (ny as int) < j && mode_sampled(mode)
                    ==> #[trigger] frame_sampled_pixel(
                    mode,
                    spheres,
                    ccam,
                    samples as int,
                    buf@,
                    px,
                    py,
                    width as int,
                    height as int,
                ),
        decreases VERTICAL_PARTITION - j,
    {
        proof {
            assert(j as int * ny as int <= 8 * 2048) by (nonlinear_arith)
                requires
                    j <= 8,
                    ny <= 2048,
            ;
        }
        let start_y = j * ny;
        let mut i: usize = 0;
        while i < HORIZONTAL_PARTITION
            invariant
                buf.len() == width * height * 4,
                j < VERTICAL_PARTITION,
                i <= HORIZONTAL_PARTITION,
                start_y == j * ny,
                nx == width / 8 && ny == height / 8,
                width as int == 8 * (nx as int) && height as int == 8 * (ny as int),
                8 <= width <= MAX_DIM && 8 <= height <= MAX_DIM,
                1 <= nx <= 2048 && 1 <= ny <= 2048,
                mode_needs_world(mode) ==> world is Some,
                mode_needs_camera(mode) ==> camera is Some,
                spheres == world_seq(world),
                ccam == chunk_camera(mode, camera),
                forall|px: int, py: int|
                    #![trigger frame_offset(width as int, height as int, px, py)]
                    0 <= px < width && 0 <= py < height && (py / (ny as int) < j || (py / (
                    ny as int) == j && px / (nx as int) < i)) ==> frame_pixel_done(
                        buf@,
                        mode,
                        spheres,
                        px,
                        py,
                        width as int,
                        height as int,
                    ),
                forall|px: int, py: int|
                    0 <= px < width && 0 <= py < height && (py / (ny as int) < j || (py / (
                    ny as int) == j && px / (nx as int) < i)) && mode_sampled(mode)
                        ==> #[trigger] frame_sampled_pixel(
                        mode,
                        spheres,
                        ccam,
                        samples as int,
                        buf@,
                        px,
                        py,
                        width as int,
                        height as int,
                    ),
            decreases HORIZONTAL_PARTITION - i,
        {
            proof {
                assert(i as int * nx as int <= 8 * 2048 && nx as int * (ny as int * 4) == nx as int
                    * ny as int * 4 && nx as int * ny as int * 4 <= 2048 * 2048 * 4)
                    by (nonlinear_arith)
                    requires
                        i <= 8,
                        nx <= 2048,
                        ny <= 2048,
                ;
            }
            let start_x = i * nx;
            proof {
                assert(start_x as int + nx as int <= width as int && start_y as int + ny as int
                    <= height as int && nx as int * ny as int * 4 < 0xffff_ffff)
                    by (nonlinear_arith)
                    requires
                        start_x == i * nx,
                        start_y == j * ny,
                        i < 8,
                        j < 8,
                        width as int == 8 * (nx as int),
                        height as int == 8 * (ny as int),
                        width <= MAX_DIM,
                        height <= MAX_DIM,
                        nx as int <= width as int,
                        ny as int <= height as int,
                ;
            }
            let buffer = zero_buffer(nx * (ny * 4));
            let mut chunk = Chunk { x: width, y: height, nx, ny, start_x, start_y, buffer };
            let ghost pre_chunk = chunk;
            render_chunk(mode, &mut chunk, camera, world, samples, rng);
            proof {
                assert forall|px: int, py: int|
                    #![trigger chunk_offset(chunk, px, py)]
                    chunk.start_x <= px < chunk.start_x + chunk.nx && chunk.start_y <= py
                        < chunk.start_y + chunk.ny implies match det_pixel_spec(
                    mode,
                    spheres,
                    px,
                    py,
                    width as int,
                    height as int,
                ) {
                    Some(c) => {
                        let co = chunk_offset(chunk, px, py);
                        &&& chunk.buffer@[co] as int == pixel_byte_spec(mode, c.x as int)
                        &&& chunk.buffer@[co + 1] as int == pixel_byte_spec(mode, c.y as int)
                        &&& chunk.buffer@[co + 2] as int == pixel_byte_spec(mode, c.z as int)
                    },
                    None => true,
                } by {
                    assert(chunk_offset(chunk, px, py) == chunk_offset(pre_chunk, px, py));
                }
                assert forall|idx: int|
                    0 <= idx < chunk.buffer.len() && idx % 4 == 3 implies chunk.buffer@[idx]
                    == 0u8 by {
                    assert(pre_chunk.buffer@[idx] == 0u8);
                }
            }
            let ghost pre_blit = buf@;
            blit_chunk(buf, &chunk);
            proof {
                lemma_tile_done(
                    buf@,
                    pre_blit,
                    chunk,
                    pre_chunk,
                    mode,
                    spheres,
                    ccam,
                    samples as int,
                    width as int,
                    height as int,
                    nx as int,
                    ny as int,
                    i as int,
                    j as int,
                );
            }
            i = i + 1;
        }
        proof {
            assert forall|px: int, py: int|
                #![trigger frame_offset(width as int, height as int, px, py)]
                0 <= px < width && 0 <= py < height && py / (ny as int) < j + 1 implies
                frame_pixel_done(buf@, mode, spheres, px, py, width as int, height as int) by {
                lemma_chunk_partition(
                    width as int,
                    height as int,
                    8,
                    8,
                    nx as int,
                    ny as int,
                    px,
                    py,
                );
            }
            assert forall|px: int, py: int|
                0 <= px < width && 0 <= py < height && py / (ny as int) < j + 1 && mode_sampled(
                    mode,
                ) implies #[trigger] frame_sampled_pixel(
                mode,
                spheres,
                ccam,
                samples as int,
                buf@,
                px,
                py,
                width as int,
                height as int,
            ) by {
                lemma_chunk_partition(
                    width as int,
                    height as int,
                    8,
                    8,
                    nx as int,
                    ny as int,
                    px,
                    py,
                );
            }
        }
        j = j + 1;
    }
    proof {
        assert forall|px: int, py: int|
            0 <= px < width && 0 <= py < height implies frame_pixel_done(
            buf@,
            mode,
            spheres,
            px,
            py,
            width as int,
            height as int,
        ) by {
            lemma_chunk_partition(width as int, height as int, 8, 8, nx as int, ny as int, px, py);
            assert(py / (ny as int) < 8);
            assert(frame_offset(width as int, height as int, px, py) == frame_offset(
                width as int,
                height as int,
                px,
                py,
            ));
        }
        assert forall|px: int, py: int|
            0 <= px < width && 0 <= py < height implies frame_pixel_colors(
            buf@,
            mode,
            spheres,
            px,
            py,
            width as int,
            height as int,
        ) && buf@[#[trigger] frame_offset(width as int, height as int, px, py) + 3] == 0u8 by {
            assert(frame_pixel_done(buf@, mode, spheres, px, py, width as int, height as int));
        }
        assert forall|px: int, py: int|
            0 <= px < width && 0 <= py < height && mode_sampled(mode)
                implies #[trigger] frame_sampled_pixel(
            mode,
            spheres,
            ccam,
            samples as int,
            buf@,
            px,
            py,
            width as int,
            height as int,
        ) by {
            lemma_chunk_partition(width as int, height as int, 8, 8, nx as int, ny as int, px, py);
            assert(py / (ny as int) < 8);
        }
        assert(frame_sampled_shown(
            mode,
            buf@,
            spheres,
            ccam,
            samples as int,
            width as int,
            height as int,
        ));
    }
}

/// After one chunk is composited, its pixels show their final bytes and
/// every pixel of an earlier chunk is untouched.
proof fn lemma_tile_done(
    now: Seq<u8>,
    before: Seq<u8>,
    chunk: Chunk,
    pre: Chunk,
    mode: ShadeMode,
    spheres: Seq<Sphere>,
    cam: Camera,
    samples: int,
    width: int,
    height: int,
    nx: int,
    ny: int,
    i: int,
    j: int,
)
    requires
        wf_chunk(chunk),
        pre.x == chunk.x && pre.y == chunk.y && pre.nx == chunk.nx && pre.ny == chunk.ny,
        pre.start_x == chunk.start_x && pre.start_y == chunk.start_y,
        chunk_sampled_shown(mode, pre, chunk, spheres, cam, samples),
        chunk.x == width,
        chunk.y == height,
        chunk.nx == nx,
        chunk.ny == ny,
        chunk.start_x == i * nx,
        chunk.start_y == j * ny,
        0 <= i < 8,
        0 <= j < 8,
        width == 8 * nx,
        height == 8 * ny,
        now.len() == before.len(),
        before.len() == width * height * 4,
        // what render_chunk left in the chunk's buffer
        forall|px: int, py: int|
            #![trigger chunk_offset(chunk, px, py)]
            chunk.start_x <= px < chunk.start_x + nx && chunk.start_y <= py < chunk.start_y + ny
                ==> match det_pixel_spec(mode, spheres, px, py, width, height) {
                Some(c) => {
                    let co = chunk_offset(chunk, px, py);
                    &&& chunk.buffer@[co] as int == pixel_byte_spec(mode, c.x as int)
                    &&& chunk.buffer@[co + 1] as int == pixel_byte_spec(mode, c.y as int)
                    &&& chunk.buffer@[co + 2] as int == pixel_byte_spec(mode, c.z as int)
                },
                None => true,
            },
        forall|idx: int| 0 <= idx < chunk.buffer.len() && idx % 4 == 3 ==> chunk.buffer@[idx]
            == 0u8,
        // what the blit guaranteed
        forall|px: int, py: int, k: int|
            chunk.start_x <= px < chunk.start_x + nx && chunk.start_y <= py < chunk.start_y + ny
                && 0 <= k < 4 ==> now[frame_offset(width, height, px, py) + k] == chunk.buffer@[
                #[trigger] (chunk_offset(chunk, px, py) + k)],
        forall|idx: int|
            0 <= idx < before.len() && !in_blit_region(chunk, idx) ==> now[idx] == before[idx],
        // what earlier chunks had established
        forall|px: int, py: int|
            #![trigger frame_offset(width, height, px, py)]
            0 <= px < width && 0 <= py < height && (py / ny < j || (py / ny == j && px / nx < i))
                ==> frame_pixel_done(before, mode, spheres, px, py, width, height),
        forall|px: int, py: int|
            0 <= px < width && 0 <= py < height && (py / ny < j || (py / ny == j && px / nx < i))
                && mode_sampled(mode) ==> #[trigger] frame_sampled_pixel(
                mode,
                spheres,
                cam,
                samples,
                before,
                px,
                py,
                width,
                height,
            ),
    ensures
        forall|px: int, py: int|
            #![trigger frame_offset(width, height, px, py)]
            0 <= px < width && 0 <= py < height && (py / ny < j || (py / ny == j && px / nx < i
                + 1)) ==> frame_pixel_done(now, mode, spheres, px, py, width, height),
        forall|px: int, py: int|
            0 <= px < width && 0 <= py < height && (py / ny < j || (py / ny == j && px / nx < i
                + 1)) && mode_sampled(mode) ==> #[trigger] frame_sampled_pixel(
                mode,
                spheres,
                cam,
                samples,
                now,
                px,
                py,
                width,
                height,
            ),
{
    assert forall|px: int, py: int|
        #![trigger frame_offset(width, height, px, py)]
        0 <= px < width && 0 <= py < height && (py / ny < j || (py / ny == j && px / nx < i + 1))
        implies frame_pixel_done(now, mode, spheres, px, py, width, height) && (mode_sampled(mode)
        ==> frame_sampled_pixel(mode, spheres, cam, samples, now, px, py, width, height)) by {
        lemma_chunk_partition(width, height, 8, 8, nx, ny, px, py);
        let fo = #[trigger] frame_offset(width, height, px, py);
        assert(0 <= fo && fo + 3 < width * height * 4) by (nonlinear_arith)
            requires
                fo == ((height - py - 1) * width + px) * 4,
                0 <= px < width,
                0 <= py < height,
        ;
        let in_rect = chunk.start_x <= px < chunk.start_x + nx && chunk.start_y <= py
            < chunk.start_y + ny;
        if in_rect {
            assert(now[fo + 0] == chunk.buffer@[chunk_offset(chunk, px, py) + 0]);
            assert(now[fo + 1] == chunk.buffer@[chunk_offset(chunk, px, py) + 1]);
            assert(now[fo + 2] == chunk.buffer@[chunk_offset(chunk, px, py) + 2]);
            assert(now[fo + 3] == chunk.buffer@[chunk_offset(chunk, px, py) + 3]);
            if mode_sampled(mode) {
                assert(sampled_pixel_shown(
                    mode,
                    spheres,
                    cam,
                    samples,
                    pre,
                    chunk.buffer@,
                    px,
                    py,
                ));
                assert(chunk_offset(pre, px, py) == chunk_offset(chunk, px, py));
                let cw = choose|c: Vec3|
                    {
                        &&& #[trigger] admissible_pixel(
                            mode,
                            spheres,
                            cam,
                            px,
                            py,
                            pre.x as int,
                            pre.y as int,
                            samples,
                            c,
                        )
                        &&& chunk.buffer@[chunk_offset(pre, px, py)] as int == pixel_byte_spec(
                            mode,
                            c.x as int,
                        )
                        &&& chunk.buffer@[chunk_offset(pre, px, py) + 1] as int == pixel_byte_spec(
                            mode,
                            c.y as int,
                        )
                        &&& chunk.buffer@[chunk_offset(pre, px, py) + 2] as int == pixel_byte_spec(
                            mode,
                            c.z as int,
                        )
                    };
                assert(admissible_pixel(mode, spheres, cam, px, py, width, height, samples, cw)
                    && now[fo] as int == pixel_byte_spec(mode, cw.x as int) && now[fo + 1] as int
                    == pixel_byte_spec(mode, cw.y as int) && now[fo + 2] as int == pixel_byte_spec(
                    mode,
                    cw.z as int,
                ));
            }
            let co = chunk_offset(chunk, px, py);
            assert(0 <= co && co + 3 < chunk.buffer.len() && (co + 3) % 4 == 3) by {
                let m = (py - chunk.start_y) * nx + (px - chunk.start_x);
                assert(co == m * 4);
                assert(0 <= m && m < nx * ny) by (nonlinear_arith)
                    requires
                        m == (py - chunk.start_y) * nx + (px - chunk.start_x),
                        0 <= py - chunk.start_y < ny,
                        0 <= px - chunk.start_x < nx,
                        nx > 0,
                ;
                vstd::arithmetic::div_mod::lemma_fundamental_div_mod_converse(co + 3, 4, m, 3);
            }
        } else {
            // the pixel belongs to another chunk: it was done before and
            // the blit left it alone
            assert(py / ny < j || (py / ny == j && px / nx < i));
            assert forall|k: int| 0 <= k < 4 implies now[#[trigger] (fo + k)] == before[fo + k] by {
                lemma_region_decode(chunk, px, py, k);
                assert(!in_blit_region(chunk, fo + k)) by {
                    if in_blit_region(chunk, fo + k) {
                        assert(chunk.start_x <= px < chunk.start_x + nx && chunk.start_y <= py
                            < chunk.start_y + ny);
                    }
                }
            }
            assert(now[fo + 0] == before[fo + 0] && now[fo + 1] == before[fo + 1] && now[fo + 2]
                == before[fo + 2] && now[fo + 3] == before[fo + 3]);
            if mode_sampled(mode) {
                assert(frame_sampled_pixel(
                    mode,
                    spheres,
                    cam,
                    samples,
                    before,
                    px,
                    py,
                    width,
                    height,
                ));
                let cw = choose|c: Vec3|
                    {
                        &&& #[trigger] admissible_pixel(
                            mode,
                            spheres,
                            cam,
                            px,
                            py,
                            width,
                            height,
                            samples,
                            c,
                        )
                        &&& before[frame_offset(width, height, px, py)] as int == pixel_byte_spec(
                            mode,
                            c.x as int,
                        )
                        &&& before[frame_offset(width, height, px, py) + 1] as int
                            == pixel_byte_spec(mode, c.y as int)
                        &&& before[frame_offset(width, height, px, py) + 2] as int
                            == pixel_byte_spec(mode, c.z as int)
                    };
                assert(admissible_pixel(mode, spheres, cam, px, py, width, height, samples, cw)
                    && now[fo] as int == pixel_byte_spec(mode, cw.x as int) && now[fo + 1] as int
                    == pixel_byte_spec(mode, cw.y as int) && now[fo + 2] as int == pixel_byte_spec(
                    mode,
                    cw.z as int,
                ));
            }
        }
    }
    assert forall|px: int, py: int|
        0 <= px < width && 0 <= py < height && (py / ny < j || (py / ny == j && px / nx < i + 1))
            && mode_sampled(mode) implies #[trigger] frame_sampled_pixel(
        mode,
        spheres,
        cam,
        samples,
        now,
        px,
        py,
        width,
        height,
    ) by {
        let fo = frame_offset(width, height, px, py);
    }
}

/// Renders the whole image as one rectangle, without tiling; any extents
/// are accepted.  Under a deterministic shading model every pixel of the
/// result is pinned exactly; the fourth byte of every pixel is left
/// unchanged.
#[verifier::rlimit(100)]
pub fn render_frame(
    mode: ShadeMode,
    buf: &mut Vec<u8>,
    width: usize,
    height: usize,
    samples: u8,
    camera: Option<&Camera>,
    world: Option<&HitableList>,
    rng: &mut rand::rngs::ThreadRng,
)
    requires
        old(buf).len() == width * height * 4,
        1 <= width <= MAX_DIM,
        1 <= height <= MAX_DIM,
        mode_needs_world(mode) ==> world is Some,
        mode_needs_camera(mode) ==> camera is Some,
    ensures
        final(buf).len() == old(buf).len(),
        frame_rendered(mode, final(buf)@, world_seq(world), width as int, height as int),
        frame_sampled_shown(
            mode,
            final(buf)@,
            world_seq(world),
            chunk_camera(mode, camera),
            samples as int,
            width as int,
            height as int,
        ),
        forall|px: int, py: int|
            #![trigger frame_offset(width as int, height as int, px, py)]
            0 <= px < width && 0 <= py < height ==> final(buf)@[frame_offset(
                width as int,
                height as int,
                px,
                py,
            ) + 3] == old(buf)@[frame_offset(width as int, height as int, px, py) + 3],
{
    proof {
        assert(width as int * (height as int * 4) < 0xffff_ffff && width as int * height as int
            * 4 == width as int * (height as int * 4)) by (nonlinear_arith)
            requires
                1 <= width <= MAX_DIM,
                1 <= height <= MAX_DIM,
        ;
    }
    let ghost ccam = chunk_camera(mode, camera);
    let buffer = frame_alpha_buffer(buf, width, height);
    let mut chunk = Chunk {
        x: width,
        y: height,
        nx: width,
        ny: height,
        start_x: 0,
        start_y: 0,
        buffer,
    };
    let ghost pre_chunk = chunk;
    render_chunk(mode, &mut chunk, camera, world, samples, rng);
    blit_chunk(buf, &chunk);
    proof {
        let spheres = world_seq(world);
        let w = width as int;
        let h = height as int;
        assert forall|px: int, py: int|
            0 <= px < width && 0 <= py < height implies frame_pixel_colors(
            buf@,
            mode,
            spheres,
            px,
            py,
            w,
            h,
        ) && buf@[#[trigger] frame_offset(w, h, px, py) + 3] == old(buf)@[frame_offset(
            w,
            h,
            px,
            py,
        ) + 3] && (mode_sampled(mode) ==> frame_sampled_pixel(
            mode,
            spheres,
            ccam,
            samples as int,
            buf@,
            px,
            py,
            w,
            h,
        )) by {
            let fo = frame_offset(w, h, px, py);
            let co = chunk_offset(chunk, px, py);
            assert(co == chunk_offset(pre_chunk, px, py));
            assert(buf@[fo + 0] == chunk.buffer@[co + 0]);
            assert(buf@[fo + 1] == chunk.buffer@[co + 1]);
            assert(buf@[fo + 2] == chunk.buffer@[co + 2]);
            assert(buf@[fo + 3] == chunk.buffer@[co + 3]);
            assert(0 <= co && co + 3 < chunk.buffer.len() && (co + 3) % 4 == 3) by {
                let m = py * w + px;
                assert(co == m * 4);
                assert(0 <= m && m < w * h) by (nonlinear_arith)
                    requires
                        m == py * w + px,
                        0 <= py < h,
                        0 <= px < w,
                        w > 0,
                ;
                vstd::arithmetic::div_mod::lemma_fundamental_div_mod_converse(co + 3, 4, m, 3);
            }
            assert(chunk.buffer@[co + 3] == pre_chunk.buffer@[co + 3]);
            assert(pre_chunk.buffer@[(py * w + px) * 4 + 3] == old(buf)@[fo + 3]);
            if mode_sampled(mode) {
                assert(sampled_pixel_shown(
                    mode,
                    spheres,
                    ccam,
                    samples as int,
                    pre_chunk,
                    chunk.buffer@,
                    px,
                    py,
                ));
                let cw = choose|c: Vec3|
                    {
                        &&& #[trigger] admissible_pixel(
                            mode,
                            spheres,
                            ccam,
                            px,
                            py,
                            pre_chunk.x as int,
                            pre_chunk.y as int,
                            samples as int,
                            c,
                        )
                        &&& chunk.buffer@[chunk_offset(pre_chunk, px, py)] as int
                            == pixel_byte_spec(mode, c.x as int)
                        &&& chunk.buffer@[chunk_offset(pre_chunk, px, py) + 1] as int
                            == pixel_byte_spec(mode, c.y as int)
                        &&& chunk.buffer@[chunk_offset(pre_chunk, px, py) + 2] as int
                            == pixel_byte_spec(mode, c.z as int)
                    };
                assert(admissible_pixel(mode, spheres, ccam, px, py, w, h, samples as int, cw)
                    && buf@[frame_offset(w, h, px, py)] as int == pixel_byte_spec(
                    mode,
                    cw.x as int,
                ) && buf@[frame_offset(w, h, px, py) + 1] as int == pixel_byte_spec(
                    mode,
                    cw.y as int,
                ) && buf@[frame_offset(w, h, px, py) + 2] as int == pixel_byte_spec(
                    mode,
                    cw.z as int,
                ));
            }
        }
        assert forall|px: int, py: int|
            0 <= px < width && 0 <= py < height && mode_sampled(mode)
                implies #[trigger] frame_sampled_pixel(
            mode,
            spheres,
            ccam,
            samples as int,
            buf@,
            px,
            py,
            w,
            h,
        ) by {
            let fo = frame_offset(w, h, px, py);
        }
        assert(frame_sampled_shown(mode, buf@, spheres, ccam, samples as int, w, h));
    }
}

/// Whether this model gamma-corrects before quantizing.
fn mode_gamma_exec(m: ShadeMode) -> (g: bool)
    ensures
        g == mode_gamma(m),
{
    match m {
        ShadeMode::Diffuse => true,
        ShadeMode::Full => true,
        _ => false,
    }
}

/// Divides the accumulated colour by the sample count.
fn average(acc: Vec3, samples: u8) -> (r: Vec3)
    ensures
        r.x as int == fx_div_int_spec(acc.x as int, samples as int),
        r.y as int == fx_div_int_spec(acc.y as int, samples as int),
        r.z as int == fx_div_int_spec(acc.z as int, samples as int),
{
    Vec3::new(
        fx_div_int(acc.x, samples as i64),
        fx_div_int(acc.y, samples as i64),
        fx_div_int(acc.z, samples as i64),
    )
}

/// After `put_pixel` at the row-major offset of `(i, j)`, the pixel
/// `(i, j)` holds its quantized colour, earlier pixels are untouched, and
/// the fourth byte of every pixel is untouched.
proof fn lemma_pixel_written(
    c: Chunk,
    now: Seq<u8>,
    before: Seq<u8>,
    mode: ShadeMode,
    spheres: Seq<Sphere>,
    i: int,
    j: int,
    offset: int,
    color: Vec3,
)
    requires
        wf_chunk(c),
        c.start_x <= i < c.start_x + c.nx,
        c.start_y <= j < c.start_y + c.ny,
        offset == ((j - c.start_y) * c.nx + (i - c.start_x)) * 4,
        now.len() == before.len(),
        before.len() == c.buffer.len(),
        offset + 4 <= before.len(),
        now[offset] as int == pixel_byte_spec(mode, color.x as int),
        now[offset + 1] as int == pixel_byte_spec(mode, color.y as int),
        now[offset + 2] as int == pixel_byte_spec(mode, color.z as int),
        forall|idx: int| 0 <= idx < before.len() && !(offset <= idx <= offset + 2) ==> now[idx]
            == before[idx],
    ensures
        forall|px: int, py: int, k: int|
            c.start_x <= px < c.start_x + c.nx && c.start_y <= py < c.start_y + c.ny && (py < j || (
            py == j && px < i)) && 0 <= k < 4 ==> now[#[trigger] (chunk_offset(c, px, py) + k)]
                == before[chunk_offset(c, px, py) + k],
        chunk_offset(c, i, j) == offset,
        forall|idx: int| 0 <= idx < before.len() && idx % 4 == 3 ==> now[idx] == before[idx],
{
    assert forall|px: int, py: int, k: int|
        c.start_x <= px < c.start_x + c.nx && c.start_y <= py < c.start_y + c.ny && (py < j || (py
            == j && px < i)) && 0 <= k < 4 implies now[#[trigger] (chunk_offset(c, px, py) + k)]
        == before[chunk_offset(c, px, py) + k] by {
        let co = chunk_offset(c, px, py);
        assert(co == ((py - c.start_y) * c.nx + (px - c.start_x)) * 4);
        lemma_rowmajor_lt(
            c.nx as int,
            py - c.start_y,
            px - c.start_x,
            j - c.start_y,
            i - c.start_x,
        );
        assert(((py - c.start_y) * c.nx + (px - c.start_x)) * 4 + 4 <= ((j - c.start_y) * c.nx + (
        i - c.start_x)) * 4) by (nonlinear_arith)
            requires
                (py - c.start_y) * c.nx + (px - c.start_x) < (j - c.start_y) * c.nx + (i
                    - c.start_x),
        ;
        assert(co + 3 < offset);
        assert(0 <= co) by (nonlinear_arith)
            requires
                co == ((py - c.start_y) * c.nx + (px - c.start_x)) * 4,
                py - c.start_y >= 0,
                px - c.start_x >= 0,
                c.nx >= 0,
        ;
    }
    assert forall|idx: int| 0 <= idx < before.len() && idx % 4 == 3 implies now[idx]
        == before[idx] by {
        if offset <= idx <= offset + 2 {
            let m = (j - c.start_y) * c.nx + (i - c.start_x);
            assert(0 <= m) by (nonlinear_arith)
                requires
                    m == (j - c.start_y) * c.nx + (i - c.start_x),
                    j - c.start_y >= 0,
                    i - c.start_x >= 0,
                    c.nx >= 0,
            ;
            vstd::arithmetic::div_mod::lemma_fundamental_div_mod_converse(idx, 4, m, idx - offset);
        }
    }
}

} // verus!

verus! {

/// A whole-frame renderer bound to one output size.
pub struct Renderer {
    pub width: usize,
    pub height: usize,
}

impl Renderer {
    pub fn new(width: usize, height: usize) -> (r: Renderer)
        ensures
            r.width == width,
            r.height == height,
    {
        Renderer { width, height }
    }

    /// The output size is fixed when the renderer is built; a size change
    /// is taken by building a new renderer, so this leaves it unchanged.
    pub fn update_dimensions(&mut self, width: usize, height: usize)
        ensures
            *final(self) == *old(self),
    {
    }

    /// Renders one whole frame under the given shading model; models that
    /// sample through a camera are served by the demo scenes instead.
    pub fn render(
        &self,
        mode: ShadeMode,
        buf: &mut Vec<u8>,
        world: &HitableList,
        samples: u8,
        rng: &mut rand::rngs::ThreadRng,
    )
        requires
            old(buf).len() == self.width * self.height * 4,
            1 <= self.width <= MAX_DIM,
            1 <= self.height <= MAX_DIM,
            !mode_needs_camera(mode),
        ensures
            final(buf).len() == old(buf).len(),
            frame_rendered(mode, final(buf)@, world.list@, self.width as int, self.height as int),
            frame_sampled_shown(
                mode,
                final(buf)@,
                world.list@,
                chunk_camera(mode, None),
                samples as int,
                self.width as int,
                self.height as int,
            ),
            forall|px: int, py: int|
                #![trigger frame_offset(self.width as int, self.height as int, px, py)]
                0 <= px < self.width && 0 <= py < self.height ==> final(buf)@[frame_offset(
                    self.width as int,
                    self.height as int,
                    px,
                    py,
                ) + 3] == old(buf)@[frame_offset(self.width as int, self.height as int, px, py)
                    + 3],
    {
        render_frame(mode, buf, self.width, self.height, samples, None, Some(world), rng);
    }

    /// The finished frame as plain `P3` text.
    pub fn ppm_text(&self, buf: &Vec<u8>) -> (s: String)
        requires
            buf.len() % 4 == 0,
            self.width <= u32::MAX,
            self.height <= u32::MAX,
        ensures
            s@ == crate::ppm::ppm_of_buffer_spec(buf@, self.width as int, self.height as int),
    {
        crate::ppm::ppm_of_buffer(buf, self.width as u32, self.height as u32)
    }
}

/// The shading models whose pixels do not depend on random draws.
pub open spec fn mode_deterministic(m: ShadeMode) -> bool {
    m is UvPlain || m is Gradient || m is RedSphere || m is NormalSphere || m is NormalScene
}

/// Determinism of the deterministic shading models: two finished frames
/// of the same scene and extents agree on every colour byte, whatever
/// happened to the random source in either run.  The fourth bytes are
/// the renderer's affair, not the model's, and are not compared.
pub proof fn lemma_det_frames_agree(
    mode: ShadeMode,
    b1: Seq<u8>,
    b2: Seq<u8>,
    spheres: Seq<Sphere>,
    x: int,
    y: int,
)
    requires
        mode_deterministic(mode),
        x >= 1,
        y >= 1,
        b1.len() == x * y * 4,
        b2.len() == b1.len(),
        frame_rendered(mode, b1, spheres, x, y),
        frame_rendered(mode, b2, spheres, x, y),
    ensures
        forall|idx: int| 0 <= idx < b1.len() && idx % 4 != 3 ==> b1[idx] == b2[idx],
{
    assert forall|idx: int| 0 <= idx < b1.len() && idx % 4 != 3 implies b1[idx] == b2[idx] by {
        let p = idx / 4;
        let k = idx % 4;
        vstd::arithmetic::div_mod::lemma_fundamental_div_mod(idx, 4);
        vstd::arithmetic::div_mod::lemma_mod_bound(idx, 4);
        vstd::arithmetic::div_mod::lemma_div_pos_is_pos(idx, 4);
        assert(p < x * y) by (nonlinear_arith)
            requires
                idx < x * y * 4,
                idx == 4 * p + k,
                0 <= k < 4,
                0 <= p,
        ;
        let row = p / x;
        let px = p % x;
        vstd::arithmetic::div_mod::lemma_fundamental_div_mod(p, x);
        vstd::arithmetic::div_mod::lemma_mod_bound(p, x);
        vstd::arithmetic::div_mod::lemma_div_pos_is_pos(p, x);
        assert(row < y) by (nonlinear_arith)
            requires
                p == x * row + px,
                0 <= px < x,
                p < x * y,
                0 <= row,
                x >= 1,
        ;
        let py = y - 1 - row;
        assert(frame_offset(x, y, px, py) == (row * x + px) * 4);
        assert(idx == (row * x + px) * 4 + k) by (nonlinear_arith)
            requires
                idx == 4 * p + k,
                p == x * row + px,
        ;
        assert(frame_pixel_colors(b1, mode, spheres, px, py, x, y));
        assert(frame_pixel_colors(b2, mode, spheres, px, py, x, y));
        assert(det_pixel_spec(mode, spheres, px, py, x, y) is Some);
    }
}

} // verus!
