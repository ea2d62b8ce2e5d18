//! The demo scenes, one struct each, every one rendered through the
//! shared tiled engine with its own shading model, scene and camera.

use vstd::prelude::*;

use crate::camera::{camera_spec, cos_fx, Camera, PI_FX};
use crate::chunk::{wf_chunk, Chunk, HORIZONTAL_PARTITION, MAX_DIM, VERTICAL_PARTITION};
use crate::fixed::{fx_div_int, fx_div_int_spec, fx_mul, SCALE};
use crate::hitable::{wf_world, HitableList};
use crate::material::{wf_color, wf_material, Dielectric, Lambertian, Material, Metal};
use crate::render::{chunk_camera, chunk_rendered, chunk_sampled_shown, default_camera_spec,
    frame_rendered, frame_sampled_shown, render, render_chunk, render_frame, world_seq,
    ShadeMode};
use crate::rng::rand_unit;
use crate::sphere::Sphere;
use crate::vec3::Vec3;

verus! {

/// The two-sphere scene shared by several demos: a small sphere in front
/// of the camera and a large ground sphere.
pub open spec fn two_sphere_world() -> Seq<Sphere> {
    seq![
        (Sphere {
            center: Vec3 { x: 0, y: 0, z: -1_000_000i64 },
            radius: 500_000i64,
            material: None,
        }),
        (Sphere {
            center: Vec3 { x: 0, y: -100_500_000i64, z: -1_000_000i64 },
            radius: 100_000_000i64,
            material: None,
        }),
    ]
}

proof fn lemma_wf_push(s0: Seq<Sphere>, s: Sphere)
    requires
        wf_world(s0),
        s.radius > 0,
        match s.material {
            Some(m) => wf_material(m),
            None => true,
        },
    ensures
        wf_world(s0.push(s)),
{
    assert forall|i: int| 0 <= i < s0.push(s).len() implies #[trigger] s0.push(s)[i].radius > 0
        && match s0.push(s)[i].material {
        Some(m) => wf_material(m),
        None => true,
    } by {
        if i < s0.len() {
            assert(s0.push(s)[i] == s0[i]);
        } else {
            assert(s0.push(s)[i] == s);
        }
    }
}

proof fn lemma_half_of_one_plus(r: int)
    requires
        0 <= r <= SCALE,
    ensures
        500_000 <= crate::fixed::fx_mul_spec(SCALE + r, 500_000) <= SCALE,
{
    assert((SCALE + r) * 500_000 <= SCALE as int * SCALE) by (nonlinear_arith)
        requires
            0 <= r <= SCALE,
    ;
    crate::fixed::lemma_mul_fits(SCALE + r, 500_000, SCALE as int);
    assert(SCALE as int * 500_000 <= (SCALE + r) * 500_000) by (nonlinear_arith)
        requires
            0 <= r,
    ;
    vstd::arithmetic::div_mod::lemma_div_is_ordered(
        SCALE as int * 500_000,
        (SCALE + r) * 500_000,
        SCALE as int,
    );
    assert(SCALE as int * 500_000 == 500_000 * (SCALE as int)) by (nonlinear_arith);
    vstd::arithmetic::div_mod::lemma_div_by_multiple(500_000, SCALE as int);
}

proof fn lemma_fuzz_half(r: int)
    requires
        0 <= r <= SCALE,
    ensures
        0 <= crate::fixed::fx_mul_spec(500_000, r) <= 500_000,
{
    assert(500_000 * r <= 500_000 * (SCALE as int)) by (nonlinear_arith)
        requires
            0 <= r <= SCALE,
    ;
    crate::fixed::lemma_mul_fits(500_000, r, 500_000);
}

/// Appends a sphere to the scene, keeping the scene well-formed.
fn push_wf(world: &mut HitableList, s: Sphere)
    requires
        wf_world(old(world).list@),
        s.radius > 0,
        match s.material {
            Some(m) => wf_material(m),
            None => true,
        },
    ensures
        wf_world(final(world).list@),
        final(world).list@ == old(world).list@.push(s),
{
    let ghost w0 = world.list@;
    let ghost sg = s;
    world.push(s);
    proof {
        lemma_wf_push(w0, sg);
    }
}

fn build_two_sphere_world() -> (w: HitableList)
    ensures
        w.list@ == two_sphere_world(),
{
    let mut list: Vec<Sphere> = Vec::new();
    list.push(Sphere::new(Vec3::new(0, 0, -1_000_000), 500_000));
    list.push(Sphere::new(Vec3::new(0, -100_500_000, -1_000_000), 100_000_000));
    proof {
        assert(list@ =~= two_sphere_world());
    }
    HitableList::new(list)
}

/// The aspect ratio the tiled renderer hands to a demo's camera: the
/// ratio of the chunk extents.
pub open spec fn chunk_aspect_spec(width: int, height: int) -> int {
    fx_div_int_spec((width / 8) * SCALE, height / 8)
}

fn chunk_aspect(width: usize, height: usize) -> (r: i64)
    requires
        8 <= width <= MAX_DIM,
        8 <= height <= MAX_DIM,
    ensures
        r as int == chunk_aspect_spec(width as int, height as int),
{
    let nx = width / VERTICAL_PARTITION;
    let ny = height / HORIZONTAL_PARTITION;
    fx_div_int((nx as i64) * SCALE, ny as i64)
}

/// The camera the demos fall back to: at the origin, looking down the
/// negative `z` axis with a right angle of vertical field of view.
pub fn default_camera(aspect: i64) -> (c: Camera)
    ensures
        c == camera_spec(
            Vec3 { x: 0, y: 0, z: 0 },
            Vec3 { x: 0, y: 0, z: -1_000_000i64 },
            Vec3 { x: 0, y: SCALE, z: 0 },
            90 * SCALE,
            aspect as int,
            0,
            SCALE as int,
        ),
{
    Camera::new(
        Vec3::new(0, 0, 0),
        Vec3::new(0, 0, -1_000_000),
        Vec3::new(0, SCALE, 0),
        90 * SCALE,
        aspect,
        0,
        SCALE,
    )
}

/// A plain coordinate gradient over the whole image.
pub struct SimpleRectangle;

impl SimpleRectangle {
    pub fn name(&self) -> &'static str {
        "simple_rectangle"
    }

    pub fn render_chunk(&self, chunk: &mut Chunk, samples: u8, rng: &mut rand::rngs::ThreadRng)
        requires
            wf_chunk(*old(chunk)),
        ensures
            chunk_rendered(ShadeMode::UvPlain, *old(chunk), *final(chunk), Seq::empty()),
    {
        render_chunk(ShadeMode::UvPlain, chunk, None, None, samples, rng);
    }

    pub fn render(
        &self,
        buf: &mut Vec<u8>,
        width: usize,
        height: usize,
        samples: u8,
        rng: &mut rand::rngs::ThreadRng,
    )
        requires
            old(buf).len() == width * height * 4,
            8 <= width <= MAX_DIM,
            8 <= height <= MAX_DIM,
            width % VERTICAL_PARTITION == 0,
            height % HORIZONTAL_PARTITION == 0,
        ensures
            final(buf).len() == old(buf).len(),
            frame_rendered(
                ShadeMode::UvPlain,
                final(buf)@,
                Seq::empty(),
                width as int,
                height as int,
            ),
    {
        render(ShadeMode::UvPlain, buf, width, height, samples, None, None, rng);
    }
}

/// The white-to-blue sky gradient on its own.
pub struct LinearGradientRectangle;

impl LinearGradientRectangle {
    pub fn name(&self) -> &'static str {
        "linear-gradient-rectangle"
    }

    pub fn render_chunk(&self, chunk: &mut Chunk, samples: u8, rng: &mut rand::rngs::ThreadRng)
        requires
            wf_chunk(*old(chunk)),
        ensures
            chunk_rendered(ShadeMode::Gradient, *old(chunk), *final(chunk), Seq::empty()),
    {
        render_chunk(ShadeMode::Gradient, chunk, None, None, samples, rng);
    }

    pub fn render(
        &self,
        buf: &mut Vec<u8>,
        width: usize,
        height: usize,
        samples: u8,
        rng: &mut rand::rngs::ThreadRng,
    )
        requires
            old(buf).len() == width * height * 4,
            8 <= width <= MAX_DIM,
            8 <= height <= MAX_DIM,
            width % VERTICAL_PARTITION == 0,
            height % HORIZONTAL_PARTITION == 0,
        ensures
            final(buf).len() == old(buf).len(),
            frame_rendered(
                ShadeMode::Gradient,
                final(buf)@,
                Seq::empty(),
                width as int,
                height as int,
            ),
    {
        render(ShadeMode::Gradient, buf, width, height, samples, None, None, rng);
    }
}

/// A flat red sphere in front of the sky gradient.
pub struct SimpleSphere;

impl SimpleSphere {
    pub fn name(&self) -> &'static str {
        "simple_sphere"
    }

    pub fn render_chunk(&self, chunk: &mut Chunk, samples: u8, rng: &mut rand::rngs::ThreadRng)
        requires
            wf_chunk(*old(chunk)),
        ensures
            chunk_rendered(ShadeMode::RedSphere, *old(chunk), *final(chunk), Seq::empty()),
    {
        render_chunk(ShadeMode::RedSphere, chunk, None, None, samples, rng);
    }

    pub fn render(
        &self,
        buf: &mut Vec<u8>,
        width: usize,
        height: usize,
        samples: u8,
        rng: &mut rand::rngs::ThreadRng,
    )
        requires
            old(buf).len() == width * height * 4,
            8 <= width <= MAX_DIM,
            8 <= height <= MAX_DIM,
            width % VERTICAL_PARTITION == 0,
            height % HORIZONTAL_PARTITION == 0,
        ensures
            final(buf).len() == old(buf).len(),
            frame_rendered(
                ShadeMode::RedSphere,
                final(buf)@,
                Seq::empty(),
                width as int,
                height as int,
            ),
    {
        render(ShadeMode::RedSphere, buf, width, height, samples, None, None, rng);
    }
}

/// One sphere coloured by its surface normals.
pub struct SurfaceNormalSphere;

impl SurfaceNormalSphere {
    pub fn name(&self) -> &'static str {
        "surface_normal_sphere"
    }

    pub fn render_chunk(&self, chunk: &mut Chunk, samples: u8, rng: &mut rand::rngs::ThreadRng)
        requires
            wf_chunk(*old(chunk)),
        ensures
            chunk_rendered(ShadeMode::NormalSphere, *old(chunk), *final(chunk), Seq::empty()),
    {
        render_chunk(ShadeMode::NormalSphere, chunk, None, None, samples, rng);
    }

    pub fn render(
        &self,
        buf: &mut Vec<u8>,
        width: usize,
        height: usize,
        samples: u8,
        rng: &mut rand::rngs::ThreadRng,
    )
        requires
            old(buf).len() == width * height * 4,
            8 <= width <= MAX_DIM,
            8 <= height <= MAX_DIM,
            width % VERTICAL_PARTITION == 0,
            height % HORIZONTAL_PARTITION == 0,
        ensures
            final(buf).len() == old(buf).len(),
            frame_rendered(
                ShadeMode::NormalSphere,
                final(buf)@,
                Seq::empty(),
                width as int,
                height as int,
            ),
    {
        render(ShadeMode::NormalSphere, buf, width, height, samples, None, None, rng);
    }
}

/// The two-sphere scene coloured by surface normals, through the
/// composite scene query.
pub struct HitableSphere;

impl HitableSphere {
    pub fn name(&self) -> &'static str {
        "sphere-using-hit-table"
    }

    pub fn world(&self) -> (w: Option<HitableList>)
        ensures
            w matches Some(l) && l.list@ == two_sphere_world(),
    {
        Some(build_two_sphere_world())
    }

    pub fn render_chunk(
        &self,
        chunk: &mut Chunk,
        camera: Option<&Camera>,
        world: Option<&HitableList>,
        samples: u8,
        rng: &mut rand::rngs::ThreadRng,
    )
        requires
            wf_chunk(*old(chunk)),
            world is Some,
        ensures
            chunk_rendered(ShadeMode::NormalScene, *old(chunk), *final(chunk), world_seq(world)),
    {
        render_chunk(ShadeMode::NormalScene, chunk, camera, world, samples, rng);
    }

    pub fn render(
        &self,
        buf: &mut Vec<u8>,
        width: usize,
        height: usize,
        samples: u8,
        rng: &mut rand::rngs::ThreadRng,
    )
        requires
            old(buf).len() == width * height * 4,
            8 <= width <= MAX_DIM,
            8 <= height <= MAX_DIM,
            width % VERTICAL_PARTITION == 0,
            height % HORIZONTAL_PARTITION == 0,
        ensures
            final(buf).len() == old(buf).len(),
            frame_rendered(
                ShadeMode::NormalScene,
                final(buf)@,
                two_sphere_world(),
                width as int,
                height as int,
            ),
    {
        let world = build_two_sphere_world();
        render(
            ShadeMode::NormalScene,
            buf,
            width,
            height,
            samples,
            None,
            Some(&world),
            rng,
        );
    }
}

/// The two-sphere scene, normal coloured, antialiased by jittered
/// samples through the camera.
pub struct SimpleAntialiasing;

impl SimpleAntialiasing {
    pub fn name(&self) -> &'static str {
        "simple-antialiasing"
    }

    pub fn world(&self) -> (w: Option<HitableList>)
        ensures
            w matches Some(l) && l.list@ == two_sphere_world(),
    {
        Some(build_two_sphere_world())
    }

    pub fn render_chunk(
        &self,
        chunk: &mut Chunk,
        camera: Option<&Camera>,
        world: Option<&HitableList>,
        samples: u8,
        rng: &mut rand::rngs::ThreadRng,
    )
        requires
            wf_chunk(*old(chunk)),
            world is Some,
            camera is Some,
        ensures
            chunk_rendered(ShadeMode::SampledNormal, *old(chunk), *final(chunk), world_seq(world)),
            chunk_sampled_shown(
                ShadeMode::SampledNormal,
                *old(chunk),
                *final(chunk),
                world_seq(world),
                chunk_camera(ShadeMode::SampledNormal, camera),
                samples as int,
            ),
    {
        render_chunk(ShadeMode::SampledNormal, chunk, camera, world, samples, rng);
    }

    pub fn render(
        &self,
        buf: &mut Vec<u8>,
        width: usize,
        height: usize,
        samples: u8,
        rng: &mut rand::rngs::ThreadRng,
    )
        requires
            old(buf).len() == width * height * 4,
            8 <= width <= MAX_DIM,
            8 <= height <= MAX_DIM,
            width % VERTICAL_PARTITION == 0,
            height % HORIZONTAL_PARTITION == 0,
        ensures
            final(buf).len() == old(buf).len(),
            frame_rendered(ShadeMode::SampledNormal, final(buf)@, Seq::empty(), width as int, height as int),
            frame_sampled_shown(
                ShadeMode::SampledNormal,
                final(buf)@,
                two_sphere_world(),
                camera_spec(
                    Vec3 { x: 0, y: 0, z: 0 },
                    Vec3 { x: 0, y: 0, z: -1_000_000i64 },
                    Vec3 { x: 0, y: SCALE, z: 0 },
                    90 * SCALE,
                    chunk_aspect_spec(width as int, height as int),
                    0,
                    SCALE as int,
                ),
                samples as int,
                width as int,
                height as int,
            ),
    {
        let world = build_two_sphere_world();
        let camera = default_camera(chunk_aspect(width, height));
        render(
            ShadeMode::SampledNormal,
            buf,
            width,
            height,
            samples,
            Some(&camera),
            Some(&world),
            rng,
        );
    }
}

/// The two-sphere scene under diffuse half-energy bouncing.
pub struct DiffuseMaterials;

impl DiffuseMaterials {
    pub fn name(&self) -> &'static str {
        "Diffuse Materials"
    }

    pub fn render_chunk(&self, chunk: &mut Chunk, samples: u8, rng: &mut rand::rngs::ThreadRng)
        requires
            wf_chunk(*old(chunk)),
        ensures
            chunk_rendered(ShadeMode::Diffuse, *old(chunk), *final(chunk), two_sphere_world()),
            chunk_sampled_shown(
                ShadeMode::Diffuse,
                *old(chunk),
                *final(chunk),
                two_sphere_world(),
                default_camera_spec(),
                samples as int,
            ),
    {
        let world = build_two_sphere_world();
        render_chunk(ShadeMode::Diffuse, chunk, None, Some(&world), samples, rng);
    }

    pub fn render(
        &self,
        buf: &mut Vec<u8>,
        width: usize,
        height: usize,
        samples: u8,
        rng: &mut rand::rngs::ThreadRng,
    )
        requires
            old(buf).len() == width * height * 4,
            8 <= width <= MAX_DIM,
            8 <= height <= MAX_DIM,
            width % VERTICAL_PARTITION == 0,
            height % HORIZONTAL_PARTITION == 0,
        ensures
            final(buf).len() == old(buf).len(),
            frame_rendered(ShadeMode::Diffuse, final(buf)@, Seq::empty(), width as int, height as int),
            frame_sampled_shown(
                ShadeMode::Diffuse,
                final(buf)@,
                two_sphere_world(),
                default_camera_spec(),
                samples as int,
                width as int,
                height as int,
            ),
    {
        let world = build_two_sphere_world();
        render(ShadeMode::Diffuse, buf, width, height, samples, None, Some(&world), rng);
    }
}

/// The four-sphere material showcase: two diffuse spheres and two fuzzy
/// metal spheres.
pub open spec fn materials_world() -> Seq<Sphere> {
    seq![
        (Sphere {
            center: Vec3 { x: 0, y: 0, z: -1_000_000i64 },
            radius: 500_000i64,
            material: Some(
                Material::Lambertian(
                    Lambertian { albedo: Vec3 { x: 800_000, y: 300_000, z: 300_000 } },
                ),
            ),
        }),
        (Sphere {
            center: Vec3 { x: 0, y: -100_500_000i64, z: -1_000_000i64 },
            radius: 100_000_000i64,
            material: Some(
                Material::Lambertian(
                    Lambertian { albedo: Vec3 { x: 800_000, y: 800_000, z: 0 } },
                ),
            ),
        }),
        (Sphere {
            center: Vec3 { x: 1_000_000i64, y: 0, z: -1_000_000i64 },
            radius: 500_000i64,
            material: Some(
                Material::Metal(
                    Metal { albedo: Vec3 { x: 800_000, y: 600_000, z: 200_000 }, fuzz: 300_000 },
                ),
            ),
        }),
        (Sphere {
            center: Vec3 { x: -1_000_000i64, y: 0, z: -1_000_000i64 },
            radius: 500_000i64,
            material: Some(
                Material::Metal(
                    Metal { albedo: Vec3 { x: 800_000, y: 800_000, z: 800_000 }, fuzz: 500_000 },
                ),
            ),
        }),
    ]
}

pub struct Materials;

impl Materials {
    pub fn name(&self) -> &'static str {
        "materials"
    }

    pub fn world(&self) -> (w: Option<HitableList>)
        ensures
            w matches Some(l) && l.list@ == materials_world(),
            wf_world(materials_world()),
    {
        let mut list: Vec<Sphere> = Vec::new();
        list.push(
            Sphere::with_material(
                Vec3::new(0, 0, -1_000_000),
                500_000,
                Material::Lambertian(Lambertian::new(Vec3::new(800_000, 300_000, 300_000))),
            ),
        );
        list.push(
            Sphere::with_material(
                Vec3::new(0, -100_500_000, -1_000_000),
                100_000_000,
                Material::Lambertian(Lambertian::new(Vec3::new(800_000, 800_000, 0))),
            ),
        );
        list.push(
            Sphere::with_material(
                Vec3::new(1_000_000, 0, -1_000_000),
                500_000,
                Material::Metal(Metal::with_fuzz(Vec3::new(800_000, 600_000, 200_000), 300_000)),
            ),
        );
        list.push(
            Sphere::with_material(
                Vec3::new(-1_000_000, 0, -1_000_000),
                500_000,
                Material::Metal(Metal::with_fuzz(Vec3::new(800_000, 800_000, 800_000), 500_000)),
            ),
        );
        proof {
            assert(list@ =~= materials_world());
        }
        Some(HitableList::new(list))
    }

    pub fn render_chunk(
        &self,
        chunk: &mut Chunk,
        camera: Option<&Camera>,
        world: Option<&HitableList>,
        samples: u8,
        rng: &mut rand::rngs::ThreadRng,
    )
        requires
            wf_chunk(*old(chunk)),
            world is Some,
            camera is Some,
        ensures
            chunk_rendered(ShadeMode::Full, *old(chunk), *final(chunk), world_seq(world)),
            chunk_sampled_shown(
                ShadeMode::Full,
                *old(chunk),
                *final(chunk),
                world_seq(world),
                chunk_camera(ShadeMode::Full, camera),
                samples as int,
            ),
    {
        render_chunk(ShadeMode::Full, chunk, camera, world, samples, rng);
    }

    pub fn render(
        &self,
        buf: &mut Vec<u8>,
        width: usize,
        height: usize,
        samples: u8,
        rng: &mut rand::rngs::ThreadRng,
    )
        requires
            old(buf).len() == width * height * 4,
            8 <= width <= MAX_DIM,
            8 <= height <= MAX_DIM,
            width % VERTICAL_PARTITION == 0,
            height % HORIZONTAL_PARTITION == 0,
        ensures
            final(buf).len() == old(buf).len(),
            frame_rendered(ShadeMode::Full, final(buf)@, Seq::empty(), width as int, height as int),
            frame_sampled_shown(
                ShadeMode::Full,
                final(buf)@,
                materials_world(),
                camera_spec(
                    Vec3 { x: 0, y: 0, z: 0 },
                    Vec3 { x: 0, y: 0, z: -1_000_000i64 },
                    Vec3 { x: 0, y: SCALE, z: 0 },
                    90 * SCALE,
                    chunk_aspect_spec(width as int, height as int),
                    0,
                    SCALE as int,
                ),
                samples as int,
                width as int,
                height as int,
            ),
    {
        let world = self.world();
        let camera = default_camera(chunk_aspect(width, height));
        match world {
            Some(w) => {
                render(
                    ShadeMode::Full,
                    buf,
                    width,
                    height,
                    samples,
                    Some(&camera),
                    Some(&w),
                    rng,
                );
            },
            None => {
                proof {
                    assert(false);
                }
            },
        }
    }
}

/// The scene of the repositioned camera: three spheres sized by the
/// cosine of an eighth turn, on a large ground sphere.  The cosine is
/// the crate's own series value; were it not positive the scene would be
/// empty, which never happens.
pub open spec fn positionable_camera_world() -> Seq<Sphere> {
    let radius = crate::camera::cos_fx_spec(fx_div_int_spec(PI_FX as int, 4));
    if radius <= 0 {
        Seq::empty()
    } else {
        let neg_radius = crate::fixed::fx_mul_spec(radius, -(SCALE as int));
        seq![
            (Sphere {
                center: Vec3 { x: neg_radius as i64, y: 0, z: -1_000_000i64 },
                radius: radius as i64,
                material: Some(
                    Material::Lambertian(Lambertian { albedo: Vec3 { x: 0, y: 0, z: SCALE } }),
                ),
            }),
            (Sphere {
                center: Vec3 { x: radius as i64, y: 0, z: -1_000_000i64 },
                radius: radius as i64,
                material: Some(
                    Material::Metal(
                        Metal { albedo: Vec3 { x: 500_000, y: 500_000, z: 0 }, fuzz: 200_000 },
                    ),
                ),
            }),
            (Sphere {
                center: Vec3 {
                    x: crate::fixed::fx_mul_spec(neg_radius, 3 * SCALE) as i64,
                    y: 0,
                    z: -1_000_000i64,
                },
                radius: radius as i64,
                material: Some(Material::Dielectric(Dielectric { reflection_index: 1_500_000 })),
            }),
            (Sphere {
                center: Vec3 { x: 0, y: -100_500_000i64, z: -1_000_000i64 },
                radius: 100_000_000i64,
                material: Some(
                    Material::Lambertian(
                        Lambertian { albedo: Vec3 { x: 800_000, y: 800_000, z: 0 } },
                    ),
                ),
            }),
        ]
    }
}

/// Two touching spheres seen from an angled, repositioned camera.
pub struct PositionableCamera;

impl PositionableCamera {
    pub fn name(&self) -> &'static str {
        "positionable-camera"
    }

    /// Four spheres sized by the cosine of an eighth turn.
    pub fn world(&self) -> (w: Option<HitableList>)
        ensures
            w matches Some(l) && l.list@ == positionable_camera_world() && wf_world(l.list@),
    {
        let radius = cos_fx(fx_div_int(PI_FX, 4));
        if radius <= 0 {
            // the series evaluation of the cosine of an eighth turn is
            // positive; this arm is unreachable but keeps the scene
            // well-formed without a numeric side condition
            let empty = HitableList::new(Vec::new());
            proof {
                assert(wf_world(empty.list@));
                assert(empty.list@ =~= positionable_camera_world());
            }
            return Some(empty);
        }
        let mut world = HitableList::new(Vec::new());
        proof {
            assert(wf_world(world.list@));
        }
        let neg_radius = fx_mul(radius, -SCALE);
        push_wf(
            &mut world,
            Sphere::with_material(
                Vec3::new(neg_radius, 0, -1_000_000),
                radius,
                Material::Lambertian(Lambertian::new(Vec3::new(0, 0, SCALE))),
            ),
        );
        push_wf(
            &mut world,
            Sphere::with_material(
                Vec3::new(radius, 0, -1_000_000),
                radius,
                Material::Metal(Metal::with_fuzz(Vec3::new(500_000, 500_000, 0), 200_000)),
            ),
        );
        push_wf(
            &mut world,
            Sphere::with_material(
                Vec3::new(fx_mul(neg_radius, 3 * SCALE), 0, -1_000_000),
                radius,
                Material::Dielectric(Dielectric::new(1_500_000)),
            ),
        );
        push_wf(
            &mut world,
            Sphere::with_material(
                Vec3::new(0, -100_500_000, -1_000_000),
                100_000_000,
                Material::Lambertian(Lambertian::new(Vec3::new(800_000, 800_000, 0))),
            ),
        );
        proof {
            assert(world.list@ =~= positionable_camera_world());
        }
        Some(world)
    }

    pub fn camera(&self, aspect_ratio: i64) -> (c: Option<Camera>)
        ensures
            c == Some(
                camera_spec(
                    Vec3 { x: -2_000_000i64, y: 2_000_000i64, z: 1_000_000i64 },
                    Vec3 { x: 0, y: 0, z: -1_000_000i64 },
                    Vec3 { x: 0, y: SCALE, z: 0 },
                    68 * SCALE,
                    aspect_ratio as int,
                    0,
                    SCALE as int,
                ),
            ),
    {
        Some(
            Camera::new(
                Vec3::new(-2_000_000, 2_000_000, 1_000_000),
                Vec3::new(0, 0, -1_000_000),
                Vec3::new(0, SCALE, 0),
                68 * SCALE,
                aspect_ratio,
                0,
                SCALE,
            ),
        )
    }

    pub fn render_chunk(
        &self,
        chunk: &mut Chunk,
        camera: Option<&Camera>,
        world: Option<&HitableList>,
        samples: u8,
        rng: &mut rand::rngs::ThreadRng,
    )
        requires
            wf_chunk(*old(chunk)),
            world is Some,
            camera is Some,
        ensures
            chunk_rendered(ShadeMode::Full, *old(chunk), *final(chunk), world_seq(world)),
            chunk_sampled_shown(
                ShadeMode::Full,
                *old(chunk),
                *final(chunk),
                world_seq(world),
                chunk_camera(ShadeMode::Full, camera),
                samples as int,
            ),
    {
        render_chunk(ShadeMode::Full, chunk, camera, world, samples, rng);
    }

    pub fn render(
        &self,
        buf: &mut Vec<u8>,
        width: usize,
        height: usize,
        samples: u8,
        rng: &mut rand::rngs::ThreadRng,
    )
        requires
            old(buf).len() == width * height * 4,
            8 <= width <= MAX_DIM,
            8 <= height <= MAX_DIM,
            width % VERTICAL_PARTITION == 0,
            height % HORIZONTAL_PARTITION == 0,
        ensures
            final(buf).len() == old(buf).len(),
            frame_rendered(ShadeMode::Full, final(buf)@, Seq::empty(), width as int, height as int),
            frame_sampled_shown(
                ShadeMode::Full,
                final(buf)@,
                positionable_camera_world(),
                camera_spec(
                    Vec3 { x: -2_000_000i64, y: 2_000_000i64, z: 1_000_000i64 },
                    Vec3 { x: 0, y: 0, z: -1_000_000i64 },
                    Vec3 { x: 0, y: SCALE, z: 0 },
                    68 * SCALE,
                    chunk_aspect_spec(width as int, height as int),
                    0,
                    SCALE as int,
                ),
                samples as int,
                width as int,
                height as int,
            ),
    {
        let world = self.world();
        let camera = self.camera(chunk_aspect(width, height));
        match (world, camera) {
            (Some(w), Some(c)) => {
                render(ShadeMode::Full, buf, width, height, samples, Some(&c), Some(&w), rng);
            },
            _ => {
                proof {
                    assert(false);
                }
            },
        }
    }
}

/// The fixed ground sphere of the closing scene.
pub open spec fn final_scene_ground() -> Sphere {
    Sphere {
        center: Vec3 { x: 0, y: -1_000_000_000i64, z: 0 },
        radius: 1_000_000_000i64,
        material: Some(
            Material::Lambertian(
                Lambertian { albedo: Vec3 { x: 500_000, y: 500_000, z: 500_000 } },
            ),
        ),
    }
}

/// The three fixed feature spheres that close the scene: glass, diffuse
/// and polished metal.
pub open spec fn final_scene_features() -> Seq<Sphere> {
    seq![
        (Sphere {
            center: Vec3 { x: 0, y: 1_000_000i64, z: 0 },
            radius: 1_000_000i64,
            material: Some(Material::Dielectric(Dielectric { reflection_index: 1_500_000 })),
        }),
        (Sphere {
            center: Vec3 { x: -4_000_000i64, y: 1_000_000i64, z: 0 },
            radius: 1_000_000i64,
            material: Some(
                Material::Lambertian(
                    Lambertian { albedo: Vec3 { x: 400_000, y: 200_000, z: 100_000 } },
                ),
            ),
        }),
        (Sphere {
            center: Vec3 { x: 4_000_000i64, y: 1_000_000i64, z: 0 },
            radius: 1_000_000i64,
            material: Some(
                Material::Metal(
                    Metal { albedo: Vec3 { x: 700_000, y: 600_000, z: 500_000 }, fuzz: 0 },
                ),
            ),
        }),
    ]
}

/// A randomly placed member of the closing scene's field: a small sphere
/// resting at the field height, clear of the metal feature sphere's
/// spot, carrying one of the three drawn material shapes.
pub open spec fn final_scene_field_sphere(s: Sphere) -> bool {
    &&& s.radius == 200_000
    &&& s.center.y == 200_000
    &&& crate::vec3::length_spec(
        crate::vec3::sub_spec(s.center, Vec3 { x: 4_000_000i64, y: 200_000i64, z: 0 }),
    ) > 900_000
    &&& match s.material {
        Some(Material::Lambertian(l)) => wf_color(l.albedo),
        Some(Material::Metal(m)) => {
            &&& 500_000 <= m.albedo.x <= SCALE
            &&& 500_000 <= m.albedo.y <= SCALE
            &&& 500_000 <= m.albedo.z <= SCALE
            &&& 0 <= m.fuzz <= 500_000
        },
        Some(Material::Dielectric(d)) => d.reflection_index == 1_500_000,
        None => false,
    }
}

proof fn lemma_field_grow(s0: Seq<Sphere>, sp: Sphere)
    requires
        s0.len() >= 1,
        s0[0] == final_scene_ground(),
        forall|i: int| 1 <= i < s0.len() ==> final_scene_field_sphere(#[trigger] s0[i]),
        final_scene_field_sphere(sp),
    ensures
        s0.push(sp).len() == s0.len() + 1,
        s0.push(sp)[0] == final_scene_ground(),
        forall|i: int| 1 <= i < s0.push(sp).len() ==> final_scene_field_sphere(
            #[trigger] s0.push(sp)[i],
        ),
{
    assert forall|i: int| 1 <= i < s0.push(sp).len() implies final_scene_field_sphere(
        #[trigger] s0.push(sp)[i],
    ) by {
        if i < s0.len() {
            assert(s0.push(sp)[i] == s0[i]);
        } else {
            assert(s0.push(sp)[i] == sp);
        }
    }
}

/// The closing scene: a large ground sphere, three feature spheres and a
/// random field of small spheres with randomly drawn materials.
pub struct FinalScene;

impl FinalScene {
    pub fn name(&self) -> &'static str {
        "final-scene"
    }

    /// Whatever the random draws produce: the scene opens with the
    /// ground sphere, closes with the three feature spheres, and every
    /// member in between is a field sphere of the drawn shapes; the
    /// whole scene is well-formed.
    pub fn world(&self, rng: &mut rand::rngs::ThreadRng) -> (w: Option<HitableList>)
        ensures
            w matches Some(l) && ({
                let s = l.list@;
                &&& s.len() >= 4
                &&& s[0] == final_scene_ground()
                &&& s[s.len() - 3] == final_scene_features()[0]
                &&& s[s.len() - 2] == final_scene_features()[1]
                &&& s[s.len() - 1] == final_scene_features()[2]
                &&& (forall|i: int| 1 <= i < s.len() - 3 ==> final_scene_field_sphere(
                    #[trigger] s[i],
                ))
                &&& wf_world(s)
            }),
    {
        let mut world = HitableList::new(Vec::new());
        proof {
            assert(wf_world(world.list@));
        }
        push_wf(
            &mut world,
            Sphere::with_material(
                Vec3::new(0, -1_000_000_000, 0),
                1_000_000_000,
                Material::Lambertian(Lambertian::new(Vec3::new(500_000, 500_000, 500_000))),
            ),
        );
        proof {
            assert(world.list@[0] == final_scene_ground());
        }
        let radius: i64 = 200_000;
        let l = Vec3::new(4_000_000, 200_000, 0);
        let mut a: i64 = -11;
        while a < 11
            invariant
                wf_world(world.list@),
                -11 <= a <= 11,
                radius == 200_000,
                l == (Vec3 { x: 4_000_000i64, y: 200_000i64, z: 0i64 }),
                world.list@.len() >= 1,
                world.list@[0] == final_scene_ground(),
                forall|i: int| 1 <= i < world.list@.len() ==> final_scene_field_sphere(
                    #[trigger] world.list@[i],
                ),
            decreases 11 - a,
        {
            let mut b: i64 = -11;
            while b < 11
                invariant
                    wf_world(world.list@),
                    -11 <= a < 11,
                    -11 <= b <= 11,
                    radius == 200_000,
                    l == (Vec3 { x: 4_000_000i64, y: 200_000i64, z: 0i64 }),
                    world.list@.len() >= 1,
                    world.list@[0] == final_scene_ground(),
                    forall|i: int| 1 <= i < world.list@.len() ==> final_scene_field_sphere(
                        #[trigger] world.list@[i],
                    ),
                decreases 11 - b,
            {
                let choose_material_probability = rand_unit(rng);
                let cx = rand_unit(rng);
                let cz = rand_unit(rng);
                let center = Vec3::new(
                    crate::fixed::fx_add(a * SCALE, fx_mul(900_000, cx)),
                    200_000,
                    crate::fixed::fx_add(b * SCALE, fx_mul(900_000, cz)),
                );
                if center.sub(&l).length() > 900_000 {
                    if choose_material_probability < 800_000 {
                        let r1 = rand_unit(rng);
                        let r2 = rand_unit(rng);
                        let g1 = rand_unit(rng);
                        let g2 = rand_unit(rng);
                        let b1 = rand_unit(rng);
                        let b2 = rand_unit(rng);
                        proof {
                            crate::fixed::lemma_mul_unit_interval(r1 as int, r2 as int);
                            crate::fixed::lemma_mul_unit_interval(g1 as int, g2 as int);
                            crate::fixed::lemma_mul_unit_interval(b1 as int, b2 as int);
                        }
                        let ghost w0 = world.list@;
                        let sp = Sphere::with_material(
                            center,
                            radius,
                            Material::Lambertian(
                                Lambertian::new(
                                    Vec3::new(fx_mul(r1, r2), fx_mul(g1, g2), fx_mul(b1, b2)),
                                ),
                            ),
                        );
                        let ghost spg = sp;
                        push_wf(&mut world, sp);
                        proof {
                            lemma_field_grow(w0, spg);
                        }
                    } else if choose_material_probability < 950_000 {
                        let mr = rand_unit(rng);
                        let mg = rand_unit(rng);
                        let mb = rand_unit(rng);
                        let mf = rand_unit(rng);
                        proof {
                            lemma_half_of_one_plus(mr as int);
                            lemma_half_of_one_plus(mg as int);
                            lemma_half_of_one_plus(mb as int);
                            lemma_fuzz_half(mf as int);
                        }
                        let ghost w0 = world.list@;
                        let sp = Sphere::with_material(
                            center,
                            radius,
                            Material::Metal(
                                Metal::with_fuzz(
                                    Vec3::new(
                                        fx_mul(crate::fixed::fx_add(SCALE, mr), 500_000),
                                        fx_mul(crate::fixed::fx_add(SCALE, mg), 500_000),
                                        fx_mul(crate::fixed::fx_add(SCALE, mb), 500_000),
                                    ),
                                    fx_mul(500_000, mf),
                                ),
                            ),
                        );
                        let ghost spg = sp;
                        push_wf(&mut world, sp);
                        proof {
                            lemma_field_grow(w0, spg);
                        }
                    } else {
                        let ghost w0 = world.list@;
                        let sp = Sphere::with_material(
                            center,
                            radius,
                            Material::Dielectric(Dielectric::new(1_500_000)),
                        );
                        let ghost spg = sp;
                        push_wf(&mut world, sp);
                        proof {
                            lemma_field_grow(w0, spg);
                        }
                    }
                }
                b = b + 1;
            }
            a = a + 1;
        }
        let ghost mid = world.list@;
        push_wf(
            &mut world,
            Sphere::with_material(
                Vec3::new(0, 1_000_000, 0),
                1_000_000,
                Material::Dielectric(Dielectric::new(1_500_000)),
            ),
        );
        push_wf(
            &mut world,
            Sphere::with_material(
                Vec3::new(-4_000_000, 1_000_000, 0),
                1_000_000,
                Material::Lambertian(Lambertian::new(Vec3::new(400_000, 200_000, 100_000))),
            ),
        );
        push_wf(
            &mut world,
            Sphere::with_material(
                Vec3::new(4_000_000, 1_000_000, 0),
                1_000_000,
                Material::Metal(Metal::with_fuzz(Vec3::new(700_000, 600_000, 500_000), 0)),
            ),
        );
        proof {
            let s = world.list@;
            assert(s.len() == mid.len() + 3);
            assert(s[s.len() - 3] == final_scene_features()[0]);
            assert(s[s.len() - 2] == final_scene_features()[1]);
            assert(s[s.len() - 1] == final_scene_features()[2]);
            assert(s[0] == mid[0]);
            assert forall|i: int| 1 <= i < s.len() - 3 implies final_scene_field_sphere(
                #[trigger] s[i],
            ) by {
                assert(s[i] == mid[i]);
            }
        }
        Some(world)
    }

    pub fn camera(&self, aspect_ratio: i64) -> (c: Option<Camera>)
        ensures
            c == Some(
                camera_spec(
                    Vec3 { x: 13_000_000i64, y: 2_000_000i64, z: 3_000_000i64 },
                    Vec3 { x: 0, y: 0, z: 0 },
                    Vec3 { x: 0, y: SCALE, z: 0 },
                    20 * SCALE,
                    aspect_ratio as int,
                    100_000,
                    10 * SCALE,
                ),
            ),
    {
        Some(
            Camera::new(
                Vec3::new(13_000_000, 2_000_000, 3_000_000),
                Vec3::new(0, 0, 0),
                Vec3::new(0, SCALE, 0),
                20 * SCALE,
                aspect_ratio,
                100_000,
                10 * SCALE,
            ),
        )
    }

    pub fn render_chunk(
        &self,
        chunk: &mut Chunk,
        camera: Option<&Camera>,
        world: Option<&HitableList>,
        samples: u8,
        rng: &mut rand::rngs::ThreadRng,
    )
        requires
            wf_chunk(*old(chunk)),
            world is Some,
            camera is Some,
        ensures
            chunk_rendered(ShadeMode::Full, *old(chunk), *final(chunk), world_seq(world)),
            chunk_sampled_shown(
                ShadeMode::Full,
                *old(chunk),
                *final(chunk),
                world_seq(world),
                chunk_camera(ShadeMode::Full, camera),
                samples as int,
            ),
    {
        render_chunk(ShadeMode::Full, chunk, camera, world, samples, rng);
    }

    pub fn render(
        &self,
        buf: &mut Vec<u8>,
        width: usize,
        height: usize,
        samples: u8,
        rng: &mut rand::rngs::ThreadRng,
    )
        requires
            old(buf).len() == width * height * 4,
            8 <= width <= MAX_DIM,
            8 <= height <= MAX_DIM,
            width % VERTICAL_PARTITION == 0,
            height % HORIZONTAL_PARTITION == 0,
        ensures
            final(buf).len() == old(buf).len(),
            frame_rendered(ShadeMode::Full, final(buf)@, Seq::empty(), width as int, height as int),
            exists|spheres: Seq<Sphere>|
                wf_world(spheres) && #[trigger] frame_sampled_shown(
                    ShadeMode::Full,
                    final(buf)@,
                    spheres,
                    camera_spec(
                        Vec3 { x: 13_000_000i64, y: 2_000_000i64, z: 3_000_000i64 },
                        Vec3 { x: 0, y: 0, z: 0 },
                        Vec3 { x: 0, y: SCALE, z: 0 },
                        20 * SCALE,
                        chunk_aspect_spec(width as int, height as int),
                        100_000,
                        10 * SCALE,
                    ),
                    samples as int,
                    width as int,
                    height as int,
                ),
    {
        let world = self.world(rng);
        let camera = self.camera(chunk_aspect(width, height));
        match (world, camera) {
            (Some(w), Some(c)) => {
                render(ShadeMode::Full, buf, width, height, samples, Some(&c), Some(&w), rng);
                proof {
                    assert(wf_world(w.list@) && frame_sampled_shown(
                        ShadeMode::Full,
                        buf@,
                        w.list@,
                        camera_spec(
                            Vec3 { x: 13_000_000i64, y: 2_000_000i64, z: 3_000_000i64 },
                            Vec3 { x: 0, y: 0, z: 0 },
                            Vec3 { x: 0, y: SCALE, z: 0 },
                            20 * SCALE,
                            chunk_aspect_spec(width as int, height as int),
                            100_000,
                            10 * SCALE,
                        ),
                        samples as int,
                        width as int,
                        height as int,
                    ));
                }
            },
            _ => {
                proof {
                    assert(false);
                }
            },
        }
    }
}

/// A plain coordinate gradient written pixel by pixel over a whole
/// frame of any size.
pub struct PpmExample;

impl PpmExample {
    pub fn name(&self) -> &'static str {
        "ppm_example"
    }

    pub fn render(
        &self,
        buf: &mut Vec<u8>,
        w: usize,
        h: usize,
        rng: &mut rand::rngs::ThreadRng,
    )
        requires
            old(buf).len() == w * h * 4,
            1 <= w <= MAX_DIM,
            1 <= h <= MAX_DIM,
        ensures
            final(buf).len() == old(buf).len(),
            frame_rendered(ShadeMode::UvPlain, final(buf)@, Seq::empty(), w as int, h as int),
            forall|px: int, py: int|
                #![trigger crate::chunk::frame_offset(w as int, h as int, px, py)]
                0 <= px < w && 0 <= py < h ==> final(buf)@[crate::chunk::frame_offset(
                    w as int,
                    h as int,
                    px,
                    py,
                ) + 3] == old(buf)@[crate::chunk::frame_offset(w as int, h as int, px, py) + 3],
    {
        render_frame(ShadeMode::UvPlain, buf, w, h, 1, None, None, rng);
    }
}

/// The sky gradient over a whole frame of any size.
pub struct LinearInterpolationY;

impl LinearInterpolationY {
    pub fn name(&self) -> &'static str {
        "linear_interpolation_y"
    }

    pub fn render(
        &self,
        buf: &mut Vec<u8>,
        w: usize,
        h: usize,
        rng: &mut rand::rngs::ThreadRng,
    )
        requires
            old(buf).len() == w * h * 4,
            1 <= w <= MAX_DIM,
            1 <= h <= MAX_DIM,
        ensures
            final(buf).len() == old(buf).len(),
            frame_rendered(ShadeMode::Gradient, final(buf)@, Seq::empty(), w as int, h as int),
            forall|px: int, py: int|
                #![trigger crate::chunk::frame_offset(w as int, h as int, px, py)]
                0 <= px < w && 0 <= py < h ==> final(buf)@[crate::chunk::frame_offset(
                    w as int,
                    h as int,
                    px,
                    py,
                ) + 3] == old(buf)@[crate::chunk::frame_offset(w as int, h as int, px, py) + 3],
    {
        render_frame(ShadeMode::Gradient, buf, w, h, 1, None, None, rng);
    }
}

/// The two-sphere scene, normal coloured, over a whole frame of any
/// size.
pub struct HitableSurfaceNormalSphere;

impl HitableSurfaceNormalSphere {
    pub fn name(&self) -> &'static str {
        "hit-table_surface_normal_sphere"
    }

    pub fn render(
        &self,
        buf: &mut Vec<u8>,
        w: usize,
        h: usize,
        rng: &mut rand::rngs::ThreadRng,
    )
        requires
            old(buf).len() == w * h * 4,
            1 <= w <= MAX_DIM,
            1 <= h <= MAX_DIM,
        ensures
            final(buf).len() == old(buf).len(),
            frame_rendered(
                ShadeMode::NormalScene,
                final(buf)@,
                two_sphere_world(),
                w as int,
                h as int,
            ),
            forall|px: int, py: int|
                #![trigger crate::chunk::frame_offset(w as int, h as int, px, py)]
                0 <= px < w && 0 <= py < h ==> final(buf)@[crate::chunk::frame_offset(
                    w as int,
                    h as int,
                    px,
                    py,
                ) + 3] == old(buf)@[crate::chunk::frame_offset(w as int, h as int, px, py) + 3],
    {
        let world = build_two_sphere_world();
        render_frame(ShadeMode::NormalScene, buf, w, h, 1, None, Some(&world), rng);
    }
}

/// The two-sphere scene, normal coloured and antialiased by jittered
/// camera samples, over a whole frame of any size.
pub struct Antialiasing;

impl Antialiasing {
    pub fn name(&self) -> &'static str {
        "antialiasing"
    }

    pub fn render(
        &self,
        buf: &mut Vec<u8>,
        w: usize,
        h: usize,
        ns: u8,
        rng: &mut rand::rngs::ThreadRng,
    )
        requires
            old(buf).len() == w * h * 4,
            1 <= w <= MAX_DIM,
            1 <= h <= MAX_DIM,
        ensures
            final(buf).len() == old(buf).len(),
            frame_rendered(ShadeMode::SampledNormal, final(buf)@, Seq::empty(), w as int, h as int),
            frame_sampled_shown(
                ShadeMode::SampledNormal,
                final(buf)@,
                two_sphere_world(),
                camera_spec(
                    Vec3 { x: 0, y: 0, z: 0 },
                    Vec3 { x: 0, y: 0, z: -1_000_000i64 },
                    Vec3 { x: 0, y: SCALE, z: 0 },
                    90 * SCALE,
                    fx_div_int_spec(w as int * SCALE, h as int),
                    0,
                    SCALE as int,
                ),
                ns as int,
                w as int,
                h as int,
            ),
    {
        let world = build_two_sphere_world();
        let aspect = fx_div_int((w as i64) * SCALE, h as i64);
        let camera = default_camera(aspect);
        render_frame(
            ShadeMode::SampledNormal,
            buf,
            w,
            h,
            ns,
            Some(&camera),
            Some(&world),
            rng,
        );
    }
}

} // verus!
