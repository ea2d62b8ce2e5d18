use ria_weekend::camera::{random_in_unit_disk, tan_fx, Camera};
use ria_weekend::chunk::{to_byte, to_byte_gamma, Chunk};
use ria_weekend::color::{calc_color, color_normal, sky_color};
use ria_weekend::demos::{
    default_camera, Antialiasing, DiffuseMaterials, FinalScene, HitableSphere,
    HitableSurfaceNormalSphere, LinearGradientRectangle, LinearInterpolationY, Materials,
    PositionableCamera, PpmExample, SimpleAntialiasing, SimpleRectangle, SimpleSphere,
    SurfaceNormalSphere,
};
use ria_weekend::fixed::SCALE;
use ria_weekend::hitable::HitableList;
use ria_weekend::material::{Material, Metal};
use ria_weekend::ppm::{create_sample, ppm_of_buffer};
use ria_weekend::ray::Ray;
use ria_weekend::render::{frame_ray, ray_hit_sphere, red_sphere_color, render_frame, Renderer,
    ShadeMode};
use ria_weekend::sphere::Sphere;
use ria_weekend::vec3::Vec3;

#[test]
fn quantization_to_bytes() {
    assert_eq!(to_byte(0), 0);
    assert_eq!(to_byte(-5), 0);
    assert_eq!(to_byte(SCALE), 255);
    assert_eq!(to_byte(2 * SCALE), 255);
    assert_eq!(to_byte(500_000), 127);
    // gamma 2: the square root is taken first
    assert_eq!(to_byte_gamma(250_000), 127);
    assert_eq!(to_byte_gamma(SCALE), 255);
}

#[test]
fn background_gradient_extremes() {
    // a ray that misses everything and points straight up yields the far
    // blend colour exactly; straight down yields pure white
    let empty = HitableList::new(Vec::new());
    let mut rng = ria_weekend::rng::thread_rng();
    let up = Ray::new(Vec3::new(0, 0, 0), Vec3::new(0, SCALE, 0));
    let down = Ray::new(Vec3::new(0, 0, 0), Vec3::new(0, -SCALE, 0));
    assert_eq!(calc_color(&up, &empty, &mut rng), Vec3::new(500_000, 700_000, 1_000_000));
    assert_eq!(calc_color(&down, &empty, &mut rng), Vec3::new(SCALE, SCALE, SCALE));
    assert_eq!(sky_color(&up), Vec3::new(500_000, 700_000, 1_000_000));
    assert_eq!(sky_color(&down), Vec3::new(SCALE, SCALE, SCALE));
}

#[test]
fn bounce_budget_returns_black() {
    // two facing perfect mirrors: the ray bounces back and forth until
    // the budget is spent and the estimate is black
    let mirror = Material::Metal(Metal::new(Vec3::new(SCALE, SCALE, SCALE)));
    let world = HitableList::new(vec![
        Sphere::with_material(Vec3::new(0, 0, -2_000_000), 500_000, mirror),
        Sphere::with_material(Vec3::new(0, 0, 2_000_000), 500_000, mirror),
    ]);
    let mut rng = ria_weekend::rng::thread_rng();
    let ray = Ray::new(Vec3::new(0, 0, 0), Vec3::new(0, 0, -1_000_000));
    assert_eq!(calc_color(&ray, &world, &mut rng), Vec3::new(0, 0, 0));
}

#[test]
fn normal_shading_of_scene() {
    let world = HitableList::new(vec![Sphere::new(Vec3::new(0, 0, -2_000_000), 500_000)]);
    let ray = Ray::new(Vec3::new(0, 0, 0), Vec3::new(0, 0, -1_000_000));
    // normal (0, 0, 1) maps to the colour (0.5, 0.5, 1.0)
    assert_eq!(color_normal(&ray, &world, 0), Vec3::new(500_000, 500_000, 1_000_000));
}

#[test]
fn fixed_frame_and_red_sphere() {
    // through the middle of the frame the ray points straight at -z
    let mid = frame_ray(500_000, 500_000);
    assert_eq!(mid.origin(), Vec3::new(0, 0, 0));
    assert_eq!(mid.direction(), Vec3::new(0, 0, -1_000_000));
    assert!(ray_hit_sphere(Vec3::new(0, 0, -1_000_000), 500_000, &mid));
    assert_eq!(red_sphere_color(&mid), Vec3::new(SCALE, 0, 0));
    // through the lower left corner the ray misses the sphere
    let corner = frame_ray(0, 0);
    assert!(!ray_hit_sphere(Vec3::new(0, 0, -1_000_000), 500_000, &corner));
    assert_eq!(red_sphere_color(&corner), sky_color(&corner));
}

#[test]
fn tangent_series_sanity() {
    // tan(pi / 4) is one, up to series truncation and rounding
    let t = tan_fx(785_398);
    assert!((t - SCALE).abs() < 5_000, "tan of an eighth turn was {t}");
}

#[test]
fn camera_with_closed_lens_is_deterministic() {
    let camera = default_camera(2 * SCALE);
    assert_eq!(camera.lens_radius, 0);
    let mut rng = ria_weekend::rng::thread_rng();
    let r1 = camera.get_ray(500_000, 500_000, &mut rng);
    let r2 = camera.get_ray(500_000, 500_000, &mut rng);
    assert_eq!(r1, r2);
    assert_eq!(r1.origin(), Vec3::new(0, 0, 0));
    // the centre ray looks along -z
    assert!(r1.direction().z() < 0);
    assert!(r1.direction().x().abs() < 5_000 && r1.direction().y().abs() < 5_000);
}

#[test]
fn disk_sampling_stays_in_disk() {
    let mut rng = ria_weekend::rng::thread_rng();
    for _ in 0..256 {
        let p = random_in_unit_disk(&mut rng);
        assert!(p.dot(&p) < SCALE);
        assert_eq!(p.z(), 0);
    }
}

#[test]
fn chunked_render_matches_whole_frame() {
    // the union of the chunk rectangles covers every pixel exactly once:
    // the tiled render and the single-rectangle render agree byte for
    // byte across all chunk boundaries
    let mut rng = ria_weekend::rng::thread_rng();
    let (w, h) = (16usize, 8usize);
    let mut tiled = vec![7u8; w * h * 4];
    SimpleRectangle.render(&mut tiled, w, h, 1, &mut rng);
    let mut whole = vec![0u8; w * h * 4];
    PpmExample.render(&mut whole, w, h, &mut rng);
    assert_eq!(tiled, whole);
    // spot-check one pixel: at (8, 4) the colour is (0.5, 0.5, 0.2)
    let offset = ((h - 4 - 1) * w + 8) * 4;
    assert_eq!(tiled[offset], 127);
    assert_eq!(tiled[offset + 1], 127);
    assert_eq!(tiled[offset + 2], 51);
    assert_eq!(tiled[offset + 3], 0);
}

#[test]
fn two_sphere_render_is_reproducible() {
    // a two-sphere scene with deterministic shading, rendered at two by
    // one pixels: repeated runs give the same byte buffer
    let mut rng = ria_weekend::rng::thread_rng();
    let demo = HitableSurfaceNormalSphere;
    let mut first = vec![0u8; 2 * 1 * 4];
    demo.render(&mut first, 2, 1, &mut rng);
    let mut second = vec![0u8; 2 * 1 * 4];
    demo.render(&mut second, 2, 1, &mut rng);
    assert_eq!(first, second);
    // the whole-frame path leaves the fourth byte of each pixel alone,
    // so a differently initialized buffer agrees on the colour bytes
    let mut third = vec![255u8; 2 * 1 * 4];
    demo.render(&mut third, 2, 1, &mut rng);
    for p in 0..2 {
        assert_eq!(&third[p * 4..p * 4 + 3], &first[p * 4..p * 4 + 3]);
        assert_eq!(third[p * 4 + 3], 255);
    }
}

#[test]
fn gradient_render_matches_sky() {
    // a one-pixel frame shows the quantized sky colour of the corner ray
    let mut rng = ria_weekend::rng::thread_rng();
    let mut buf = vec![0u8; 4];
    LinearInterpolationY.render(&mut buf, 1, 1, &mut rng);
    let expected = sky_color(&frame_ray(0, 0));
    assert_eq!(buf[0], to_byte(expected.x()));
    assert_eq!(buf[1], to_byte(expected.y()));
    assert_eq!(buf[2], to_byte(expected.z()));
    assert_eq!(buf[3], 0);
}

#[test]
fn demo_names() {
    assert_eq!(SimpleRectangle.name(), "simple_rectangle");
    assert_eq!(LinearGradientRectangle.name(), "linear-gradient-rectangle");
    assert_eq!(SimpleSphere.name(), "simple_sphere");
    assert_eq!(SurfaceNormalSphere.name(), "surface_normal_sphere");
    assert_eq!(HitableSphere.name(), "sphere-using-hit-table");
    assert_eq!(SimpleAntialiasing.name(), "simple-antialiasing");
    assert_eq!(DiffuseMaterials.name(), "Diffuse Materials");
    assert_eq!(Materials.name(), "materials");
    assert_eq!(PositionableCamera.name(), "positionable-camera");
    assert_eq!(FinalScene.name(), "final-scene");
    assert_eq!(PpmExample.name(), "ppm_example");
    assert_eq!(LinearInterpolationY.name(), "linear_interpolation_y");
    assert_eq!(Antialiasing.name(), "antialiasing");
    assert_eq!(HitableSurfaceNormalSphere.name(), "hit-table_surface_normal_sphere");
}

#[test]
fn demo_worlds_are_well_formed() {
    let mut rng = ria_weekend::rng::thread_rng();
    let ms = Materials.world().expect("materials scene");
    assert_eq!(ms.list.len(), 4);
    let pc = PositionableCamera.world().expect("positionable scene");
    assert_eq!(pc.list.len(), 4);
    let fs = FinalScene.world(&mut rng).expect("final scene");
    assert!(fs.list.len() >= 4);
    for s in fs.list.iter() {
        assert!(s.radius > 0);
        assert!(s.material.is_some());
    }
    let hs = HitableSphere.world().expect("two-sphere scene");
    assert_eq!(hs.list.len(), 2);
    assert_eq!(hs.list[0].radius, 500_000);
    assert_eq!(hs.list[1].radius, 100_000_000);
}

#[test]
fn sampled_demos_render() {
    // the sampled models run end to end on a small frame
    let mut rng = ria_weekend::rng::thread_rng();
    let (w, h) = (8usize, 8usize);
    let mut buf = vec![0u8; w * h * 4];
    SimpleAntialiasing.render(&mut buf, w, h, 2, &mut rng);
    DiffuseMaterials.render(&mut buf, w, h, 2, &mut rng);
    Materials.render(&mut buf, w, h, 1, &mut rng);
    PositionableCamera.render(&mut buf, w, h, 1, &mut rng);
    Antialiasing.render(&mut buf, w, h, 2, &mut rng);
    assert_eq!(buf.len(), w * h * 4);
}

#[test]
fn render_chunk_through_demo() {
    let mut rng = ria_weekend::rng::thread_rng();
    let mut chunk = Chunk {
        x: 8,
        y: 8,
        nx: 2,
        ny: 2,
        start_x: 2,
        start_y: 2,
        buffer: vec![0u8; 2 * 2 * 4],
    };
    SimpleSphere.render_chunk(&mut chunk, 1, &mut rng);
    assert_eq!(chunk.buffer.len(), 16);
    // the alpha byte of each pixel is untouched
    assert_eq!(chunk.buffer[3], 0);
    assert_eq!(chunk.buffer[7], 0);
}

#[test]
fn renderer_dimensions() {
    let mut renderer = Renderer::new(16, 8);
    assert_eq!(renderer.width, 16);
    assert_eq!(renderer.height, 8);
    renderer.update_dimensions(100, 200);
    assert_eq!(renderer.width, 16);
    assert_eq!(renderer.height, 8);
}

#[test]
fn renderer_renders_and_exports() {
    let mut rng = ria_weekend::rng::thread_rng();
    let renderer = Renderer::new(2, 1);
    let world = HitableList::new(vec![Sphere::new(Vec3::new(0, 0, -2_000_000), 500_000)]);
    let mut buf = vec![0u8; 2 * 1 * 4];
    renderer.render(ShadeMode::NormalScene, &mut buf, &world, 1, &mut rng);
    let text = renderer.ppm_text(&buf);
    let expected = format!(
        "P3\n2 1\n255\n{} {} {}\n{} {} {}\n",
        buf[0], buf[1], buf[2], buf[4], buf[5], buf[6]
    );
    assert_eq!(text, expected);
}

#[test]
fn create_sample_text() {
    assert_eq!(create_sample(1, 2), "P3\n2 1\n255\n0 0 127\n127 0 127\n");
    assert_eq!(
        create_sample(2, 2),
        "P3\n2 2\n255\n0 127 127\n127 127 127\n0 0 127\n127 0 127\n"
    );
}

#[test]
fn ppm_of_buffer_text() {
    let buf = vec![1u8, 2, 3, 255, 10, 20, 30, 0];
    assert_eq!(ppm_of_buffer(&buf, 2, 1), "P3\n2 1\n255\n1 2 3\n10 20 30\n");
}

#[test]
fn render_frame_normal_scene_pixel() {
    // a one-pixel frame of a single sphere dead ahead of the corner ray:
    // the pixel shows the quantized normal colour
    let mut rng = ria_weekend::rng::thread_rng();
    let world = HitableList::new(vec![Sphere::new(Vec3::new(-2_000_000, -1_000_000, -1_000_000), 500_000)]);
    let mut buf = vec![0u8; 4];
    render_frame(
        ShadeMode::NormalScene,
        &mut buf,
        1,
        1,
        1,
        None,
        Some(&world),
        &mut rng,
    );
    let expected = color_normal(&frame_ray(0, 0), &world, 0);
    assert_eq!(buf[0], to_byte(expected.x()));
    assert_eq!(buf[1], to_byte(expected.y()));
    assert_eq!(buf[2], to_byte(expected.z()));
}

#[test]
fn camera_construction_basis() {
    // a camera looking down -z keeps its u, v, w axes aligned with the
    // world axes
    let c = Camera::new(
        Vec3::new(0, 0, 0),
        Vec3::new(0, 0, -1_000_000),
        Vec3::new(0, SCALE, 0),
        90 * SCALE,
        2 * SCALE,
        0,
        SCALE,
    );
    assert_eq!(c.w, Vec3::new(0, 0, 1_000_000));
    assert_eq!(c.u, Vec3::new(1_000_000, 0, 0));
    assert_eq!(c.v, Vec3::new(0, 1_000_000, 0));
    assert_eq!(c.origin, Vec3::new(0, 0, 0));
    assert_eq!(c.lens_radius, 0);
}

#[test]
fn deterministic_demos_repeat_exactly() {
    // every deterministic shading model gives the same frame on repeated
    // runs
    let mut rng = ria_weekend::rng::thread_rng();
    let (w, h) = (16usize, 8usize);
    let mut a = vec![0u8; w * h * 4];
    let mut b = vec![255u8; w * h * 4];
    LinearGradientRectangle.render(&mut a, w, h, 1, &mut rng);
    LinearGradientRectangle.render(&mut b, w, h, 1, &mut rng);
    assert_eq!(a, b);
    SurfaceNormalSphere.render(&mut a, w, h, 1, &mut rng);
    SurfaceNormalSphere.render(&mut b, w, h, 1, &mut rng);
    assert_eq!(a, b);
    SimpleSphere.render(&mut a, w, h, 1, &mut rng);
    SimpleSphere.render(&mut b, w, h, 1, &mut rng);
    assert_eq!(a, b);
    HitableSphere.render(&mut a, w, h, 1, &mut rng);
    HitableSphere.render(&mut b, w, h, 1, &mut rng);
    assert_eq!(a, b);
}

#[test]
fn sampled_render_leaves_alpha_zero() {
    let mut rng = ria_weekend::rng::thread_rng();
    let (w, h) = (8usize, 8usize);
    let mut buf = vec![255u8; w * h * 4];
    DiffuseMaterials.render(&mut buf, w, h, 1, &mut rng);
    for p in 0..w * h {
        assert_eq!(buf[p * 4 + 3], 0);
    }
}

#[test]
fn whole_frame_preserves_fourth_byte() {
    // the single-rectangle renderer writes only the colour bytes; the
    // tiled renderer composites zero-initialized chunk buffers and so
    // zeroes the fourth byte
    let mut rng = ria_weekend::rng::thread_rng();
    let (w, h) = (16usize, 8usize);
    let mut frame = vec![255u8; w * h * 4];
    LinearInterpolationY.render(&mut frame, w, h, &mut rng);
    let mut tiled = vec![255u8; w * h * 4];
    LinearGradientRectangle.render(&mut tiled, w, h, 1, &mut rng);
    for p in 0..w * h {
        assert_eq!(frame[p * 4 + 3], 255);
        assert_eq!(tiled[p * 4 + 3], 0);
        assert_eq!(&frame[p * 4..p * 4 + 3], &tiled[p * 4..p * 4 + 3]);
    }
}

#[test]
fn renderer_preserves_fourth_byte() {
    let mut rng = ria_weekend::rng::thread_rng();
    let renderer = Renderer::new(2, 2);
    let world = HitableList::new(vec![Sphere::new(Vec3::new(0, 0, -2_000_000), 500_000)]);
    let mut buf = vec![255u8; 2 * 2 * 4];
    renderer.render(ShadeMode::NormalScene, &mut buf, &world, 1, &mut rng);
    for p in 0..4 {
        assert_eq!(buf[p * 4 + 3], 255);
    }
}
