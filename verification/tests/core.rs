use ria_weekend::fixed::{fx_add, fx_div, fx_mul, fx_sqrt, SCALE};
use ria_weekend::hitable::{HitRecord, HitableList};
use ria_weekend::material::{
    random_point_in_unit_sphere, reflect, refract, schlick, Dielectric, Lambertian, Material,
    Metal,
};
use ria_weekend::ray::Ray;
use ria_weekend::sphere::Sphere;
use ria_weekend::vec3::Vec3;

#[test]
fn fixed_point_arithmetic() {
    assert_eq!(fx_mul(500_000, 500_000), 250_000);
    assert_eq!(fx_mul(-1_500_000, 500_000), -750_000);
    assert_eq!(fx_mul(2_000_000, 3_000_000), 6_000_000);
    assert_eq!(fx_div(1_000_000, 3_000_000), 333_333);
    assert_eq!(fx_div(-1_000_000, 3_000_000), -333_333);
    assert_eq!(fx_div(7, 0), 0);
    assert_eq!(fx_sqrt(1_000_000), 1_000_000);
    assert_eq!(fx_sqrt(2_000_000), 1_414_213);
    assert_eq!(fx_sqrt(-4), 0);
    assert_eq!(fx_add(i64::MAX, 1), i64::MAX);
    assert_eq!(fx_add(250_000, 250_000), 500_000);
}

#[test]
fn vec3_test() {
    let v = Vec3::new(500_000, 600_000, 800_000);
    let q = Vec3::new(400_000, 200_000, 100_000);
    assert_eq!(v.x(), 500_000);
    assert_eq!(v.y(), 600_000);
    assert_eq!(v.z(), 800_000);
    assert_eq!(v.r(), 500_000);
    assert_eq!(v.g(), 600_000);
    assert_eq!(v.b(), 800_000);
    assert_eq!(v.sq_len(), 1_250_000);
    assert_eq!(v.length(), 1_118_033);
    assert_eq!(v.dot(&q), 400_000);
    assert_eq!(v.cross(&q), Vec3::new(-100_000, 270_000, -140_000));
    assert_eq!(v.unit_vector(), Vec3::new(447_213, 536_656, 715_542));
    assert_eq!(v.add(&q), Vec3::new(900_000, 800_000, 900_000));
    assert_eq!(v.sub(&q), Vec3::new(100_000, 400_000, 700_000));
    assert_eq!(v.mul(&q), Vec3::new(200_000, 120_000, 80_000));
    assert_eq!(v.div(&q), Vec3::new(1_250_000, 3_000_000, 8_000_000));
    assert_eq!(v.neg(), Vec3::new(-500_000, -600_000, -800_000));
    let mut u = v;
    u.make_unit_vector();
    assert_eq!(u, v.unit_vector());
}

#[test]
fn ray_point_evaluation() {
    let r = Ray::new(Vec3::new(1_000_000, 0, 0), Vec3::new(0, 2_000_000, 0));
    assert_eq!(r.origin(), Vec3::new(1_000_000, 0, 0));
    assert_eq!(r.direction(), Vec3::new(0, 2_000_000, 0));
    assert_eq!(
        r.point_at_parameter(500_000),
        Vec3::new(1_000_000, 1_000_000, 0)
    );
}

#[test]
fn sphere_hit_toward_center() {
    // a ray from the origin aimed straight at the sphere's center
    let s = Sphere::new(Vec3::new(0, 0, -2_000_000), 500_000);
    let r = Ray::new(Vec3::new(0, 0, 0), Vec3::new(0, 0, -1_000_000));
    let hit = s.hit(&r, 0, i64::MAX).expect("ray toward center must hit");
    assert!(hit.t > 0);
    assert_eq!(hit.t, 1_500_000);
    assert_eq!(hit.p, Vec3::new(0, 0, -1_500_000));
    // the normal at the near intersection is parallel to the ray
    assert_eq!(hit.normal, Vec3::new(0, 0, 1_000_000));
}

#[test]
fn sphere_miss_with_offset_beyond_radius() {
    let s = Sphere::new(Vec3::new(0, 0, -2_000_000), 500_000);
    let r = Ray::new(Vec3::new(2_000_000, 0, 0), Vec3::new(0, 0, -1_000_000));
    assert!(s.hit(&r, 0, i64::MAX).is_none());
}

#[test]
fn sphere_hit_round_trip() {
    // the hit point is the ray evaluated at the hit parameter, exactly
    let s = Sphere::new(Vec3::new(300_000, -200_000, -3_000_000), 700_000);
    let r = Ray::new(Vec3::new(0, 100_000, 0), Vec3::new(100_000, -100_000, -1_000_000));
    let hit = s.hit(&r, 0, i64::MAX).expect("must hit");
    assert_eq!(r.point_at_parameter(hit.t), hit.p);
}

#[test]
fn sphere_normal_near_unit_length() {
    let s = Sphere::new(Vec3::new(300_000, -200_000, -3_000_000), 700_000);
    let r = Ray::new(Vec3::new(0, 100_000, 0), Vec3::new(100_000, -100_000, -1_000_000));
    let hit = s.hit(&r, 0, i64::MAX).expect("must hit");
    let sq = hit.normal.sq_len();
    assert!((sq - SCALE).abs() <= 5_000, "normal square length {sq}");
    // head-on the normal is exactly unit length
    let head_on = Sphere::new(Vec3::new(0, 0, -2_000_000), 500_000)
        .hit(&Ray::new(Vec3::new(0, 0, 0), Vec3::new(0, 0, -1_000_000)), 0, i64::MAX)
        .unwrap();
    assert_eq!(head_on.normal.sq_len(), SCALE);
}

#[test]
fn sphere_hit_window() {
    let s = Sphere::new(Vec3::new(0, 0, -2_000_000), 500_000);
    let r = Ray::new(Vec3::new(0, 0, 0), Vec3::new(0, 0, -1_000_000));
    // near root at 1.5, far root at 2.5: a window past the near root
    // accepts the far one
    let far = s.hit(&r, 2_000_000, i64::MAX).expect("far root in window");
    assert_eq!(far.t, 2_500_000);
    // a window containing neither root rejects
    assert!(s.hit(&r, 0, 1_000_000).is_none());
    assert!(s.hit(&r, 2_600_000, i64::MAX).is_none());
}

#[test]
fn hitable_list_returns_nearest() {
    let near = Sphere::with_material(
        Vec3::new(0, 0, -2_000_000),
        500_000,
        Material::Lambertian(Lambertian::new(Vec3::new(100_000, 0, 0))),
    );
    let far = Sphere::with_material(
        Vec3::new(0, 0, -5_000_000),
        500_000,
        Material::Lambertian(Lambertian::new(Vec3::new(0, 100_000, 0))),
    );
    let world = HitableList::new(vec![far, near]);
    let hit = world
        .hit(&Ray::new(Vec3::new(0, 0, 0), Vec3::new(0, 0, -1_000_000)), 0, i64::MAX)
        .expect("must hit");
    assert_eq!(hit.t, 1_500_000);
    assert_eq!(
        hit.material,
        Some(Material::Lambertian(Lambertian::new(Vec3::new(100_000, 0, 0))))
    );
    let near2 = Sphere::with_material(
        Vec3::new(0, 0, -2_000_000),
        500_000,
        Material::Lambertian(Lambertian::new(Vec3::new(0, 0, 100_000))),
    );
    let far2 = Sphere::with_material(
        Vec3::new(0, 0, -5_000_000),
        500_000,
        Material::Lambertian(Lambertian::new(Vec3::new(0, 100_000, 0))),
    );
    // the other insertion order yields the same nearest hit
    let world2 = HitableList::new(vec![near2, far2]);
    let hit2 = world2
        .hit(&Ray::new(Vec3::new(0, 0, 0), Vec3::new(0, 0, -1_000_000)), 0, i64::MAX)
        .expect("must hit");
    assert_eq!(hit2.t, 1_500_000);
    assert_eq!(
        hit2.material,
        Some(Material::Lambertian(Lambertian::new(Vec3::new(0, 0, 100_000))))
    );
}

#[test]
fn hitable_list_tie_keeps_first() {
    // two identical spheres: a later equal hit does not replace the
    // earlier one, since only a strictly nearer hit is accepted
    let a = Sphere::with_material(
        Vec3::new(0, 0, -2_000_000),
        500_000,
        Material::Lambertian(Lambertian::new(Vec3::new(SCALE, 0, 0))),
    );
    let b = Sphere::with_material(
        Vec3::new(0, 0, -2_000_000),
        500_000,
        Material::Lambertian(Lambertian::new(Vec3::new(0, SCALE, 0))),
    );
    let world = HitableList::new(vec![a, b]);
    let hit = world
        .hit(&Ray::new(Vec3::new(0, 0, 0), Vec3::new(0, 0, -1_000_000)), 0, i64::MAX)
        .expect("must hit");
    assert_eq!(
        hit.material,
        Some(Material::Lambertian(Lambertian::new(Vec3::new(SCALE, 0, 0))))
    );
}

#[test]
fn lambertian_attenuation_is_albedo() {
    let mut rng = ria_weekend::rng::thread_rng();
    let m = Lambertian::new(Vec3::new(800_000, 300_000, 300_000));
    let hit = HitRecord {
        t: 1_500_000,
        p: Vec3::new(0, 0, -1_500_000),
        normal: Vec3::new(0, 0, 1_000_000),
        material: None,
    };
    let ray = Ray::new(Vec3::new(0, 0, 0), Vec3::new(0, 0, -1_000_000));
    for _ in 0..32 {
        let (attenuation, scattered) = m.scatter(&ray, &hit, &mut rng);
        assert_eq!(attenuation, Vec3::new(800_000, 300_000, 300_000));
        assert!(attenuation.x() >= 0 && attenuation.x() <= SCALE);
        assert!(attenuation.y() >= 0 && attenuation.y() <= SCALE);
        assert!(attenuation.z() >= 0 && attenuation.z() <= SCALE);
        let s = scattered.expect("diffuse always scatters");
        assert_eq!(s.origin(), hit.p);
    }
}

#[test]
fn metal_mirror_reflection_with_zero_fuzz() {
    let mut rng = ria_weekend::rng::thread_rng();
    let m = Metal::new(Vec3::new(800_000, 800_000, 800_000));
    // a head-on hit along the normal
    let hit = HitRecord {
        t: 1_500_000,
        p: Vec3::new(0, 0, -1_500_000),
        normal: Vec3::new(0, 0, 1_000_000),
        material: None,
    };
    let ray = Ray::new(Vec3::new(0, 0, 0), Vec3::new(0, 0, -1_000_000));
    let (attenuation, scattered) = m.scatter(&ray, &hit, &mut rng);
    assert_eq!(attenuation, Vec3::new(800_000, 800_000, 800_000));
    let s = scattered.expect("head-on reflection points out of the surface");
    // the exact mirror of the incoming unit direction, with zero deviation
    assert_eq!(s.direction(), Vec3::new(0, 0, 1_000_000));
    assert_eq!(s.origin(), hit.p);
    // the raw reflection law on vectors
    assert_eq!(
        reflect(Vec3::new(0, 0, -1_000_000), Vec3::new(0, 0, 1_000_000)),
        Vec3::new(0, 0, 1_000_000)
    );
}

#[test]
fn metal_absorbs_inward_reflection() {
    let mut rng = ria_weekend::rng::thread_rng();
    let m = Metal::new(Vec3::new(800_000, 800_000, 800_000));
    // a hit whose normal points along the incoming ray: the mirrored
    // direction points into the surface and the ray is absorbed
    let hit = HitRecord {
        t: 1_500_000,
        p: Vec3::new(0, 0, -1_500_000),
        normal: Vec3::new(0, 0, -1_000_000),
        material: None,
    };
    let ray = Ray::new(Vec3::new(0, 0, 0), Vec3::new(0, 0, -1_000_000));
    let (_, scattered) = m.scatter(&ray, &hit, &mut rng);
    assert!(scattered.is_none());
}

#[test]
fn refraction_straight_through() {
    // at normal incidence the refracted ray continues straight
    let refracted = refract(
        Vec3::new(0, 0, -1_000_000),
        Vec3::new(0, 0, 1_000_000),
        666_666,
    )
    .expect("normal incidence refracts");
    assert_eq!(refracted, Vec3::new(0, 0, -1_000_000));
}

#[test]
fn dielectric_total_internal_reflection() {
    let mut rng = ria_weekend::rng::thread_rng();
    let d = Dielectric::new(1_500_000);
    // grazing incidence from inside the glass, beyond the critical angle
    let hit = HitRecord {
        t: 1_000_000,
        p: Vec3::new(0, 0, 0),
        normal: Vec3::new(0, 0, 1_000_000),
        material: None,
    };
    let ray = Ray::new(Vec3::new(-1_000_000, 0, -100_000), Vec3::new(1_000_000, 0, 100_000));
    // the refraction attempt reports total internal reflection
    assert!(refract(
        Vec3::new(1_000_000, 0, 100_000),
        Vec3::new(0, 0, -1_000_000),
        1_500_000
    )
    .is_none());
    for _ in 0..32 {
        let (attenuation, scattered) = d.scatter(&ray, &hit, &mut rng);
        // glass absorbs nothing
        assert_eq!(attenuation, Vec3::new(SCALE, SCALE, SCALE));
        let s = scattered.expect("the dielectric always scatters");
        // every draw reflects: no refracted ray is ever produced
        assert_eq!(s.direction(), Vec3::new(1_000_000, 0, -100_000));
    }
}

#[test]
fn schlick_at_normal_incidence() {
    // cos = 1: reflectance reduces to r0 = ((1 - n) / (1 + n))^2 = 0.04
    assert_eq!(schlick(1_000_000, 1_500_000), 40_000);
}

#[test]
fn random_point_sampling_stays_in_ball() {
    let mut rng = ria_weekend::rng::thread_rng();
    for _ in 0..256 {
        let p = random_point_in_unit_sphere(&mut rng);
        assert!(p.sq_len() < SCALE);
        assert!(p.x().abs() <= SCALE && p.y().abs() <= SCALE && p.z().abs() <= SCALE);
    }
}

#[test]
fn metal_fuzz_is_clamped() {
    // the fuzz parameter is clamped to [0, 1]
    let albedo = Vec3::new(800_000, 800_000, 800_000);
    assert_eq!(Metal::with_fuzz(albedo, 2_000_000).fuzz, SCALE);
    assert_eq!(Metal::with_fuzz(albedo, -300_000).fuzz, 0);
    assert_eq!(Metal::with_fuzz(albedo, 300_000).fuzz, 300_000);
    assert_eq!(Metal::new(albedo).fuzz, 0);
}
