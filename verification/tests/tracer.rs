use sphere_tracer::camera::Camera;
use sphere_tracer::fx::{Fx, FX_MAX, FX_ONE};
use sphere_tracer::hittable::{HitRecord, HittableList, Sphere};
use sphere_tracer::material::{dielectric_direction, reflect, reflectance, Material};
use sphere_tracer::ray::Ray;
use sphere_tracer::render::{clamp, ray_color, render, write_color};
use sphere_tracer::rng::RandomSource;
use sphere_tracer::vec3::{cross, dot, Vec3};

fn fxi(v: i64) -> Fx {
    Fx::from_int(v)
}

fn fxr(raw: i64) -> Fx {
    Fx::from_raw(raw)
}

fn v3(x: i64, y: i64, z: i64) -> Vec3 {
    Vec3::new(fxi(x), fxi(y), fxi(z))
}

fn v3r(x: i64, y: i64, z: i64) -> Vec3 {
    Vec3::new(fxr(x), fxr(y), fxr(z))
}

#[test]
fn fx_arithmetic_is_exact_on_integers() {
    assert_eq!(fxi(3).mul(fxi(2)), fxi(6));
    assert_eq!(fxi(7).sub(fxi(10)), fxi(-3));
    assert_eq!(fxi(1).div(fxi(4)), fxr(16384));
    assert_eq!(fxi(4).sqrt(), fxi(2));
    assert_eq!(fxi(-5).neg(), fxi(5));
    assert_eq!(fxi(-5).abs(), fxi(5));
}

#[test]
fn componentwise_and_compound_vector_ops() {
    let a = v3(8, 6, 4);
    assert_eq!(a.div(v3(2, 3, 4)), v3(4, 2, 1));
    let mut b = v3(1, 2, 3);
    b.add_assign(v3(10, 10, 10));
    assert_eq!(b, v3(11, 12, 13));
    b.mul_assign(fxi(2));
    assert_eq!(b, v3(22, 24, 26));
    b.div_assign(fxi(2));
    assert_eq!(b, v3(11, 12, 13));
}

#[test]
fn fx_arithmetic_saturates() {
    let top = fxr(FX_MAX);
    assert_eq!(top.add(Fx::one()), top);
    assert_eq!(top.neg().sub(Fx::one()), top.neg());
    assert_eq!(top.mul(top), top);
}

#[test]
fn dot_is_symmetric_and_cross_antisymmetric() {
    let a = v3(1, 2, 3);
    let b = v3(-4, 5, -6);
    assert_eq!(dot(a, b), dot(b, a));
    assert_eq!(cross(a, b), cross(b, a).neg());
    assert_eq!(a.length_squared(), dot(a, a));
    let c = v3r(123, -77, 4096);
    let d = v3r(-9999, 250, 65536);
    assert_eq!(dot(c, d), dot(d, c));
    assert_eq!(cross(c, d), cross(d, c).neg());
    assert_eq!(c.length_squared(), dot(c, c));
}

#[test]
fn cross_of_axes_matches_right_hand_rule() {
    let x = v3(1, 0, 0);
    let y = v3(0, 1, 0);
    let z = v3(0, 0, 1);
    assert_eq!(cross(x, y), z);
    assert_eq!(cross(y, z), x);
    assert_eq!(cross(z, x), y);
}

#[test]
fn unit_vector_has_length_one_within_tolerance() {
    for v in [v3(3, 4, 0), v3(1, 1, 1), v3(-2, 5, 9), v3r(700, -1, 65536)] {
        let u = Vec3::unit_vector(v);
        let len = u.length();
        assert!(
            (len.raw - FX_ONE).abs() <= 4,
            "length raw {} should be close to {}",
            len.raw,
            FX_ONE
        );
    }
}

#[test]
fn random_in_unit_sphere_stays_inside() {
    let mut rng = RandomSource::from_seed(17);
    for _ in 0..2000 {
        let p = Vec3::random_in_unit_sphere(&mut rng);
        assert!(p.length_squared().raw < FX_ONE);
    }
}

#[test]
fn random_in_unit_disk_stays_inside_plane() {
    let mut rng = RandomSource::from_seed(18);
    for _ in 0..2000 {
        let p = Vec3::random_in_unit_disk(&mut rng);
        assert!(p.length_squared().raw < FX_ONE);
        assert_eq!(p.z.raw, 0);
    }
}

#[test]
fn random_unit_vector_is_normalized_within_tolerance() {
    let mut rng = RandomSource::from_seed(19);
    for _ in 0..500 {
        let u = Vec3::random_unit_vector(&mut rng);
        assert!((u.length().raw - FX_ONE).abs() <= 32);
    }
}

#[test]
fn random_range_respects_bounds() {
    let mut rng = RandomSource::from_seed(20);
    let min = fxi(-1);
    let max = fxi(1);
    for _ in 0..2000 {
        let r = rng.next_range(min, max);
        assert!(min.raw <= r.raw && r.raw < max.raw);
    }
}

#[test]
fn near_zero_detects_exact_zero_only() {
    assert!(Vec3::zero().near_zero());
    assert!(!v3r(1, 0, 0).near_zero());
    assert!(!v3(0, 0, 1).near_zero());
}

#[test]
fn ray_evaluates_at_parameter() {
    let r = Ray::new(v3(1, 2, 3), v3(0, 0, -2));
    assert_eq!(r.at(fxr(32768)), v3(1, 2, 2));
    assert_eq!(r.at(fxi(-1)), v3(1, 2, 5));
}

#[test]
fn sphere_hit_head_on_from_origin() {
    let mat = Material::lambertian(v3r(32768, 32768, 32768));
    let sphere = Sphere::new(v3(0, 0, -1), fxr(32768), mat);
    let ray = Ray::new(v3(0, 0, 0), v3(0, 0, -1));
    let mut rec = HitRecord::default();
    let hit = sphere.hit(ray, fxr(0), fxr(FX_MAX), &mut rec);
    assert!(hit);
    assert_eq!(rec.t, fxr(32768));
    assert_eq!(rec.p, v3r(0, 0, -32768));
    assert_eq!(rec.normal, v3(0, 0, 1));
    assert!(rec.front_face);
}

#[test]
fn sphere_hit_from_inside_reports_back_face() {
    let mat = Material::lambertian(v3r(32768, 32768, 32768));
    let sphere = Sphere::new(v3(0, 0, -1), fxr(32768), mat);
    let ray = Ray::new(v3(0, 0, -1), v3(0, 0, -1));
    let mut rec = HitRecord::default();
    let hit = sphere.hit(ray, fxr(66), fxr(FX_MAX), &mut rec);
    assert!(hit);
    assert!(!rec.front_face);
    // The outward normal at the hit point is (0,0,-1); stored negated.
    assert_eq!(rec.normal, v3(0, 0, 1));
}

#[test]
fn sphere_miss_leaves_record_untouched() {
    let mat = Material::lambertian(v3r(32768, 32768, 32768));
    let sphere = Sphere::new(v3(0, 0, -5), fxr(32768), mat);
    let ray = Ray::new(v3(0, 0, 0), v3(0, 1, 0));
    let mut rec = HitRecord::default();
    let before = rec;
    let hit = sphere.hit(ray, fxr(66), fxr(FX_MAX), &mut rec);
    assert!(!hit);
    assert_eq!(rec, before);
}

#[test]
fn hittable_list_returns_nearest_hit() {
    let mat = Material::lambertian(v3r(32768, 32768, 32768));
    let near = Sphere::new(v3(0, 0, -1), fxr(16384), mat);
    let far = Sphere::new(v3(0, 0, -2), fxr(16384), mat);
    let ray = Ray::new(v3(0, 0, 0), v3(0, 0, -1));

    let mut world = HittableList::new();
    world.add(far);
    world.add(near);
    let mut rec = HitRecord::default();
    assert!(world.hit(ray, fxr(66), fxr(FX_MAX), &mut rec));
    assert_eq!(rec.t, fxr(49152));

    let mut world2 = HittableList::new();
    world2.add(near);
    world2.add(far);
    let mut rec2 = HitRecord::default();
    assert!(world2.hit(ray, fxr(66), fxr(FX_MAX), &mut rec2));
    assert_eq!(rec2.t, fxr(49152));
}

#[test]
fn sphere_root_exactly_at_t_min_is_excluded() {
    // The window is open below: the entry root of this sphere lies exactly
    // at t_min, so the search falls through to the exit root.
    let mat = Material::lambertian(v3r(32768, 32768, 32768));
    let sphere = Sphere::new(v3(0, 0, -2), fxi(1), mat);
    let ray = Ray::new(v3(0, 0, 0), v3(0, 0, -1));
    let mut rec = HitRecord::default();
    let hit = sphere.hit(ray, fxi(1), fxr(FX_MAX), &mut rec);
    assert!(hit);
    assert_eq!(rec.t, fxi(3));
    assert!(!rec.front_face);
}

#[test]
fn first_object_wins_exact_intersection_ties() {
    // Two coincident spheres: the scan must keep the record (and so the
    // material) of the member inserted first.
    let red = Material::lambertian(v3r(65536, 0, 0));
    let blue = Material::lambertian(v3r(0, 0, 65536));
    let ray = Ray::new(v3(0, 0, 0), v3(0, 0, -1));

    let mut world = HittableList::new();
    world.add(Sphere::new(v3(0, 0, -1), fxr(16384), red));
    world.add(Sphere::new(v3(0, 0, -1), fxr(16384), blue));
    let mut rec = HitRecord::default();
    assert!(world.hit(ray, fxr(66), fxr(FX_MAX), &mut rec));
    assert_eq!(rec.mat, red);

    let mut world2 = HittableList::new();
    world2.add(Sphere::new(v3(0, 0, -1), fxr(16384), blue));
    world2.add(Sphere::new(v3(0, 0, -1), fxr(16384), red));
    let mut rec2 = HitRecord::default();
    assert!(world2.hit(ray, fxr(66), fxr(FX_MAX), &mut rec2));
    assert_eq!(rec2.mat, blue);
}

#[test]
fn empty_list_never_hits() {
    let world = HittableList::new();
    let ray = Ray::new(v3(0, 0, 0), v3(0, 0, -1));
    let mut rec = HitRecord::default();
    assert!(!world.hit(ray, fxr(66), fxr(FX_MAX), &mut rec));
}

#[test]
fn reflect_mirrors_about_normal() {
    let v = v3(1, -1, 0);
    let n = v3(0, 1, 0);
    assert_eq!(reflect(v, n), v3(1, 1, 0));
}

#[test]
fn reflectance_at_normal_incidence_is_schlick_r0() {
    // r0 = ((1 - 1.5) / (1 + 1.5))^2 = 0.04; in raw units 2621.
    let r = reflectance(Fx::one(), fxr(98304));
    assert_eq!(r.raw, 2621);
    assert!((r.raw as f64 / FX_ONE as f64 - 0.04).abs() < 0.001);
}

#[test]
fn lambertian_always_scatters_with_albedo() {
    let albedo = v3r(26214, 13107, 6553);
    let mat = Material::lambertian(albedo);
    let rec = HitRecord {
        p: v3(0, 0, -1),
        normal: v3(0, 0, 1),
        t: fxr(32768),
        front_face: true,
        mat,
    };
    let ray = Ray::new(v3(0, 0, 0), v3(0, 0, -1));
    let mut rng = RandomSource::from_seed(5);
    for _ in 0..100 {
        let out = mat.scatter(ray, &rec, &mut rng);
        let (att, sc) = out.expect("diffuse never absorbs");
        assert_eq!(att, albedo);
        assert_eq!(sc.origin, rec.p);
    }
}

#[test]
fn metal_with_zero_fuzz_reflects_exactly() {
    let albedo = v3r(52428, 52428, 52428);
    let mat = Material::metal(albedo, fxr(0));
    let rec = HitRecord {
        p: v3(0, 0, -1),
        normal: v3(0, 1, 0),
        t: fxr(32768),
        front_face: true,
        mat,
    };
    let dir = v3(1, -1, 0);
    let ray = Ray::new(v3(-1, 1, -1), dir);
    let mut rng = RandomSource::from_seed(6);
    let out = mat.scatter(ray, &rec, &mut rng);
    let (att, sc) = out.expect("reflection points away from the surface");
    assert_eq!(att, albedo);
    assert_eq!(sc.direction, reflect(Vec3::unit_vector(dir), rec.normal));
    assert!(dot(sc.direction, rec.normal).raw > 0);
}

#[test]
fn metal_absorbs_grazing_reflection_into_surface() {
    let mat = Material::metal(v3r(52428, 52428, 52428), Fx::one());
    let rec = HitRecord {
        p: v3(0, 0, 0),
        normal: v3(0, 1, 0),
        t: fxr(66),
        front_face: true,
        mat,
    };
    // Incoming parallel to the surface: the fuzzed reflection frequently
    // dips below it, which must be reported as absorption, never as a
    // scattered ray into the surface.
    let ray = Ray::new(v3(-1, 0, 0), v3(1, 0, 0));
    let mut rng = RandomSource::from_seed(7);
    let mut absorbed = 0;
    for _ in 0..200 {
        match mat.scatter(ray, &rec, &mut rng) {
            Some((_, sc)) => assert!(dot(sc.direction, rec.normal).raw > 0),
            None => absorbed += 1,
        }
    }
    assert!(absorbed > 0);
}

#[test]
fn dielectric_near_perpendicular_refracts_straight_through() {
    // ir = 1.5, front-face hit, cos ~ 1: no total internal reflection, and
    // the refraction of a perpendicular ray passes straight through.  The
    // reflect branch is taken only on a draw below ~0.04; a twin generator
    // with the same seed tells which branch the draw picks.
    let mat = Material::dielectric(fxr(98304));
    let rec = HitRecord {
        p: v3(0, 0, -1),
        normal: v3(0, 0, 1),
        t: fxr(65536),
        front_face: true,
        mat,
    };
    let dir = v3(0, 0, -1);
    let ray = Ray::new(v3(0, 0, 0), dir);
    let mut refracted = 0;
    for seed in 0..50u64 {
        let mut twin = RandomSource::from_seed(seed);
        let draw = twin.next_unit();
        let mut rng = RandomSource::from_seed(seed);
        let (att, sc) = mat.scatter(ray, &rec, &mut rng).expect("dielectric always scatters");
        assert_eq!(att, v3(1, 1, 1));
        if draw.raw >= 2621 {
            assert_eq!(sc.direction, v3(0, 0, -1));
            refracted += 1;
        } else {
            assert_eq!(sc.direction, reflect(dir, rec.normal));
        }
    }
    assert!(refracted > 40, "refraction should dominate at cos ~ 1");
}

#[test]
fn dielectric_direction_follows_the_draw() {
    // ir = 1.5 entering: ratio ~ 1/1.5, reflectance at cos = 1 is raw 2621.
    // A draw below it reflects, a draw at or above it refracts straight
    // through.
    let unit = v3(0, 0, -1);
    let normal = v3(0, 0, 1);
    let ratio = Fx::one().div(fxr(98304));
    let reflected = dielectric_direction(unit, normal, ratio, fxr(0));
    assert_eq!(reflected, v3(0, 0, 1));
    let refracted = dielectric_direction(unit, normal, ratio, fxr(2621));
    assert_eq!(refracted, v3(0, 0, -1));
}

#[test]
fn background_color_stays_in_unit_range_for_short_directions() {
    // A short direction normalizes slightly long; the blend parameter is
    // clamped, so every channel still lies in [0, 1].
    let world = HittableList::new();
    let mut rng = RandomSource::from_seed(2);
    for dir in [v3r(0, -511, 0), v3r(0, 511, 0), v3r(301, -302, 303)] {
        let c = ray_color(Ray::new(v3(0, 0, 0), dir), &world, 10, &mut rng);
        for ch in [c.x, c.y, c.z] {
            assert!(0 <= ch.raw && ch.raw <= FX_ONE);
        }
    }
}

#[test]
fn write_color_handles_large_sample_counts() {
    // Averaging divides by the sample count directly, so large counts do
    // not underflow the scale: 50000 samples summing to 50000.0 average
    // to 1.0 and quantize to 255.
    let sum = Vec3::new(fxi(50000), fxi(12500), fxi(0));
    let rgb = write_color(sum, 50000);
    assert_eq!(rgb, (255, 128, 0));
}

#[test]
fn ray_color_with_depth_zero_is_black() {
    let world = HittableList::new();
    let mut rng = RandomSource::from_seed(1);
    let c = ray_color(Ray::new(v3(3, -2, 8), v3(0, 1, 0)), &world, 0, &mut rng);
    assert_eq!(c, v3(0, 0, 0));

    let mut scene = HittableList::new();
    scene.add(Sphere::new(v3(0, 0, -1), fxr(32768), Material::dielectric(fxr(98304))));
    let c2 = ray_color(Ray::new(v3(0, 0, 0), v3(0, 0, -1)), &scene, 0, &mut rng);
    assert_eq!(c2, v3(0, 0, 0));
}

#[test]
fn ray_color_attenuates_bounce_by_albedo() {
    // A zero-fuzz mirror facing the ray head-on reflects it straight back
    // into the sky, so the result is exactly albedo times the background
    // of the reflected direction.
    let albedo = v3r(52428, 52428, 52428);
    let mut scene = HittableList::new();
    scene.add(Sphere::new(v3(0, 0, -1), fxr(32768), Material::metal(albedo, fxr(0))));
    let mut rng = RandomSource::from_seed(11);
    let c = ray_color(Ray::new(v3(0, 0, 0), v3(0, 0, -1)), &scene, 2, &mut rng);
    let empty = HittableList::new();
    let bg = ray_color(Ray::new(v3(0, 0, 0), v3(0, 0, 1)), &empty, 1, &mut rng);
    assert_eq!(c, albedo.mul(bg));
}

#[test]
fn ray_color_exhausted_bounce_budget_yields_black_product() {
    // With depth 1 a diffuse hit scatters, the recursive call bottoms out
    // at depth 0 with black, and the attenuated product is black.
    let mut scene = HittableList::new();
    scene.add(Sphere::new(v3(0, 0, -1), fxr(32768), Material::lambertian(v3r(32768, 32768, 32768))));
    let mut rng = RandomSource::from_seed(12);
    for _ in 0..50 {
        let c = ray_color(Ray::new(v3(0, 0, 0), v3(0, 0, -1)), &scene, 1, &mut rng);
        assert_eq!(c, v3(0, 0, 0));
    }
}

#[test]
fn ray_color_empty_scene_straight_up_is_sky_blue() {
    let world = HittableList::new();
    let mut rng = RandomSource::from_seed(1);
    let c = ray_color(Ray::new(v3(0, 0, 0), v3(0, 1, 0)), &world, 10, &mut rng);
    assert_eq!(c, v3r(32768, 45875, 65536));
}

#[test]
fn ray_color_empty_scene_horizontal_is_mid_gradient() {
    let world = HittableList::new();
    let mut rng = RandomSource::from_seed(1);
    // Horizontal direction: t = 1/2, halfway between white and sky blue.
    let c = ray_color(Ray::new(v3(0, 0, 0), v3(1, 0, 0)), &world, 10, &mut rng);
    assert_eq!(c, v3r(49152, 55705, 65536));
}

#[test]
fn clamp_keeps_value_in_range() {
    assert_eq!(clamp(fxi(5), fxi(0), fxi(1)), fxi(1));
    assert_eq!(clamp(fxi(-5), fxi(0), fxi(1)), fxi(0));
    assert_eq!(clamp(fxr(300), fxi(0), fxi(1)), fxr(300));
}

#[test]
fn write_color_averages_gamma_corrects_and_quantizes() {
    // Sum over 2 samples: (2.0, 0.5, 0): averaged (1.0, 0.25, 0), gamma
    // (1.0, 0.5, 0), clamped at 0.999, scaled to (255, 128, 0).
    let rgb = write_color(v3r(131072, 32768, 0), 2);
    assert_eq!(rgb, (255, 128, 0));
}

#[test]
fn camera_ray_starts_at_origin_without_aperture() {
    let cam = Camera::new(
        v3(0, 0, 0),
        v3(0, 0, -1),
        v3(0, 1, 0),
        fxi(120),
        Fx::one(),
        fxr(0),
        Fx::one(),
    );
    let mut rng = RandomSource::from_seed(3);
    let r = cam.get_ray(fxr(32768), fxr(32768), &mut rng);
    assert_eq!(r.origin, v3(0, 0, 0));
    assert!(r.direction.z.raw < 0, "the camera looks down -z");
}

#[test]
fn checked_camera_constructor_screens_degenerate_parameters() {
    let ok = Camera::try_new(
        v3(13, 2, 3),
        v3(0, 0, 0),
        v3(0, 1, 0),
        fxi(20),
        Fx::one(),
        fxr(0),
        fxi(10),
    );
    assert!(ok.is_some());
    // Look-from equal to look-at.
    let coincident = Camera::try_new(
        v3(0, 0, 0),
        v3(0, 0, 0),
        v3(0, 1, 0),
        fxi(20),
        Fx::one(),
        fxr(0),
        Fx::one(),
    );
    assert!(coincident.is_none());
    // Field of view outside (0, 180).
    let wide = Camera::try_new(
        v3(0, 0, 0),
        v3(0, 0, -1),
        v3(0, 1, 0),
        fxi(180),
        Fx::one(),
        fxr(0),
        Fx::one(),
    );
    assert!(wide.is_none());
    // Up vector parallel to the view direction.
    let parallel = Camera::try_new(
        v3(0, 0, 0),
        v3(0, 0, -1),
        v3(0, 0, 1),
        fxi(20),
        Fx::one(),
        fxr(0),
        Fx::one(),
    );
    assert!(parallel.is_none());
}

#[test]
fn render_is_deterministic_per_seed_and_sized() {
    let gray = Material::lambertian(v3r(32768, 32768, 32768));
    let mut world = HittableList::new();
    world.add(Sphere::new(v3(0, -1000, 0), fxi(1000), gray));
    world.add(Sphere::new(v3(0, 1, 0), fxi(1), Material::lambertian(v3r(26214, 13107, 6553))));
    let cam = Camera::new(
        v3(13, 2, 3),
        v3(0, 0, 0),
        v3(0, 1, 0),
        fxi(20),
        fxr(116508),
        fxr(6553),
        fxi(10),
    );
    let mut rng1 = RandomSource::from_seed(42);
    let img1 = render(&world, &cam, 20, 10, 2, 5, &mut rng1);
    let mut rng2 = RandomSource::from_seed(42);
    let img2 = render(&world, &cam, 20, 10, 2, 5, &mut rng2);
    assert_eq!(img1.len(), 200);
    assert_eq!(img1, img2);

    let mut rng3 = RandomSource::from_seed(43);
    let img3 = render(&world, &cam, 20, 10, 2, 5, &mut rng3);
    assert_eq!(img3.len(), 200);
}

#[test]
fn set_face_normal_orients_against_the_ray() {
    let mut rec = HitRecord::default();
    let outward = v3(0, 0, 1);
    rec.set_face_normal(Ray::new(v3(0, 0, 0), v3(0, 0, -1)), outward);
    assert!(rec.front_face);
    assert_eq!(rec.normal, outward);
    rec.set_face_normal(Ray::new(v3(0, 0, 0), v3(0, 0, 1)), outward);
    assert!(!rec.front_face);
    assert_eq!(rec.normal, outward.neg());
}
