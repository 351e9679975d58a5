use rand::rngs::SmallRng;
use rand::SeedableRng;
use raytracer::fixed::{Fp, SCALE};
use raytracer::image::Image;
use raytracer::materials::{
    from_local_to_world_space, random_unit_vector, reflect, refract, unit_from_candidate, Material,
    MaterialDielectric, MaterialDiffuse, MaterialDiffuseLight, MaterialMetal, PdfCosineHemisphere,
};
use raytracer::rng::{index_bound, index_of_draw, uniform_between, uniform_index, uniform_unit};
use raytracer::shapes::{Ray, RayIntersection};
use raytracer::textures::Texture;
use raytracer::vecmath::{dot, Vec3, Vec3F};

fn v(x: i32, y: i32, z: i32) -> Vec3F {
    Vec3::new(Fp::from_milli(x), Fp::from_milli(y), Fp::from_milli(z))
}

fn close(a: Vec3F, b: Vec3F, tolerance: i64) -> bool {
    (a.x.raw - b.x.raw).abs() <= tolerance
        && (a.y.raw - b.y.raw).abs() <= tolerance
        && (a.z.raw - b.z.raw).abs() <= tolerance
}

fn hit_on_floor(outward: bool) -> RayIntersection {
    RayIntersection {
        hit: true,
        t: Fp::one(),
        is_normal_outward: outward,
        hit_point: v(1000, 0, 2000),
        normal: v(0, 1000, 0),
        u: Fp::from_milli(250),
        v: Fp::from_milli(750),
    }
}

#[test]
fn mirror_image_of_a_direction() {
    assert_eq!(reflect(&v(1000, -1000, 0), &v(0, 1000, 0)), v(1000, 1000, 0));
    assert_eq!(reflect(&v(0, -2000, 0), &v(0, 1000, 0)), v(0, 2000, 0));
    assert_eq!(reflect(&v(3000, 0, 500), &v(0, 1000, 0)), v(3000, 0, 500));
}

#[test]
fn refraction_bends_towards_the_normal_in_a_denser_medium() {
    let out = refract(&v(600, -800, 0), &v(0, 1000, 0), Fp::from_milli(500));
    // Across: 0.5 * 0.6; along: -sqrt(1 - 0.09).
    assert_eq!(out.x, Fp::from_milli(300));
    assert_eq!(out.y.raw, -953_939_201);
    assert_eq!(out.z, Fp::zero());
}

#[test]
fn no_bending_between_media_of_one_index() {
    assert_eq!(refract(&v(600, -800, 0), &v(0, 1000, 0), Fp::one()), v(600, -800, 0));
    assert_eq!(refract(&v(0, 0, -1000), &v(0, 0, 1000), Fp::one()), v(0, 0, -1000));
    let normal = v(0, 0, 1000);
    for i in -8..=8 {
        for j in -8..=8 {
            let d = v(100 * i, 100 * j, -1000).normalized();
            let out = refract(&d, &normal, Fp::one());
            assert!(close(out, d, 20), "{:?} became {:?}", d, out);
        }
    }
}

#[test]
fn reflectance_between_media_of_one_index() {
    let one = Fp::one();
    assert_eq!(MaterialDielectric::reflectance(one, one), Fp::zero());
    assert_eq!(MaterialDielectric::reflectance(Fp::from_milli(500), one).raw, 31_250_000);
    assert_eq!(MaterialDielectric::reflectance(Fp::zero(), one), one);
}

#[test]
fn reflectance_of_glass() {
    let glass = Fp::from_milli(1500);
    assert_eq!(MaterialDielectric::reflectance(Fp::one(), glass).raw, 40_000_000);
    assert_eq!(MaterialDielectric::reflectance(Fp::zero(), glass), Fp::one());
    assert_eq!(MaterialDielectric::reflectance(Fp::from_milli(500), glass).raw, 70_000_000);
}

#[test]
fn dielectric_of_index_one_lets_the_ray_through() {
    let air = MaterialDielectric::new(Fp::one());
    let hit = RayIntersection { normal: v(0, 0, 1000), ..hit_on_floor(true) };
    for draw in [0, 1, SCALE / 2, SCALE - 1] {
        let ray = Ray::new(v(0, 0, 5000), v(0, 0, -1000));
        let out = air.scatter_with(&ray, &hit, Fp::from_raw(draw));
        assert_eq!(out.ray.direction, v(0, 0, -1000));
        assert_eq!(out.ray.origin, hit.hit_point);
        assert_eq!(out.albedo, v(1000, 1000, 1000));
        assert_eq!(out.probability, Fp::one());
    }
}

#[test]
fn dielectric_of_index_one_sends_a_ray_that_meets_it_head_on_straight_on() {
    let air = MaterialDielectric::new(Fp::one());
    for source in [v(1000, 2000, 3000), v(-700, 10, 4), v(0, 0, -1), v(3, -4, 12), v(577, 577, 577)] {
        let direction = source.normalized();
        for outward in [true, false] {
            let hit = RayIntersection { normal: direction.neg(), ..hit_on_floor(outward) };
            for draw in [0, 1, SCALE / 2, SCALE - 1] {
                let ray = Ray::new(v(0, 0, 5000), direction);
                let out = air.scatter_with(&ray, &hit, Fp::from_raw(draw));
                assert!(close(out.ray.direction, direction, 16));
                assert_eq!(out.ray.direction, refract(&direction, &hit.normal, Fp::one()));
            }
        }
    }
}

#[test]
fn refraction_keeps_the_length_of_short_and_of_long_directions() {
    let raw = |x: i64, y: i64, z: i64| Vec3::new(Fp::from_raw(x), Fp::from_raw(y), Fp::from_raw(z));
    let up = v(0, 0, 1000);
    let into_glass = Fp::one().div(Fp::from_milli(1500));
    assert_eq!(refract(&raw(0, 0, -20_000), &up, into_glass), raw(0, 0, -20_000));
    assert_eq!(refract(&raw(0, 0, -3), &up, into_glass), raw(0, 0, -3));
    assert_eq!(refract(&raw(12_000, 0, -16_000), &up, Fp::from_milli(500)), raw(6_000, 0, -19_078));
    assert_eq!(refract(&raw(12_000, 0, -16_000), &up, Fp::one()), raw(12_000, 0, -16_000));
    let far = |x: i32, y: i32, z: i32| Vec3::new(Fp::from_int(x), Fp::from_int(y), Fp::from_int(z));
    assert_eq!(refract(&far(120_000, 0, -160_000), &up, Fp::one()), far(120_000, 0, -160_000));
    assert_eq!(refract(&far(0, 300_000, -400_000), &up, Fp::from_milli(500)).y, Fp::from_int(150_000));
    // Glass of index one lets a short direction through as it is.
    let air = MaterialDielectric::new(Fp::one());
    let hit = RayIntersection { normal: up, ..hit_on_floor(true) };
    let out = air.scatter_with(&Ray::new(v(0, 0, 5000), raw(0, 0, -20_000)), &hit, Fp::zero());
    assert_eq!(out.ray.direction, raw(0, 0, -20_000));
    let out = air.scatter_with(&Ray::new(v(0, 0, 5000), raw(12_000, 0, -16_000)), &hit, Fp::from_raw(SCALE / 2));
    assert_eq!(out.ray.direction, raw(12_000, 0, -16_000));
}

#[test]
fn matched_indices_bend_no_ray() {
    let mut rng = SmallRng::seed_from_u64(404);
    let mut worst = 0;
    for round in 0..5000 {
        let normal = random_unit_vector(&mut rng);
        let mut direction = random_unit_vector(&mut rng);
        if round % 3 == 0 {
            // Nearly along the surface.
            direction = direction.sub(normal.scale(dot(&direction, &normal))).add(normal.scale(Fp::from_raw(-(round as i64) - 1))).normalized();
        }
        if dot(&direction, &normal).raw > 0 {
            direction = direction.neg();
        }
        let out = refract(&direction, &normal, Fp::one());
        assert!(close(out, direction, 400_000), "{:?} became {:?}", direction, out);
        let off = (out.x.raw - direction.x.raw).abs().max((out.y.raw - direction.y.raw).abs()).max((out.z.raw - direction.z.raw).abs());
        worst = worst.max(off);
        if dot(&direction, &normal).raw < -100_000_000 {
            assert!(close(out, direction, 1_000), "{:?} became {:?}", direction, out);
        }
    }
    assert!(worst > 0);
}

#[test]
fn dielectric_reflects_all_beyond_the_critical_angle() {
    let glass = MaterialDielectric::new(Fp::from_milli(1500));
    let ray = Ray::new(v(0, 1000, 0), v(800, -600, 0));
    // From inside: the ratio is the index itself, and 1.5 * 0.8 exceeds one.
    let inside = glass.scatter_with(&ray, &hit_on_floor(false), Fp::from_raw(SCALE - 1));
    assert_eq!(inside.ray.direction, v(800, 600, 0));
    // From outside the ray is refracted, unless the draw falls below the reflectance.
    let outside = glass.scatter_with(&ray, &hit_on_floor(true), Fp::from_raw(SCALE - 1));
    assert!(outside.ray.direction.y.raw < 0);
    assert!(outside.ray.direction.x.raw > 0 && outside.ray.direction.x.raw < 800_000_000);
    let reflected = glass.scatter_with(&ray, &hit_on_floor(true), Fp::zero());
    assert_eq!(reflected.ray.direction, v(800, 600, 0));
}

#[test]
fn dielectric_always_scatters() {
    let glass = Material::Dielectric(MaterialDielectric::new(Fp::from_milli(1500)));
    let mut rng = SmallRng::seed_from_u64(5);
    let ray = Ray::new(v(0, 1000, 0), v(300, -600, 100));
    for _ in 0..100 {
        let out = glass.scatter(&ray, &hit_on_floor(true), &mut rng).unwrap();
        assert_eq!(out.albedo, v(1000, 1000, 1000));
        assert_eq!(out.ray.origin, v(1000, 0, 2000));
    }
}

#[test]
fn metal_clamps_its_fuzz() {
    let albedo = v(800, 600, 200);
    assert_eq!(MaterialMetal::new(albedo, Fp::from_milli(300)).fuzz, Fp::from_milli(300));
    assert_eq!(MaterialMetal::new(albedo, Fp::from_milli(1500)).fuzz, Fp::one());
    assert_eq!(MaterialMetal::new(albedo, Fp::from_int(-3)).fuzz, Fp::from_int(-1));
    assert_eq!(MaterialMetal::new(albedo, Fp::from_int(-1)).fuzz, Fp::from_int(-1));
    assert_eq!(MaterialMetal::new(albedo, Fp::zero()).albedo, albedo);
}

#[test]
fn metal_without_fuzz_is_a_mirror() {
    let mirror = MaterialMetal::new(v(800, 600, 200), Fp::zero());
    let ray = Ray::new(v(0, 1000, 2000), v(3000, -3000, 0));
    let out = mirror.scatter_with(&ray, &hit_on_floor(true), &v(0, -1000, 0)).unwrap();
    assert!(close(out.ray.direction, Vec3::new(Fp::from_raw(707_106_781), Fp::from_raw(707_106_781), Fp::zero()), 2));
    assert_eq!(out.ray.origin, v(1000, 0, 2000));
    assert_eq!(out.albedo, v(800, 600, 200));
    assert_eq!(out.probability, Fp::one());
}

#[test]
fn metal_absorbs_what_is_blurred_into_the_surface() {
    let rough = MaterialMetal::new(v(800, 600, 200), Fp::one());
    let ray = Ray::new(v(0, 1000, 2000), v(3000, -3000, 0));
    assert!(rough.scatter_with(&ray, &hit_on_floor(true), &v(0, -1000, 0)).is_none());
    assert!(rough.scatter_with(&ray, &hit_on_floor(true), &v(0, 1000, 0)).is_some());
    // A direction along the surface is absorbed too.
    let flat = MaterialMetal::new(v(800, 600, 200), Fp::zero());
    let along = Ray::new(v(0, 0, 2000), v(1000, 0, 0));
    assert!(flat.scatter_with(&along, &hit_on_floor(true), &v(0, 1000, 0)).is_none());
}

#[test]
fn unit_vector_of_a_candidate() {
    assert_eq!(unit_from_candidate(&v(0, 0, 500)), Some(v(0, 0, 1000)));
    assert_eq!(unit_from_candidate(&v(600, 0, 800)), Some(v(600, 0, 800)));
    assert_eq!(unit_from_candidate(&v(1000, 1000, 0)), None);
    assert_eq!(unit_from_candidate(&v(0, 0, 0)), None);
    // The squared length is 9e-9, below the least that is accepted.
    assert_eq!(unit_from_candidate(&Vec3::new(Fp::from_raw(94_868), Fp::zero(), Fp::zero())), None);
    assert!(unit_from_candidate(&Vec3::new(Fp::from_raw(100_000), Fp::zero(), Fp::zero())).is_some());
}

#[test]
fn random_unit_vectors_have_unit_length_and_differ() {
    let mut rng = SmallRng::seed_from_u64(11);
    let first = random_unit_vector(&mut rng);
    let mut differ = false;
    for _ in 0..200 {
        let u = random_unit_vector(&mut rng);
        assert!((u.length().raw - SCALE).abs() < 20, "length {}", u.length().raw);
        differ = differ || u != first;
    }
    assert!(differ);
}

#[test]
fn uniform_draws_stay_in_their_range_and_differ() {
    let mut rng = SmallRng::seed_from_u64(3);
    let mut least = SCALE;
    let mut most = 0;
    for _ in 0..2000 {
        let r = uniform_unit(&mut rng).raw;
        assert!((0..SCALE).contains(&r));
        least = least.min(r);
        most = most.max(r);
    }
    assert!(least < SCALE / 20 && most > SCALE - SCALE / 20);
    let low = Fp::from_milli(-250);
    let high = Fp::from_milli(-200);
    let mut seen_above_low = false;
    for _ in 0..200 {
        let r = uniform_between(&mut rng, low, high);
        assert!(low.le(r) && r.lt(high));
        seen_above_low = seen_above_low || r != low;
        assert!(uniform_index(&mut rng, 3) < 3);
        assert_eq!(uniform_index(&mut rng, 1), 0);
    }
    assert!(seen_above_low);
    let cube = Vec3F::random_fp_range(&mut rng, Fp::from_int(-1)..Fp::one());
    assert!(cube.x.raw.abs() <= SCALE && cube.y.raw.abs() <= SCALE && cube.z.raw.abs() <= SCALE);
}

#[test]
fn frame_of_a_normal() {
    assert_eq!(from_local_to_world_space(&v(0, 0, 2000), &v(0, 0, 1000)), v(0, 0, 1000));
    assert_eq!(from_local_to_world_space(&v(0, 0, 1000), &v(1000, 0, 0)), v(-1000, 0, 0));
    assert_eq!(from_local_to_world_space(&v(0, 0, 1000), &v(0, 1000, 0)), v(0, 1000, 0));
    // A normal along x takes the y axis to help.
    assert_eq!(from_local_to_world_space(&v(1000, 0, 0), &v(0, 0, 1000)), v(1000, 0, 0));
    assert_eq!(from_local_to_world_space(&v(1000, 0, 0), &v(0, 1000, 0)), v(0, 0, 1000));
    assert_eq!(from_local_to_world_space(&v(1000, 0, 0), &v(1000, 0, 0)), v(0, -1000, 0));
    // The length of the normal does not matter.
    let short = Vec3::new(Fp::zero(), Fp::zero(), Fp::from_raw(40_000));
    assert_eq!(from_local_to_world_space(&short, &v(0, 0, 1000)), v(0, 0, 1000));
    assert_eq!(from_local_to_world_space(&short, &v(0, 0, 3000)), v(0, 0, 3000));
    assert_eq!(from_local_to_world_space(&v(0, 0, 2000), &v(0, 0, 3000)), v(0, 0, 3000));
    let n = v(300, -500, 800);
    let world = from_local_to_world_space(&n, &v(600, 0, 800));
    assert!((world.length().raw - SCALE).abs() < 20);
    assert!((dot(&world, &n.normalized()).raw - 800_000_000).abs() < 20);
}

#[test]
fn cosine_sample_for_given_numbers() {
    let pdf = PdfCosineHemisphere::new();
    let up = pdf.sample_from(Fp::zero(), Fp::zero());
    assert_eq!(up.dir, v(0, 0, 1000));
    assert_eq!(up.probability.raw, 318_309_886);
    let low = pdf.sample_from(Fp::zero(), Fp::from_milli(750));
    assert_eq!(low.dir, Vec3::new(Fp::from_raw(866_025_403), Fp::zero(), Fp::from_milli(500)));
    assert_eq!(low.probability.raw, 159_154_943);
    let side = pdf.sample_from(Fp::from_milli(250), Fp::from_milli(750));
    assert_eq!(side.dir, Vec3::new(Fp::zero(), Fp::from_raw(866_025_403), Fp::from_milli(500)));
}

#[test]
fn cosine_sample_at_the_rim_of_the_draws() {
    let pdf = PdfCosineHemisphere::new();
    let last = Fp::from_raw(SCALE - 1);
    let flat = pdf.sample_from(Fp::zero(), last);
    assert_eq!(flat.dir.z.raw, 31_622);
    assert_eq!(flat.dir.x.raw, 999_999_999);
    assert_eq!(flat.probability.raw, 10_065);
    let round = pdf.sample_from(last, last);
    assert!(round.dir.x.raw <= SCALE && round.dir.y.raw < 0 && round.dir.y.raw >= -SCALE);
}

#[test]
fn cosine_samples_follow_their_density() {
    // The height z has the density 2z on [0, 1], so it lies below a with
    // probability a * a.
    let pdf = PdfCosineHemisphere::new();
    let mut rng = SmallRng::seed_from_u64(99);
    let n = 20_000;
    let mut heights: Vec<f64> = Vec::new();
    for _ in 0..n {
        let s = pdf.gen_sample(&mut rng);
        assert!((s.dir.length().raw - SCALE).abs() < 100_000);
        assert!(s.dir.x.raw.abs() <= SCALE && s.dir.y.raw.abs() <= SCALE);
        assert!(0 < s.dir.z.raw && s.dir.z.raw <= SCALE);
        assert!(0 <= s.probability.raw && s.probability.raw <= s.dir.z.raw);
        assert_eq!(s.probability, s.dir.z.div(Fp::from_raw(3_141_592_654)));
        heights.push(s.dir.z.raw as f64 / SCALE as f64);
    }
    heights.sort_by(|a, b| a.partial_cmp(b).unwrap());
    let mut worst: f64 = 0.0;
    for (i, z) in heights.iter().enumerate() {
        let expected = z * z;
        worst = worst.max((expected - i as f64 / n as f64).abs());
        worst = worst.max((expected - (i + 1) as f64 / n as f64).abs());
    }
    assert!(worst < 0.015, "largest distance between the distributions: {}", worst);
}

#[test]
fn diffuse_scatters_round_the_normal() {
    let red = MaterialDiffuse::new_solid_color(v(700, 300, 300));
    let straight = red.scatter_with(&hit_on_floor(true), Fp::zero(), Fp::zero());
    assert_eq!(straight.ray.direction, v(0, 1000, 0));
    assert_eq!(straight.ray.origin, v(1000, 0, 2000));
    assert_eq!(straight.albedo, v(700, 300, 300));
    assert_eq!(straight.probability.raw, 318_309_886);
    let mut rng = SmallRng::seed_from_u64(17);
    for _ in 0..200 {
        let out = red.scatter(&hit_on_floor(true), &mut rng).unwrap();
        assert!(out.ray.direction.y.raw >= 0);
        assert_eq!(out.albedo, v(700, 300, 300));
        assert_eq!(out.probability, out.ray.direction.y.div(Fp::from_raw(3_141_592_654)));
    }
}

#[test]
fn diffuse_density_of_a_direction() {
    let red = MaterialDiffuse::new_solid_color(v(700, 300, 300));
    let normal = v(0, 0, 1000);
    let pdf = |dir: Vec3F| red.scattering_pdf(&normal, &Ray::new(v(0, 0, 0), dir));
    assert_eq!(pdf(v(0, 0, 2000)).raw, 318_309_886);
    assert_eq!(pdf(v(0, 0, -1000)), Fp::zero());
    assert_eq!(pdf(v(1000, 0, 0)), Fp::zero());
    assert_eq!(pdf(v(0, 3000, 4000)).raw, 254_647_908);
    // The length of the direction does not matter.
    assert_eq!(pdf(Vec3::new(Fp::zero(), Fp::zero(), Fp::from_raw(40_000))).raw, 318_309_886);
    assert_eq!(pdf(Vec3::new(Fp::zero(), Fp::from_raw(3), Fp::from_raw(4))).raw, 254_647_908);
    assert_eq!(pdf(Vec3::new(Fp::zero(), Fp::zero(), Fp::from_raw(1))).raw, 318_309_886);
}

#[test]
fn checker_material_takes_the_first_colour_for_odd_cells() {
    let checker = MaterialDiffuse::new_checker(v(200, 300, 100), v(900, 900, 900), Fp::one());
    match &checker.tex {
        Texture::Checker(tex) => {
            assert_eq!(tex.odd_color, v(200, 300, 100));
            assert_eq!(tex.even_color, v(900, 900, 900));
            assert_eq!(tex.inv_scale, Fp::one());
        }
        _ => panic!("not a checker"),
    }
    let hit = RayIntersection { hit_point: v(500, 500, 500), ..hit_on_floor(true) };
    assert_eq!(checker.scatter_with(&hit, Fp::zero(), Fp::zero()).albedo, v(900, 900, 900));
    let next = RayIntersection { hit_point: v(1500, 500, 500), ..hit_on_floor(true) };
    assert_eq!(checker.scatter_with(&next, Fp::zero(), Fp::zero()).albedo, v(200, 300, 100));
}

#[test]
fn image_material_looks_its_colour_up() {
    let mut image = Image::new(2, 2);
    image.write_pixel(0, 1, Vec3::new(255, 0, 51));
    let picture = MaterialDiffuse::from_image(image);
    // The texture's v runs upwards, the image's rows downwards.
    let hit = RayIntersection { u: Fp::from_milli(750), v: Fp::from_milli(750), ..hit_on_floor(true) };
    assert_eq!(picture.scatter_with(&hit, Fp::zero(), Fp::zero()).albedo, v(1000, 0, 200));
    let below = RayIntersection { u: Fp::from_milli(750), v: Fp::from_milli(250), ..hit_on_floor(true) };
    assert_eq!(picture.scatter_with(&below, Fp::zero(), Fp::zero()).albedo, v(0, 0, 0));
}

#[test]
fn materials_forward_to_their_kind() {
    let mut rng = SmallRng::seed_from_u64(1);
    let ray = Ray::new(v(0, 1000, 0), v(300, -600, 100));
    let hit = hit_on_floor(true);
    let lamp = Material::DiffuseLight(MaterialDiffuseLight::new(v(15_000, 15_000, 15_000)));
    let red = Material::Diffuse(MaterialDiffuse::new_solid_color(v(700, 300, 300)));
    let mirror = Material::Metal(MaterialMetal::new(v(800, 800, 800), Fp::zero()));
    assert!(lamp.scatter(&ray, &hit, &mut rng).is_none());
    assert!(red.scatter(&ray, &hit, &mut rng).is_some());
    assert_eq!(mirror.scatter(&ray, &hit, &mut rng).unwrap().albedo, v(800, 800, 800));
    assert_eq!(lamp.emit(), v(15_000, 15_000, 15_000));
    assert_eq!(red.emit(), Vec3F::zero());
    assert_eq!(mirror.emit(), Vec3F::zero());
    let up = Ray::new(v(0, 0, 0), v(0, 1000, 0));
    assert_eq!(red.scattering_pdf(&hit.normal, &up).raw, 318_309_886);
    assert_eq!(mirror.scattering_pdf(&hit.normal, &up), Fp::one());
    assert_eq!(lamp.scattering_pdf(&hit.normal, &up), Fp::one());
    let light = MaterialDiffuseLight::new(v(1000, 2000, 3000));
    assert_eq!(light.emit(Fp::one(), Fp::zero(), v(5, 6, 7)), v(1000, 2000, 3000));
}

#[test]
fn indices_are_drawn_below_their_bound() {
    assert_eq!(index_bound(1), 1);
    assert_eq!(index_bound(488), 488);
    assert_eq!(index_bound(0), 0);
    assert_eq!(index_bound(usize::MAX) as u128, (usize::MAX as u128).min(i64::MAX as u128));
    assert_eq!(index_of_draw(0), 0);
    assert_eq!(index_of_draw(487), 487);
    let mut rng = SmallRng::seed_from_u64(29);
    let mut seen = [false; 5];
    for _ in 0..200 {
        seen[uniform_index(&mut rng, 5)] = true;
    }
    assert_eq!(seen, [true; 5]);
}
