use rand::rngs::SmallRng;
use rand::SeedableRng;
use raytracer::fixed::{Fp, SCALE};
use raytracer::image::Image;
use raytracer::materials::{
    Material, MaterialDielectric, MaterialDiffuse, MaterialDiffuseLight, MaterialMetal,
};
use raytracer::presets::create_box_quads;
use raytracer::scene::{ScatterResult, Scene, TRACE_MAX_DEPTH};
use raytracer::shapes::{Quad, Ray, RayIntersection, Shape, Sphere};
use raytracer::textures::Texture;
use raytracer::vecmath::{Vec3, Vec3F};

fn v(x: i32, y: i32, z: i32) -> Vec3F {
    Vec3::new(Fp::from_milli(x), Fp::from_milli(y), Fp::from_milli(z))
}

fn scene_of(material: Material, sky: bool) -> Scene {
    Scene {
        materials: vec![material],
        shapes: vec![Shape::Sphere(Sphere::new(v(0, 0, -3000), Fp::one(), 0))],
        lights: Vec::new(),
        is_background_sky: sky,
    }
}

fn lamp() -> Material {
    Material::DiffuseLight(MaterialDiffuseLight::new(v(4000, 5000, 6000)))
}

fn ahead() -> Ray {
    Ray::new(v(0, 0, 0), v(0, 0, -1000))
}

#[test]
fn sky_goes_from_white_to_blue() {
    let scene = Scene::one_sphere();
    let mut rng = SmallRng::seed_from_u64(1);
    let mut sky = |dir: Vec3F| scene.trace(&Ray::new(v(0, 0, 0), dir), &mut rng, 0);
    assert_eq!(sky(v(0, 1000, 0)), v(500, 700, 1000));
    assert_eq!(sky(v(0, -7000, 0)), v(1000, 1000, 1000));
    assert_eq!(sky(v(1000, 0, 0)), v(750, 850, 1000));
    assert_eq!(sky(v(0, 3000, 4000)), v(600, 760, 1000));
    // The length of the direction does not matter.
    assert_eq!(sky(Vec3::new(Fp::zero(), Fp::from_raw(3), Fp::from_raw(4))), v(600, 760, 1000));
    assert_eq!(sky(Vec3::new(Fp::zero(), Fp::from_raw(40_000), Fp::zero())), v(500, 700, 1000));
    assert_eq!(scene.background(&Ray::new(v(0, 0, 0), v(-3000, 0, 0))), v(750, 850, 1000));
}

#[test]
fn no_ray_carries_more_than_the_sky_gives() {
    let mut rng = SmallRng::seed_from_u64(5);
    let in_unit = |c: Vec3F| [c.x.raw, c.y.raw, c.z.raw].iter().all(|r| (0..=SCALE).contains(r));
    for scene in [Scene::one_sphere(), Scene::two_spheres(), Scene::three_spheres_metal(), Scene::three_spheres_hollow_glass(), Scene::quads_example()] {
        for i in -6..=6 {
            for j in -6..=6 {
                let ray = Ray::new(v(0, 0, 2000), Vec3::new(Fp::from_raw(i * 70), Fp::from_raw(j * 70 + 1), Fp::from_raw(-400)));
                assert!(in_unit(scene.trace(&ray, &mut rng, 0)));
                assert!(in_unit(scene.background(&ray)));
            }
        }
    }
    let scene = Scene::one_sphere();
    for _ in 0..200 {
        let seen = scene.trace(&Ray::new(v(0, 0, 0), v(0, 0, -1000)), &mut rng, 0);
        assert!(seen.x.raw <= 700_000_000 && seen.y.raw <= 300_000_000 && seen.z.raw <= 300_000_000);
        let sky = scene.trace(&Ray::new(v(0, 0, 0), v(1000, 300, -200)), &mut rng, 0);
        assert!(seen.y.raw < sky.y.raw && seen.z.raw < sky.z.raw);
        assert_eq!(sky.z, Fp::one());
    }
}

#[test]
fn black_background() {
    let scene = scene_of(lamp(), false);
    let mut rng = SmallRng::seed_from_u64(1);
    assert_eq!(scene.trace(&Ray::new(v(0, 0, 0), v(0, 1000, 0)), &mut rng, 0), Vec3F::zero());
    assert_eq!(scene.background(&ahead()), Vec3F::zero());
}

#[test]
fn a_lamp_is_seen_as_it_shines() {
    let scene = scene_of(lamp(), true);
    let mut rng = SmallRng::seed_from_u64(1);
    assert_eq!(scene.trace(&ahead(), &mut rng, 0), v(4000, 5000, 6000));
    assert_eq!(scene.trace(&ahead(), &mut rng, TRACE_MAX_DEPTH), v(4000, 5000, 6000));
}

#[test]
fn paths_are_cut_off_beyond_the_greatest_depth() {
    let scene = scene_of(lamp(), true);
    let mut rng = SmallRng::seed_from_u64(1);
    assert_eq!(TRACE_MAX_DEPTH, 50);
    assert_eq!(scene.trace(&ahead(), &mut rng, 51), Vec3F::zero());
    assert_eq!(scene.trace(&ahead(), &mut rng, u32::MAX), Vec3F::zero());
    assert_eq!(scene.trace(&Ray::new(v(0, 0, 0), v(0, 1000, 0)), &mut rng, 51), Vec3F::zero());
    assert_eq!(scene.trace(&Ray::new(v(0, 0, 0), v(0, 1000, 0)), &mut rng, 50), v(500, 700, 1000));
}

#[test]
fn a_mirror_shows_the_sky_in_its_colour() {
    let mirror = Material::Metal(MaterialMetal::new(v(800, 800, 800), Fp::zero()));
    let scene = scene_of(mirror, true);
    let mut rng = SmallRng::seed_from_u64(1);
    assert_eq!(scene.trace(&ahead(), &mut rng, 0), v(600, 680, 800));
    // At the last depth the reflected ray is cut off.
    assert_eq!(scene.trace(&ahead(), &mut rng, 50), Vec3F::zero());
}

#[test]
fn glass_of_index_one_is_not_seen() {
    let scene = scene_of(Material::Dielectric(MaterialDielectric::new(Fp::one())), true);
    let mut rng = SmallRng::seed_from_u64(1);
    assert_eq!(scene.trace(&ahead(), &mut rng, 0), v(750, 850, 1000));
}

#[test]
fn without_light_all_is_black() {
    let mut scenes = vec![
        Scene::three_spheres_metal(),
        Scene::three_spheres_hollow_glass(),
        Scene::quads_example(),
        scene_of(Material::Diffuse(MaterialDiffuse::new_solid_color(v(700, 300, 300))), false),
    ];
    let mut rng = SmallRng::seed_from_u64(8);
    for scene in scenes.iter_mut() {
        scene.is_background_sky = false;
        for i in -5..=5 {
            for j in -5..=5 {
                let ray = Ray::new(v(0, 0, 3000), v(200 * i, 200 * j, -1000));
                for depth in [0, 1, 49, 50, 51] {
                    assert_eq!(scene.trace(&ray, &mut rng, depth), Vec3F::zero());
                }
            }
        }
    }
}

#[test]
fn radiance_that_leaves_a_hit() {
    let emission = v(100, 200, 300);
    let incoming = v(1000, 2000, 500);
    let weighted = |skip_pdf: bool| {
        Some(ScatterResult {
            ray: ahead(),
            albedo: v(500, 500, 1000),
            probability: Fp::one(),
            skip_pdf,
        })
    };
    let fifth = Fp::from_milli(200);
    let half = Fp::from_milli(500);
    assert_eq!(Scene::shade(emission, &None, incoming, fifth, half), emission);
    assert_eq!(Scene::shade(emission, &weighted(true), incoming, fifth, half), v(600, 1200, 800));
    assert_eq!(Scene::shade(emission, &weighted(false), incoming, fifth, half), v(300, 600, 500));
    // A direction that is never drawn gives the largest radiance.
    let never = Scene::shade(emission, &weighted(false), incoming, fifth, Fp::zero());
    assert_eq!(never, Vec3::new(Fp::max_value(), Fp::max_value(), Fp::max_value()));
}

#[test]
fn scattering_in_a_scene_skips_the_lights() {
    let mut rng = SmallRng::seed_from_u64(4);
    let hit = RayIntersection { hit: true, t: Fp::from_int(2), hit_point: v(0, 0, -2000), normal: v(0, 0, 1000), ..RayIntersection::miss() };
    let red = Material::Diffuse(MaterialDiffuse::new_solid_color(v(700, 300, 300)));
    let out = Scene::scatter(&ahead(), &hit, &red, &mut rng).unwrap();
    assert!(out.skip_pdf);
    assert_eq!(out.albedo, v(700, 300, 300));
    assert_eq!(out.ray.origin, v(0, 0, -2000));
    assert!(out.ray.direction.z.raw >= 0);
    assert!(Scene::scatter(&ahead(), &hit, &lamp(), &mut rng).is_none());
}

#[test]
fn nearest_of_two_shapes_whatever_their_order() {
    let near = || Shape::Sphere(Sphere::new(v(0, 0, -3000), Fp::one(), 0));
    let far = || Shape::Quad(Quad::new(v(-5000, -5000, -8000), v(10_000, 0, 0), v(0, 10_000, 0), 0));
    for shapes in [vec![near(), far()], vec![far(), near()]] {
        let near_index = if matches!(shapes[0], Shape::Sphere(_)) { 0 } else { 1 };
        let scene = Scene { materials: vec![lamp()], shapes, lights: Vec::new(), is_background_sky: false };
        let (hit, index) = scene.nearest_hit(&ahead());
        assert!(hit.hit);
        assert_eq!(hit.t, Fp::from_int(2));
        assert_eq!(index, near_index);
        let (hit, index) = scene.nearest_hit(&Ray::new(v(3000, 0, 0), v(0, 0, -1000)));
        assert_eq!(hit.t, Fp::from_int(8));
        assert_eq!(index, 1 - near_index);
        assert_eq!(scene.hit_of(near_index, &ahead()).t, Fp::from_int(2));
    }
}

#[test]
fn a_surface_is_not_hit_where_the_ray_leaves_it() {
    let scene = scene_of(lamp(), false);
    // From the sphere's surface outwards.
    let leaving = Ray::new(v(0, 0, -2000), v(0, 0, 1000));
    assert!(!scene.nearest_hit(&leaving).0.hit);
    // From the sphere's surface inwards: the far side is hit.
    let entering = Ray::new(v(0, 0, -2000), v(0, 0, -1000));
    assert_eq!(scene.nearest_hit(&entering).0.t, Fp::from_int(2));
    // From just before the surface.
    let before = Ray::new(v(0, 0, -1999), v(0, 0, -1000));
    assert_eq!(scene.nearest_hit(&before).0.t, Fp::from_milli(1));
}

#[test]
fn density_of_a_direction_towards_a_quad() {
    let ceiling = Quad::new(v(-1000, 2000, -1000), v(2000, 0, 0), v(0, 0, 2000), 0);
    assert_eq!(ceiling.pdf_value(&Ray::new(v(0, 0, 0), v(0, 1000, 0))), Fp::one());
    assert_eq!(ceiling.pdf_value(&Ray::new(v(0, 0, 0), v(0, 5000, 0))), Fp::one());
    assert_eq!(ceiling.pdf_value(&Ray::new(v(0, 1000, 0), v(0, 1000, 0))), Fp::from_milli(250));
    assert_eq!(ceiling.pdf_value(&Ray::new(v(0, 0, 0), v(0, -1000, 0))), Fp::zero());
    assert_eq!(ceiling.pdf_value(&Ray::new(v(3000, 0, 0), v(0, 1000, 0))), Fp::zero());
    assert_eq!(ceiling.random_toward(&v(0, 0, 0), Fp::from_milli(500), Fp::from_milli(500)), v(0, 2000, 0));
    assert_eq!(ceiling.random_toward(&v(1000, 1000, 1000), Fp::zero(), Fp::one()), v(-2000, 1000, 0));
}

#[test]
fn density_of_a_direction_towards_a_sphere() {
    let ball = Sphere::new(v(0, 0, -2000), Fp::one(), 0);
    let seen = ball.pdf_value(&ahead());
    assert_eq!(seen.raw, 1_187_948_661);
    let solid_angle = 2.0 * std::f64::consts::PI * (1.0 - 0.75f64.sqrt());
    assert!((seen.raw as f64 / SCALE as f64 - 1.0 / solid_angle).abs() < 1e-6);
    assert_eq!(ball.pdf_value(&Ray::new(v(0, 0, 0), v(0, 1000, 0))), Fp::zero());
    assert_eq!(ball.random_toward(&v(0, 0, 0), Fp::zero(), Fp::zero()), v(0, 0, -1000));
    let shape = Shape::Sphere(Sphere::new(v(0, 0, -2000), Fp::one(), 0));
    let mut rng = SmallRng::seed_from_u64(21);
    for _ in 0..200 {
        let dir = shape.gen_random_dir(&v(0, 0, 0), &mut rng);
        assert!((dir.length().raw - SCALE).abs() < 100_000);
        // Within the cone of half angle 30 degrees round -z, up to rounding.
        assert!(dir.z.raw <= -866_000_000, "{:?}", dir);
        assert!(shape.pdf_value(&Ray::new(v(0, 0, 0), dir)).raw >= 0);
    }
}

#[test]
fn densities_towards_small_and_large_lights() {
    let raw = |x: i64, y: i64, z: i64| Vec3::new(Fp::from_raw(x), Fp::from_raw(y), Fp::from_raw(z));
    let far = |x: i32, y: i32, z: i32| Vec3::new(Fp::from_int(x), Fp::from_int(y), Fp::from_int(z));
    let up = Ray::new(v(0, 0, 0), v(0, 1000, 0));
    let small = Quad::new(raw(-10_000, SCALE, -10_000), raw(20_000, 0, 0), raw(0, 0, 20_000), 0);
    assert_eq!(small.pdf_value(&up).raw, 2_500_000_000_000_000_000);
    let large = Quad::new(far(-100_000, 100_000, -100_000), far(200_000, 0, 0), far(0, 0, 200_000), 0);
    assert_eq!(large.pdf_value(&up), Fp::from_milli(250));

    let ball = Sphere::new(v(0, 0, -5000), Fp::from_int(3), 0);
    let seen = ball.pdf_value(&ahead());
    let solid_angle = 2.0 * std::f64::consts::PI * (1.0 - 0.8);
    assert!((seen.raw as f64 / SCALE as f64 - 1.0 / solid_angle).abs() < 1e-8);
    let bead = Sphere::new(v(0, 0, -5), Fp::from_milli(3), 0);
    assert_eq!(bead.pdf_value(&ahead()), seen);
    let moon = Sphere::new(far(0, 0, -500_000), Fp::from_int(300_000), 0);
    assert_eq!(moon.pdf_value(&ahead()), seen);
}

#[test]
fn mixture_of_the_lights() {
    let mut rng = SmallRng::seed_from_u64(6);
    let unlit = Scene::one_sphere();
    assert_eq!(unlit.pdf_mixture_sample(&v(0, 0, 0), &mut rng), (Vec3F::zero(), Fp::zero()));
    let ceiling = || Shape::Quad(Quad::new(v(-1000, 2000, -1000), v(2000, 0, 0), v(0, 0, 2000), 0));
    let scene = Scene { materials: vec![lamp()], shapes: vec![ceiling()], lights: vec![ceiling(), Shape::Sphere(Sphere::new(v(0, -50_000, 0), Fp::one(), 0))], is_background_sky: false };
    let up = Ray::new(v(0, 0, 0), v(0, 1000, 0));
    assert_eq!(scene.light_pdf(0, &up), Fp::one());
    assert_eq!(scene.light_pdf(1, &up), Fp::zero());
    assert_eq!(scene.mixture_pdf(&up), Fp::from_milli(500));
    for _ in 0..50 {
        let (dir, pdf) = scene.pdf_mixture_sample(&v(0, 0, 0), &mut rng);
        assert_eq!(pdf, scene.mixture_pdf(&Ray::new(v(0, 0, 0), dir)));
        assert!(pdf.raw > 0);
        assert!(dir.y.raw == 2 * SCALE || dir.y.raw < 0);
        let aimed = scene.aim_at_light(0, &v(0, 0, 0), &mut rng);
        assert_eq!(aimed.y, Fp::from_int(2));
        assert!(aimed.x.raw.abs() <= SCALE && aimed.z.raw.abs() <= SCALE);
    }
}

#[test]
fn ready_made_scenes_are_well_formed() {
    let scenes = vec![
        (Scene::one_sphere(), 1, 1, 0, true),
        (Scene::two_spheres(), 2, 2, 0, true),
        (Scene::two_globes(Image::new(4, 2)), 1, 2, 0, true),
        (Scene::three_spheres_metal(), 4, 4, 0, true),
        (Scene::three_spheres_dielectric(), 4, 4, 0, true),
        (Scene::three_spheres_hollow_glass(), 5, 5, 0, true),
        (Scene::quads_example(), 5, 5, 0, true),
        (Scene::cornell_box(), 5, 13, 2, false),
    ];
    for (scene, materials, shapes, lights, sky) in scenes {
        assert!(scene.is_valid());
        assert_eq!(scene.materials.len(), materials);
        assert_eq!(scene.shapes.len(), shapes);
        assert_eq!(scene.lights.len(), lights);
        assert_eq!(scene.is_background_sky, sky);
    }
}

#[test]
fn ill_formed_scenes_are_told() {
    let mut scene = Scene::one_sphere();
    scene.shapes.push(Shape::Sphere(Sphere::new(v(0, 0, 0), Fp::one(), 1)));
    assert!(!scene.is_valid());
    let mut torn = Image::new(2, 2);
    torn.pixels.pop();
    let picture = Scene { materials: vec![Material::Diffuse(MaterialDiffuse { tex: Texture::Image(raytracer::textures::TextureImage { image: torn }) })], shapes: Vec::new(), lights: Vec::new(), is_background_sky: true };
    assert!(!picture.is_valid());
}

#[test]
fn contents_of_the_first_scenes() {
    let one = Scene::one_sphere();
    match (&one.materials[0], &one.shapes[0]) {
        (Material::Diffuse(m), Shape::Sphere(s)) => {
            assert!(matches!(&m.tex, Texture::Solid(t) if t.color == v(700, 300, 300)));
            assert_eq!((s.position, s.radius, s.material), (v(0, 0, -1000), Fp::from_milli(500), 0));
        }
        _ => panic!("not a diffuse sphere"),
    }
    let glass = Scene::three_spheres_hollow_glass();
    assert!(matches!(&glass.materials[2], Material::Dielectric(m) if m.refrac_index == Fp::from_milli(1500)));
    assert!(matches!(&glass.materials[3], Material::Dielectric(m) if m.refrac_index.raw == 666_666_666));
    assert!(matches!(&glass.shapes[3], Shape::Sphere(s) if s.radius == Fp::from_milli(400) && s.material == 3));
    let water = Scene::three_spheres_dielectric();
    assert!(matches!(&water.materials[2], Material::Dielectric(m) if m.refrac_index.raw == 750_187_546));
    let metal = Scene::three_spheres_metal();
    assert!(matches!(&metal.materials[2], Material::Metal(m) if m.fuzz == Fp::from_milli(300) && m.albedo == v(800, 800, 800)));
    assert!(matches!(&metal.materials[0], Material::Diffuse(m) if matches!(&m.tex, Texture::Checker(c) if c.odd_color == v(200, 300, 100) && c.inv_scale.raw == 3_125_000_000)));
    let room = Scene::cornell_box();
    assert!(matches!(&room.materials[3], Material::DiffuseLight(m) if m.albedo == v(15_000, 15_000, 15_000)));
    assert!(matches!(&room.shapes[2], Shape::Quad(q) if q.corner == v(343_000, 554_000, 332_000) && q.material == 3 && q.normal == v(0, -1000, 0) && q.area == Fp::from_int(13_650)));
    assert!(matches!(&room.lights[1], Shape::Sphere(s) if s.radius == Fp::from_int(90) && s.material == 3));
    assert!(matches!(&room.shapes[0], Shape::Quad(q) if q.normal == v(-1000, 0, 0) && q.area == Fp::from_int(308_025) && q.d == Fp::from_int(-555)));
    let quads = Scene::quads_example();
    assert!(matches!(&quads.shapes[4], Shape::Quad(q) if q.edges == [v(4000, 0, 0), v(0, 0, -4000)] && q.material == 4));
}

#[test]
fn many_spheres_round_three_large_ones() {
    let scene = Scene::many_spheres();
    assert!(scene.is_valid());
    assert!(scene.is_background_sky && scene.lights.is_empty());
    assert!(scene.shapes.len() > 300 && scene.shapes.len() <= 488);
    assert!(scene.materials.len() > 200 && scene.materials.len() <= scene.shapes.len());
    assert!(matches!(&scene.shapes[0], Shape::Sphere(s) if s.radius == Fp::from_int(1000) && s.position == v(0, -1_000_000, 0)));
    assert!(matches!(&scene.shapes[3], Shape::Sphere(s) if s.position == v(4000, 1000, 0) && s.material == 3));
    for shape in &scene.shapes[4..] {
        match shape {
            Shape::Sphere(s) => {
                assert_eq!(s.radius, Fp::from_milli(200));
                assert_eq!(s.position.y, Fp::from_milli(200));
                assert!(s.position.x.raw >= -11 * SCALE && s.position.x.raw < 11 * SCALE);
                assert!(s.position.sub(v(4000, 200, 0)).length().raw > 900_000_000);
            }
            Shape::Quad(_) => panic!("a quad among the spheres"),
        }
    }
}

#[test]
fn faces_of_a_box() {
    let faces = create_box_quads(v(1000, 2000, 3000), v(0, 0, 0), 7, v(10_000, 0, 0), Fp::zero());
    assert_eq!(faces.len(), 6);
    let corners: Vec<Vec3F> = faces.iter().map(|f| match f { Shape::Quad(q) => q.corner, Shape::Sphere(_) => panic!("a sphere") }).collect();
    assert_eq!(corners, vec![v(10_000, 0, 3000), v(11_000, 0, 3000), v(11_000, 0, 0), v(10_000, 0, 0), v(10_000, 2000, 3000), v(10_000, 0, 0)]);
    assert!(matches!(&faces[1], Shape::Quad(q) if q.edges == [v(0, 0, -3000), v(0, 2000, 0)] && q.material == 7));
    // A quarter turn takes z to x and x to -z.
    let turned = create_box_quads(v(0, 0, 0), v(1000, 2000, 3000), 0, v(0, 0, 0), Fp::from_milli(250));
    assert!(matches!(&turned[0], Shape::Quad(q) if q.corner == v(3000, 0, 0) && q.edges == [v(0, 0, -1000), v(0, 2000, 0)]));
    // A ray from above meets the top of the box first.
    let scene = Scene { materials: vec![lamp()], shapes: faces, lights: Vec::new(), is_background_sky: false };
    let (hit, index) = scene.nearest_hit(&Ray::new(v(10_500, 9000, 1500), v(0, -1000, 0)));
    assert_eq!((hit.t, index), (Fp::from_int(7), 4));
}

#[test]
fn the_room_is_seen_from_its_camera() {
    let room = Scene::cornell_box();
    let eye = v(278_000, 278_000, -800_000);
    let see = |target: Vec3F| {
        let (hit, index) = room.nearest_hit(&Ray::new(eye, target.sub(eye)));
        assert!(hit.hit);
        assert!((hit.t.raw - SCALE).abs() < 1_000, "t = {}", hit.t.raw);
        assert!(hit.hit_point.sub(target).length().raw < 1_000_000);
        index
    };
    // The red wall, the green wall, the floor, the ceiling, the back wall.
    assert_eq!(see(v(0, 278_000, 277_000)), 1);
    assert_eq!(see(v(555_000, 278_000, 277_000)), 0);
    assert_eq!(see(v(450_000, 0, 100_000)), 3);
    assert_eq!(see(v(100_000, 555_000, 400_000)), 4);
    assert_eq!(see(v(500_000, 500_000, 555_000)), 5);
    // The lamp hangs just below the ceiling.
    assert_eq!(see(v(278_000, 554_000, 280_000)), 2);
    // The glass sphere and the tall box stand before the back wall.
    let (ball, index) = room.nearest_hit(&Ray::new(eye, v(190_000, 90_000, 190_000).sub(eye)));
    assert!(ball.hit && index == 6);
    let (tall, index) = room.nearest_hit(&Ray::new(eye, v(350_000, 165_000, 380_000).sub(eye)));
    assert!(tall.hit && index >= 7, "index {}", index);
    // Near the edges of the floor nothing shows through.
    for i in 0..=100 {
        let (hit, _) = room.nearest_hit(&Ray::new(v(278_000, 278_000, 278_000), v(277 * 1000 - 5540 * i, -278_000, 277_000)));
        assert!(hit.hit, "through the floor at {}", i);
    }
    let mut rng = SmallRng::seed_from_u64(31);
    let lamp_light = room.trace(&Ray::new(v(278_000, 100_000, 280_000), v(0, 1000, 0)), &mut rng, 0);
    assert_eq!(lamp_light, v(15_000, 15_000, 15_000));
    for _ in 0..20 {
        let seen = room.trace(&Ray::new(eye, v(0, 0, 1000)), &mut rng, 0);
        assert!(seen.x.raw >= 0 && seen.y.raw >= 0 && seen.z.raw >= 0);
        assert!(seen.x.raw <= 15 * SCALE);
    }
}
