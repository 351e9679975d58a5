use rand::rngs::SmallRng;
use rand::SeedableRng;
use raytracer::camera::Camera;
use raytracer::fixed::Fp;
use raytracer::render::{
    linear_to_gamma, pixel_radiance, resolve_pixel, sample_radiance, trace_row,
};
use raytracer::scene::Scene;
use raytracer::vecmath::{Vec3, Vec3F};

fn v(x: i32, y: i32, z: i32) -> Vec3F {
    Vec3::new(Fp::from_milli(x), Fp::from_milli(y), Fp::from_milli(z))
}

fn camera_for_one_sphere(pixels: u32) -> Camera {
    Camera::builder()
        .pixel_dimension(pixels, pixels)
        .fov(Fp::from_milli(500))
        .focus_length(Fp::one())
        .defocus_angle(Fp::zero())
        .position(v(0, 0, 0))
        .lookat(v(0, 0, -1000))
        .up(v(0, 1000, 0))
        .build()
}

fn samples(n: i32) -> Vec<(Fp, Fp)> {
    (0..n).map(|i| (Fp::from_milli((37 * i + 11) % 1000), Fp::from_milli((61 * i + 503) % 1000))).collect()
}

#[test]
fn gamma_is_the_square_root() {
    assert_eq!(linear_to_gamma(&v(250, 4000, 1000)), v(500, 2000, 1000));
    assert_eq!(linear_to_gamma(&v(0, -1000, 10)), Vec3::new(Fp::zero(), Fp::zero(), Fp::from_milli(100)));
}

#[test]
fn pixel_of_a_sum_of_samples() {
    assert_eq!(resolve_pixel(v(1000, 4000, 0), 4), [127, 255, 0]);
    assert_eq!(resolve_pixel(v(640, 1440, 2560), 4), [102, 153, 204]);
    assert_eq!(resolve_pixel(v(9000, 9000, -9000), 1), [255, 255, 0]);
    assert_eq!(resolve_pixel(v(0, 0, 0), 50), [0, 0, 0]);
    // Without samples the mean is a quotient by zero.
    assert_eq!(resolve_pixel(v(0, 1, -1), 0), [0, 255, 0]);
}

#[test]
fn row_of_a_dark_scene_is_black() {
    let mut scene = Scene::three_spheres_metal();
    scene.is_background_sky = false;
    let camera = camera_for_one_sphere(6);
    let mut rng = SmallRng::seed_from_u64(3);
    let mut row = vec![[9u8, 9, 9]; 6];
    trace_row(&scene, &camera, 3, &mut row, &samples(4), &mut rng);
    assert_eq!(row, vec![[0, 0, 0]; 6]);
}

#[test]
fn row_of_the_sky() {
    let scene = Scene { materials: Vec::new(), shapes: Vec::new(), lights: Vec::new(), is_background_sky: true };
    let camera = camera_for_one_sphere(3);
    let mut rng = SmallRng::seed_from_u64(3);
    let centre = [(Fp::from_milli(500), Fp::from_milli(500))];
    let mut row = vec![[0u8; 3]; 3];
    trace_row(&scene, &camera, 1, &mut row, &centre, &mut rng);
    // Along the horizon the sky is the mean of white and blue.
    let horizon = v(750, 850, 1000);
    assert_eq!(row[1], linear_to_gamma(&horizon).to_bytes().to_array());
    assert_eq!(row[0], row[2]);
    assert_eq!(row[1], [220, 235, 255]);
    let mut short: Vec<[u8; 3]> = Vec::new();
    trace_row(&scene, &camera, 1, &mut short, &centre, &mut rng);
    assert!(short.is_empty());
}

#[test]
fn radiance_of_a_pixel_is_the_sum_over_its_samples() {
    let scene = Scene { materials: Vec::new(), shapes: Vec::new(), lights: Vec::new(), is_background_sky: true };
    let camera = camera_for_one_sphere(3);
    let mut rng = SmallRng::seed_from_u64(3);
    let centre = (Fp::from_milli(500), Fp::from_milli(500));
    let one = sample_radiance(&scene, &camera, 1, 1, centre, &mut rng);
    assert_eq!(one, v(750, 850, 1000));
    let three = pixel_radiance(&scene, &camera, 1, 1, &[centre, centre, centre], &mut rng);
    assert_eq!(three, v(2250, 2550, 3000));
    assert_eq!(resolve_pixel(three, 3), resolve_pixel(one, 1));
}

#[test]
fn pixel_without_samples_has_no_radiance() {
    let scene = Scene::one_sphere();
    let camera = camera_for_one_sphere(3);
    let mut rng = SmallRng::seed_from_u64(3);
    assert_eq!(pixel_radiance(&scene, &camera, 1, 1, &[], &mut rng), Vec3F::zero());
}

#[test]
fn one_sphere_before_the_sky() {
    let scene = Scene::one_sphere();
    let pixels = 9;
    let camera = camera_for_one_sphere(pixels);
    let positions = samples(32);
    let mut rng = SmallRng::seed_from_u64(1317);
    let centre = resolve_pixel(pixel_radiance(&scene, &camera, 4, 4, &positions, &mut rng), positions.len());
    let mut rng = SmallRng::seed_from_u64(1317);
    let again = resolve_pixel(pixel_radiance(&scene, &camera, 4, 4, &positions, &mut rng), positions.len());
    assert_eq!(centre, again);
    for (col, row) in [(0, 0), (8, 0), (0, 8), (8, 8), (4, 0), (0, 4)] {
        let border = resolve_pixel(pixel_radiance(&scene, &camera, col, row, &positions, &mut rng), positions.len());
        for channel in 0..3 {
            assert!(centre[channel] < border[channel], "{:?} against {:?} at {:?}", centre, border, (col, row));
        }
    }
    // The sphere is red: it keeps more of the sky's red than of its blue.
    assert!(centre[0] > centre[1] && centre[0] > centre[2]);
    assert_eq!(centre, [185, 128, 139]);
}
