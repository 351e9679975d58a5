use rand::rngs::SmallRng;
use rand::SeedableRng;
use raytracer::camera::{Camera, CameraBuilder};
use raytracer::fixed::{Fp, SCALE};
use raytracer::scene::Scene;
use raytracer::vecmath::{Vec3, Vec3F};

fn v(x: i32, y: i32, z: i32) -> Vec3F {
    Vec3::new(Fp::from_milli(x), Fp::from_milli(y), Fp::from_milli(z))
}

fn close(a: Vec3F, b: Vec3F, tolerance: i64) -> bool {
    (a.x.raw - b.x.raw).abs() <= tolerance
        && (a.y.raw - b.y.raw).abs() <= tolerance
        && (a.z.raw - b.z.raw).abs() <= tolerance
}

fn looking_down_z(pixels: u32) -> CameraBuilder {
    Camera::builder()
        .pixel_dimension(pixels, pixels)
        .fov(Fp::from_milli(500))
        .focus_length(Fp::one())
        .defocus_angle(Fp::zero())
        .position(v(0, 0, 0))
        .lookat(v(0, 0, -1000))
        .up(v(0, 1000, 0))
}

#[test]
fn builder_starts_with_its_defaults() {
    let b = Camera::builder();
    assert_eq!(b.fov, Fp::from_milli(500));
    assert_eq!(b.focus_length, Fp::from_milli(3400));
    assert_eq!(b.defocus_angle.raw, 27_700_000);
    assert_eq!((b.pixel_width, b.pixel_height), (0, 0));
    assert_eq!((b.position, b.lookat, b.up), (Vec3F::zero(), Vec3F::zero(), Vec3F::zero()));
}

#[test]
fn builder_keeps_what_it_is_given() {
    let b = Camera::builder()
        .pixel_dimension(640, 480)
        .fov(Fp::from_milli(250))
        .focus_length(Fp::from_int(10))
        .defocus_angle(Fp::from_milli(10))
        .position(v(1000, 2000, 3000))
        .lookat(v(4000, 5000, 6000))
        .up(v(0, 0, 1000));
    assert_eq!((b.pixel_width, b.pixel_height), (640, 480));
    assert_eq!(b.fov, Fp::from_milli(250));
    assert_eq!(b.focus_length, Fp::from_int(10));
    assert_eq!(b.defocus_angle, Fp::from_milli(10));
    assert_eq!(b.position, v(1000, 2000, 3000));
    assert_eq!(b.lookat, v(4000, 5000, 6000));
    assert_eq!(b.up, v(0, 0, 1000));
}

#[test]
fn camera_down_the_z_axis() {
    let camera = looking_down_z(2).build();
    assert_eq!(camera.position, v(0, 0, 0));
    assert!(close(camera.viewport_delta_u, v(1000, 0, 0), 20));
    assert!(close(camera.viewport_delta_v, v(0, -1000, 0), 20));
    assert!(close(camera.pixel_start_pos, v(-500, 500, -1000), 20));
    assert_eq!(camera.defocus_disk_u, Vec3F::zero());
    assert_eq!(camera.defocus_disk_v, Vec3F::zero());
}

#[test]
fn camera_to_the_last_digit() {
    let camera = looking_down_z(2).build();
    assert_eq!(camera.viewport_delta_u, Vec3::new(Fp::from_raw(999_999_998), Fp::zero(), Fp::zero()));
    assert_eq!(camera.viewport_delta_v, Vec3::new(Fp::zero(), Fp::from_raw(-999_999_998), Fp::zero()));
    assert_eq!(camera.pixel_start_pos, Vec3::new(Fp::from_raw(-499_999_999), Fp::from_raw(499_999_999), Fp::from_int(-1)));
}

#[test]
fn wide_image_has_a_wide_viewport() {
    let camera = looking_down_z(2).pixel_dimension(4, 2).focus_length(Fp::from_int(3)).build();
    assert!(close(camera.viewport_delta_u, v(3000, 0, 0), 100));
    assert!(close(camera.viewport_delta_v, v(0, -3000, 0), 100));
    assert!(close(camera.pixel_start_pos, v(-4500, 1500, -3000), 100));
}

#[test]
fn lens_of_a_defocused_camera() {
    let camera = looking_down_z(2).focus_length(Fp::from_int(2)).defocus_angle(Fp::from_milli(250)).build();
    // The lens has the radius 2 * tan(22.5 degrees).
    let radius = 2.0 * (std::f64::consts::PI / 8.0).tan();
    assert!((camera.defocus_disk_u.x.raw as f64 / SCALE as f64 - radius).abs() < 1e-7);
    assert!((camera.defocus_disk_v.y.raw as f64 / SCALE as f64 - radius).abs() < 1e-7);
    assert_eq!(camera.lens_point(Fp::zero(), Fp::zero()), v(0, 0, 0));
    let corner = camera.lens_point(Fp::from_milli(500), Fp::one());
    assert_eq!(corner.x, camera.defocus_disk_u.x.div(Fp::from_int(2)));
    assert_eq!(corner.y, camera.defocus_disk_v.y);
    let mut rng = SmallRng::seed_from_u64(12);
    let mut moved = false;
    for _ in 0..100 {
        let (dx, dy) = Camera::defocus_disk_sample(&mut rng);
        assert!(0 <= dx.raw && dx.raw < SCALE && 0 <= dy.raw && dy.raw < SCALE);
        assert!(dx.mul(dx).add(dy.mul(dy)).raw < SCALE);
        let ray = camera.gen_ray(1, 1, Fp::from_milli(500), Fp::from_milli(500), &mut rng);
        moved = moved || ray.origin != v(0, 0, 0);
        // Every ray goes through the same point of the plane of focus.
        assert!(close(ray.origin.add(ray.direction), v(1000, -1000, -2000), 100));
    }
    assert!(moved);
}

#[test]
fn rays_through_the_pixels() {
    let camera = looking_down_z(2).build();
    let half = Fp::from_milli(500);
    let centre = camera.gen_ray_from(1, 1, half, half, Fp::zero(), Fp::zero());
    assert_eq!(centre.origin, v(0, 0, 0));
    assert!(close(centre.direction, v(500, -500, -1000), 40));
    let corner = camera.gen_ray_from(0, 0, Fp::zero(), Fp::zero(), Fp::zero(), Fp::zero());
    assert!(close(corner.direction, v(-1000, 1000, -1000), 40));
    let mut rng = SmallRng::seed_from_u64(2);
    let drawn = camera.gen_ray(1, 0, Fp::from_milli(250), Fp::from_milli(750), &mut rng);
    assert_eq!(drawn.origin, v(0, 0, 0));
    assert!(close(drawn.direction, v(250, 250, -1000), 40));
}

#[test]
fn cameras_of_the_ready_made_scenes() {
    let camera = Scene::quads_example_camera(400, 400);
    assert_eq!(camera.position, v(0, 0, 9000));
    assert_eq!(camera.defocus_disk_u, Vec3F::zero());
    // The viewport is 2 * 10 * tan(40 degrees) high.
    let height = 20.0 * 40f64.to_radians().tan();
    assert!((camera.viewport_delta_v.y.raw as f64 / SCALE as f64 + height / 400.0).abs() < 1e-7);
    assert!((camera.viewport_delta_u.x.raw as f64 / SCALE as f64 - height / 400.0).abs() < 1e-7);
    assert!((camera.pixel_start_pos.z.raw + SCALE).abs() < 100);
    let room = Scene::cornell_box_camera(600, 300);
    assert_eq!(room.position, v(278_000, 278_000, -800_000));
    // It looks up the z axis, so the image's right is the world's left.
    let height = 20.0 * 20f64.to_radians().tan();
    assert!((room.viewport_delta_u.x.raw as f64 / SCALE as f64 + height / 300.0).abs() < 1e-7);
    assert!((room.viewport_delta_v.y.raw as f64 / SCALE as f64 + height / 300.0).abs() < 1e-7);
    assert!((room.pixel_start_pos.z.raw + 790 * SCALE).abs() < 100);
}

#[test]
fn fractions_within_the_unit_circle_are_lens_points() {
    let at = |x: i32, y: i32| Camera::lens_draw(Fp::from_milli(x), Fp::from_milli(y));
    assert_eq!(at(0, 0), Some((Fp::zero(), Fp::zero())));
    assert_eq!(at(600, 700), Some((Fp::from_milli(600), Fp::from_milli(700))));
    assert_eq!(at(600, 800), None);
    assert_eq!(at(999, 999), None);
    assert_eq!(Camera::lens_draw(Fp::from_raw(999_999_999), Fp::zero()), Some((Fp::from_raw(999_999_999), Fp::zero())));
    assert_eq!(at(1000, 0), None);
}
