//! The camera: from a pixel and a position within it to a ray.

use crate::fixed::{fp, Fp, SCALE};
use crate::rng::uniform_unit;
use crate::shapes::Ray;
use crate::trig::{spec_tan_half_turns, tan_half_turns};
use crate::vecmath::{cross, spec_cross, Vec3F};
use rand::rngs::SmallRng;
use vstd::prelude::*;

verus! {

/// A point of the lens is looked for this many times before the centre of
/// the lens is taken in its place.
pub const LENS_ATTEMPTS: u32 = 64;

pub struct Camera {
    pub position: Vec3F,
    pub pixel_start_pos: Vec3F,
    pub viewport_delta_u: Vec3F,
    pub viewport_delta_v: Vec3F,
    pub defocus_disk_u: Vec3F,
    pub defocus_disk_v: Vec3F,
}

pub struct CameraBuilder {
    pub pixel_width: u32,
    pub pixel_height: u32,
    pub position: Vec3F,
    pub lookat: Vec3F,
    pub up: Vec3F,
    /// The vertical field of view, in half turns.
    pub fov: Fp,
    /// The distance from the camera to the plane of perfect focus.
    pub focus_length: Fp,
    /// The angle of the cone from the focus point to the lens, in half
    /// turns.
    pub defocus_angle: Fp,
}

/// `0 <= c < 1`.
pub open spec fn is_fraction(c: Fp) -> bool {
    0 <= c.raw < SCALE
}

/// Whether two fractions are taken as a point of the lens: the point lies
/// within the unit circle.
pub open spec fn spec_on_lens(dx: Fp, dy: Fp) -> bool {
    dx.spec_mul(dx).spec_add(dy.spec_mul(dy)).raw < SCALE
}

/// Whether a point of the lens can come out of `defocus_disk_sample`: two
/// fractions within the unit circle.
pub open spec fn spec_is_lens_draw(dx: Fp, dy: Fp) -> bool {
    is_fraction(dx) && is_fraction(dy) && spec_on_lens(dx, dy)
}

impl Camera {
    pub open spec fn spec_builder() -> CameraBuilder {
        CameraBuilder {
            pixel_width: 0,
            pixel_height: 0,
            position: Vec3F::spec_zero(),
            lookat: Vec3F::spec_zero(),
            up: Vec3F::spec_zero(),
            fov: fp(500_000_000),
            focus_length: fp(3_400_000_000),
            defocus_angle: fp(27_700_000),
        }
    }

    /// The point of the lens at the fractions `dx` and `dy` of its two
    /// radii.
    pub open spec fn spec_lens_point(self, dx: Fp, dy: Fp) -> Vec3F {
        self.position.spec_add(self.defocus_disk_u.spec_scale(dx)).spec_add(
            self.defocus_disk_v.spec_scale(dy),
        )
    }

    /// The point of the image plane at the fractions `rx` and `ry` of the
    /// pixel in column `w` and row `h`.
    pub open spec fn spec_pixel_point(self, w: u32, h: u32, rx: Fp, ry: Fp) -> Vec3F {
        let half = fp(SCALE as int / 2);
        let random_sample = self.viewport_delta_u.spec_scale(rx.spec_sub(half)).spec_add(
            self.viewport_delta_v.spec_scale(ry.spec_sub(half)),
        );
        let pixel_center = self.pixel_start_pos.spec_add(
            self.viewport_delta_u.spec_scale(Fp::spec_from_count(w as int)),
        ).spec_add(self.viewport_delta_v.spec_scale(Fp::spec_from_count(h as int)));
        pixel_center.spec_add(random_sample)
    }

    /// Whether `ray` is the ray from the lens point `(dx, dy)` through the
    /// pixel point.
    pub open spec fn spec_ray_is(self, w: u32, h: u32, rx: Fp, ry: Fp, dx: Fp, dy: Fp, ray: Ray) -> bool {
        &&& ray.origin == self.spec_lens_point(dx, dy)
        &&& ray.direction == self.spec_pixel_point(w, h, rx, ry).spec_sub(
            self.spec_lens_point(dx, dy),
        )
        &&& ray.wf()
    }

    /// A builder with a field of view of a quarter turn, a focus length of
    /// 3.4 and a defocus angle of 0.0277 half turns.
    pub fn builder() -> (r: CameraBuilder)
        ensures
            r == Camera::spec_builder(),
    {
        CameraBuilder {
            pixel_width: 0,
            pixel_height: 0,
            position: Vec3F::zero(),
            lookat: Vec3F::zero(),
            up: Vec3F::zero(),
            fov: Fp::from_raw(500_000_000),
            focus_length: Fp::from_raw(3_400_000_000),
            defocus_angle: Fp::from_raw(27_700_000),
        }
    }

    /// The point of the lens at the given fractions of its radii.
    pub fn lens_point(&self, dx: Fp, dy: Fp) -> (r: Vec3F)
        ensures
            r == self.spec_lens_point(dx, dy),
    {
        self.position.add(self.defocus_disk_u.scale(dx)).add(self.defocus_disk_v.scale(dy))
    }

    /// The ray from the lens point `(dx, dy)` through the point `(rx, ry)` of
    /// the pixel in column `w` and row `h`.
    pub fn gen_ray_from(&self, w: u32, h: u32, rx: Fp, ry: Fp, dx: Fp, dy: Fp) -> (r: Ray)
        ensures
            self.spec_ray_is(w, h, rx, ry, dx, dy, r),
    {
        let half = Fp::from_raw(SCALE / 2);
        let random_sample = self.viewport_delta_u.scale(rx.sub(half)).add(
            self.viewport_delta_v.scale(ry.sub(half)),
        );
        let pixel_center = self.pixel_start_pos.add(
            self.viewport_delta_u.scale(Fp::from_count(w as usize)),
        ).add(self.viewport_delta_v.scale(Fp::from_count(h as usize)));
        let ray_origin = self.lens_point(dx, dy);
        Ray::new(ray_origin, pixel_center.add(random_sample).sub(ray_origin))
    }

    /// Two fractions that give a point of the lens: fractions are drawn
    /// until their point lies within the unit circle; after `LENS_ATTEMPTS`
    /// refusals the centre is given.
    pub fn defocus_disk_sample(rng: &mut SmallRng) -> (r: (Fp, Fp))
        ensures
            spec_is_lens_draw(r.0, r.1),
    {
        let mut attempts: u32 = 0;
        while attempts < LENS_ATTEMPTS
            invariant
                attempts <= LENS_ATTEMPTS,
            decreases LENS_ATTEMPTS - attempts,
        {
            let x = uniform_unit(rng);
            let y = uniform_unit(rng);
            match Camera::lens_draw(x, y) {
                Some(point) => {
                    return point;
                },
                None => {},
            }
            attempts += 1;
        }
        assert(0int * 0int == 0);
        (Fp::zero(), Fp::zero())
    }

    /// Two fractions as a point of the lens, where their point lies within
    /// the unit circle.
    pub fn lens_draw(x: Fp, y: Fp) -> (r: Option<(Fp, Fp)>)
        ensures
            r is Some <==> spec_on_lens(x, y),
            r is Some ==> r->Some_0 == (x, y),
    {
        if x.mul(x).add(y.mul(y)).raw < SCALE {
            Some((x, y))
        } else {
            None
        }
    }

    /// A ray through the point `(rx, ry)` of the pixel in column `w` and row
    /// `h`, from a point of the lens drawn at random.
    pub fn gen_ray(&self, w: u32, h: u32, rx: Fp, ry: Fp, rng: &mut SmallRng) -> (r: Ray)
        requires
            is_fraction(rx),
            is_fraction(ry),
        ensures
            exists|dx: Fp, dy: Fp|
                spec_is_lens_draw(dx, dy) && #[trigger] self.spec_ray_is(w, h, rx, ry, dx, dy, r),
    {
        let (dx, dy) = Camera::defocus_disk_sample(rng);
        let ray = self.gen_ray_from(w, h, rx, ry, dx, dy);
        assert(self.spec_ray_is(w, h, rx, ry, dx, dy, ray));
        ray
    }
}

impl CameraBuilder {
    /// The width of the image over its height.
    pub open spec fn spec_aspect_ratio(self) -> Fp {
        Fp::spec_from_count(self.pixel_width as int).spec_div(
            Fp::spec_from_count(self.pixel_height as int),
        )
    }

    /// The height of the image plane at the focus length: twice the focus
    /// length times the tangent of half the field of view.
    pub open spec fn spec_viewport_height(self) -> Fp {
        Fp::spec_from_int(2).spec_mul(self.focus_length).spec_mul(
            spec_tan_half_turns(self.fov.spec_div(Fp::spec_from_int(2))),
        )
    }

    /// The unit vector from the point looked at to the camera.
    pub open spec fn spec_camera_z(self) -> Vec3F {
        self.position.spec_sub(self.lookat).spec_normalized()
    }

    /// The unit vector to the right of the camera.
    pub open spec fn spec_camera_x(self) -> Vec3F {
        spec_cross(self.up, self.spec_camera_z()).spec_normalized()
    }

    /// The vector upwards of the camera.
    pub open spec fn spec_camera_y(self) -> Vec3F {
        spec_cross(self.spec_camera_z(), self.spec_camera_x())
    }

    /// The image plane's edge from left to right.
    pub open spec fn spec_viewport_u(self) -> Vec3F {
        self.spec_camera_x().spec_scale(
            self.spec_viewport_height().spec_mul(self.spec_aspect_ratio()),
        )
    }

    /// The image plane's edge from top to bottom.
    pub open spec fn spec_viewport_v(self) -> Vec3F {
        self.spec_camera_y().spec_scale(self.spec_viewport_height().spec_neg())
    }

    /// The radius of the lens: zero for no defocus angle, else the focus
    /// length times the tangent of half the defocus angle.
    pub open spec fn spec_defocus_radius(self) -> Fp {
        let half_angle = self.defocus_angle.spec_div(Fp::spec_from_int(2));
        if half_angle.raw <= 0 {
            fp(0)
        } else {
            self.focus_length.spec_mul(spec_tan_half_turns(half_angle))
        }
    }

    /// The camera that `build` makes.
    pub open spec fn spec_build(self) -> Camera {
        let half = fp(SCALE as int / 2);
        let delta_u = self.spec_viewport_u().spec_div(
            Fp::spec_from_count(self.pixel_width as int),
        );
        let delta_v = self.spec_viewport_v().spec_div(
            Fp::spec_from_count(self.pixel_height as int),
        );
        let upper_left = self.position.spec_sub(
            self.spec_camera_z().spec_scale(self.focus_length),
        ).spec_sub(self.spec_viewport_u().spec_add(self.spec_viewport_v()).spec_scale(half));
        Camera {
            position: self.position,
            pixel_start_pos: upper_left.spec_add(delta_u.spec_add(delta_v).spec_scale(half)),
            viewport_delta_u: delta_u,
            viewport_delta_v: delta_v,
            defocus_disk_u: self.spec_camera_x().spec_scale(self.spec_defocus_radius()),
            defocus_disk_v: self.spec_camera_y().spec_scale(self.spec_defocus_radius()),
        }
    }

    pub fn pixel_dimension(self, width: u32, height: u32) -> (r: CameraBuilder)
        ensures
            r == (CameraBuilder { pixel_width: width, pixel_height: height, ..self }),
    {
        let mut next = self;
        next.pixel_width = width;
        next.pixel_height = height;
        next
    }

    /// Sets the vertical field of view, in half turns: more than none and
    /// less than a half turn.
    pub fn fov(self, fov: Fp) -> (r: CameraBuilder)
        requires
            0 < fov.raw < SCALE,
        ensures
            r == (CameraBuilder { fov, ..self }),
    {
        let mut next = self;
        next.fov = fov;
        next
    }

    /// Sets the distance from the camera to the plane of perfect focus.
    pub fn focus_length(self, focus_length: Fp) -> (r: CameraBuilder)
        ensures
            r == (CameraBuilder { focus_length, ..self }),
    {
        let mut next = self;
        next.focus_length = focus_length;
        next
    }

    pub fn position(self, position: Vec3F) -> (r: CameraBuilder)
        ensures
            r == (CameraBuilder { position, ..self }),
    {
        let mut next = self;
        next.position = position;
        next
    }

    pub fn lookat(self, dir: Vec3F) -> (r: CameraBuilder)
        ensures
            r == (CameraBuilder { lookat: dir, ..self }),
    {
        let mut next = self;
        next.lookat = dir;
        next
    }

    pub fn up(self, dir: Vec3F) -> (r: CameraBuilder)
        ensures
            r == (CameraBuilder { up: dir, ..self }),
    {
        let mut next = self;
        next.up = dir;
        next
    }

    /// Sets the defocus angle, in half turns: at least none and less than a
    /// quarter turn.
    pub fn defocus_angle(self, angle: Fp) -> (r: CameraBuilder)
        requires
            0 <= angle.raw < SCALE / 2,
        ensures
            r == (CameraBuilder { defocus_angle: angle, ..self }),
    {
        let mut next = self;
        next.defocus_angle = angle;
        next
    }

    pub fn build(self) -> (r: Camera)
        ensures
            r == self.spec_build(),
    {
        let half = Fp::from_raw(SCALE / 2);
        let two = Fp::from_int(2);
        let width = Fp::from_count(self.pixel_width as usize);
        let height = Fp::from_count(self.pixel_height as usize);
        let aspect_ratio = width.div(height);

        let fov_tangent = tan_half_turns(self.fov.div(two));
        let viewport_height = two.mul(self.focus_length).mul(fov_tangent);
        let viewport_width = viewport_height.mul(aspect_ratio);

        let camera_z = self.position.sub(self.lookat).normalized();
        let camera_x = cross(&self.up, &camera_z).normalized();
        let camera_y = cross(&camera_z, &camera_x);

        let viewport_u = camera_x.scale(viewport_width);
        let viewport_v = camera_y.scale(viewport_height.neg());

        let viewport_delta_u = viewport_u.div(width);
        let viewport_delta_v = viewport_v.div(height);

        let viewport_upper_left = self.position.sub(camera_z.scale(self.focus_length)).sub(
            viewport_u.add(viewport_v).scale(half),
        );
        let pixel_start_pos = viewport_upper_left.add(
            viewport_delta_u.add(viewport_delta_v).scale(half),
        );

        let defocus_angle = self.defocus_angle.div(two);
        let defocus_disk_radius = if defocus_angle.raw <= 0 {
            Fp::zero()
        } else {
            self.focus_length.mul(tan_half_turns(defocus_angle))
        };

        Camera {
            position: self.position,
            pixel_start_pos,
            viewport_delta_u,
            viewport_delta_v,
            defocus_disk_u: camera_x.scale(defocus_disk_radius),
            defocus_disk_v: camera_y.scale(defocus_disk_radius),
        }
    }
}

} // verus!
