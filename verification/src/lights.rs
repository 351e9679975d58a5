//! Shapes as targets of light sampling: a random direction from a point
//! towards a shape, and the density of such a direction over the solid
//! angle that the shape fills as seen from the point.

use crate::fixed::{fp, Fp, RAW_MAX, SCALE};
use crate::materials::{from_local_to_world_space, is_unit_draw, spec_local_to_world};
use crate::rng::uniform_unit;
use crate::shapes::{Quad, Ray, Shape, Sphere};
use crate::trig::{sin_cos_turns, spec_cos_turns, spec_sin_turns, TWO_PI_RAW};
use crate::vecmath::{cross, dot, spec_dot, Vec3, Vec3F};
use rand::rngs::SmallRng;
use vstd::prelude::*;

verus! {

/// A ray starts to count this far from its origin, so that it does not meet
/// the surface that it leaves: `0.001`.
pub const NEAR_LIMIT_RAW: i64 = 1_000_000;

/// The lower limit of every query: `0.001`.
pub open spec fn spec_near_limit() -> Fp {
    fp(NEAR_LIMIT_RAW as int)
}

/// The upper limit of an unbounded query: the largest number.
pub open spec fn spec_far_limit() -> Fp {
    fp(RAW_MAX as int)
}

impl Quad {
    /// The point of the parallelogram at the fractions `r1` and `r2` of its
    /// edges, as seen from `origin`.
    pub open spec fn spec_random_toward(self, origin: Vec3F, r1: Fp, r2: Fp) -> Vec3F {
        self.corner.spec_add(self.edges[0].spec_scale(r1)).spec_add(
            self.edges[1].spec_scale(r2),
        ).spec_sub(origin)
    }

    /// The density of the ray's direction among the directions towards the
    /// parallelogram: zero where the ray misses it, else the squared
    /// distance of the hit over the area as seen along the ray, which is
    /// the area times the cosine between the ray and the normal. The
    /// distance is taken over each edge's length before the two are
    /// multiplied, and the sine of the edges' angle goes with the cosine,
    /// so that neither the squared distance nor the area is rounded.
    pub open spec fn spec_pdf_value(self, ray: Ray) -> Fp {
        let hit = self.spec_ray_intersect(ray, spec_near_limit(), spec_far_limit());
        if !hit.hit {
            fp(0)
        } else {
            let distance = hit.hit_point.spec_sub(ray.origin).spec_length();
            let cosine = spec_dot(ray.direction.spec_normalized(), self.normal).spec_abs();
            distance.spec_div(self.edges[0].spec_length()).spec_mul(
                distance.spec_div(self.edges[1].spec_length()),
            ).spec_div(cosine.spec_mul(self.spec_unit_cross().spec_length()))
        }
    }

    pub fn random_toward(&self, origin: &Vec3F, r1: Fp, r2: Fp) -> (r: Vec3F)
        ensures
            r == self.spec_random_toward(*origin, r1, r2),
    {
        self.corner.add(self.edges[0].scale(r1)).add(self.edges[1].scale(r2)).sub(*origin)
    }

    pub fn pdf_value(&self, ray: &Ray) -> (r: Fp)
        ensures
            r == self.spec_pdf_value(*ray),
    {
        let limits = Fp::from_raw(NEAR_LIMIT_RAW)..Fp::max_value();
        let hit = self.ray_intersect(ray, &limits);
        if !hit.hit {
            Fp::zero()
        } else {
            let distance = hit.hit_point.sub(ray.origin).length();
            let cosine = dot(&ray.direction.normalized(), &self.normal).abs();
            let sine = cross(&self.edges[0].normalized(), &self.edges[1].normalized()).length();
            distance.div(self.edges[0].length()).mul(distance.div(self.edges[1].length())).div(
                cosine.mul(sine),
            )
        }
    }
}

impl Sphere {
    /// The cosine of the half angle of the cone in which the sphere is seen
    /// from a point at the given distance of its centre: with `q` the
    /// radius over the distance, the square root of `1 - q^2`.
    pub open spec fn spec_cos_theta_max(self, distance: Fp) -> Fp {
        let q = self.radius.spec_div(distance);
        fp(SCALE as int).spec_sub(q.spec_mul(q)).spec_sqrt()
    }

    /// A direction of that cone in the frame whose z axis points at the
    /// centre: `r1` turns round the axis, at a height between the cosine of
    /// the half angle and one.
    pub open spec fn spec_cone_dir(self, distance: Fp, r1: Fp, r2: Fp) -> Vec3F {
        let one = fp(SCALE as int);
        let z = one.spec_add(r2.spec_mul(self.spec_cos_theta_max(distance).spec_sub(one)));
        let rim = one.spec_sub(z.spec_mul(z)).spec_sqrt();
        Vec3 { x: spec_cos_turns(r1).spec_mul(rim), y: spec_sin_turns(r1).spec_mul(rim), z }
    }

    /// A direction from `origin` into the cone in which the sphere is seen.
    pub open spec fn spec_random_toward(self, origin: Vec3F, r1: Fp, r2: Fp) -> Vec3F {
        let direction = self.position.spec_sub(origin);
        spec_local_to_world(
            direction,
            self.spec_cone_dir(direction.spec_length(), r1, r2),
        )
    }

    /// The density of the ray's direction among the directions towards the
    /// sphere: zero where the ray misses it, else one over the solid angle
    /// of the cone in which the sphere is seen.
    pub open spec fn spec_pdf_value(self, ray: Ray) -> Fp {
        let hit = self.spec_ray_intersect(ray, spec_near_limit(), spec_far_limit());
        if !hit.hit {
            fp(0)
        } else {
            let one = fp(SCALE as int);
            let distance = self.position.spec_sub(ray.origin).spec_length();
            let solid_angle = fp(TWO_PI_RAW as int).spec_mul(
                one.spec_sub(self.spec_cos_theta_max(distance)),
            );
            one.spec_div(solid_angle)
        }
    }

    pub fn random_toward(&self, origin: &Vec3F, r1: Fp, r2: Fp) -> (r: Vec3F)
        ensures
            r == self.spec_random_toward(*origin, r1, r2),
    {
        let one = Fp::one();
        let direction = self.position.sub(*origin);
        let q = self.radius.div(direction.length());
        let cos_theta_max = one.sub(q.mul(q)).sqrt();
        let z = one.add(r2.mul(cos_theta_max.sub(one)));
        let rim = one.sub(z.mul(z)).sqrt();
        let (sin_phi, cos_phi) = sin_cos_turns(r1);
        let local = Vec3::new(cos_phi.mul(rim), sin_phi.mul(rim), z);
        from_local_to_world_space(&direction, &local)
    }

    pub fn pdf_value(&self, ray: &Ray) -> (r: Fp)
        ensures
            r == self.spec_pdf_value(*ray),
    {
        let limits = Fp::from_raw(NEAR_LIMIT_RAW)..Fp::max_value();
        let hit = self.ray_intersect(ray, &limits);
        if !hit.hit {
            Fp::zero()
        } else {
            let one = Fp::one();
            let q = self.radius.div(self.position.sub(ray.origin).length());
            let cos_theta_max = one.sub(q.mul(q)).sqrt();
            let solid_angle = Fp::from_raw(TWO_PI_RAW).mul(one.sub(cos_theta_max));
            one.div(solid_angle)
        }
    }
}

impl Shape {
    pub open spec fn spec_random_toward(self, origin: Vec3F, r1: Fp, r2: Fp) -> Vec3F {
        match self {
            Shape::Sphere(s) => s.spec_random_toward(origin, r1, r2),
            Shape::Quad(q) => q.spec_random_toward(origin, r1, r2),
        }
    }

    pub open spec fn spec_pdf_value(self, ray: Ray) -> Fp {
        match self {
            Shape::Sphere(s) => s.spec_pdf_value(ray),
            Shape::Quad(q) => q.spec_pdf_value(ray),
        }
    }

    /// The direction from `origin` towards the shape that two uniform
    /// numbers give.
    pub fn random_toward(&self, origin: &Vec3F, r1: Fp, r2: Fp) -> (r: Vec3F)
        ensures
            r == self.spec_random_toward(*origin, r1, r2),
    {
        match self {
            Shape::Sphere(s) => s.random_toward(origin, r1, r2),
            Shape::Quad(q) => q.random_toward(origin, r1, r2),
        }
    }

    /// Draws a direction from `origin` towards the shape; the result is what
    /// `random_toward` gives for two numbers of `[0, 1)`.
    pub fn gen_random_dir(&self, origin: &Vec3F, rng: &mut SmallRng) -> (r: Vec3F)
        ensures
            exists|r1: Fp, r2: Fp|
                is_unit_draw(r1) && is_unit_draw(r2) && r == #[trigger] self.spec_random_toward(
                    *origin,
                    r1,
                    r2,
                ),
    {
        let r1 = uniform_unit(rng);
        let r2 = uniform_unit(rng);
        self.random_toward(origin, r1, r2)
    }

    /// The density of the ray's direction among the directions from its
    /// origin towards the shape.
    pub fn pdf_value(&self, ray: &Ray) -> (r: Fp)
        ensures
            r == self.spec_pdf_value(*ray),
    {
        match self {
            Shape::Sphere(s) => s.pdf_value(ray),
            Shape::Quad(q) => q.pdf_value(ray),
        }
    }
}

} // verus!
