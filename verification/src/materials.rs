//! Materials: how a surface scatters a ray and what it emits.
//!
//! Every sampling operation comes in two layers. The inner one takes the
//! random numbers as arguments and is specified exactly. The outer one draws
//! them from a generator and states that its result is what the inner one
//! gives for some draw.

use crate::clearance::lemma_scaled_between;
use crate::fixed::{
    floor_sqrt, fp, isqrt, lemma_floor_sqrt_exists, lemma_sqrt_of_fraction, sat, signed_sat, Fp,
    SCALE,
};
use crate::rng::uniform_unit;
use crate::shapes::{Ray, RayIntersection};
use crate::image::Image;
use crate::textures::{Texture, TextureChecker, TextureImage, TextureSolidColor};
use crate::trig::{lemma_sin_cos_range, sin_cos_turns, spec_cos_turns, spec_sin_turns, PI_RAW};
use crate::vecmath::{cross, dot, spec_cross, spec_dot, Color3F, Vec3, Vec3F};
use rand::rngs::SmallRng;
use vstd::prelude::*;

verus! {

/// A random unit vector is looked for this many times before the x axis is
/// taken in its place.
pub const UNIT_VECTOR_ATTEMPTS: u32 = 64;

/// A candidate for a unit vector is refused where its squared length is
/// below this: `1e-8`.
pub const MIN_LENGTH_SQUARED_RAW: i64 = 10;

/// A normal whose x component exceeds this is taken as nearly parallel to
/// the x axis: `0.9`.
pub const NEARLY_PARALLEL_RAW: i64 = 900_000_000;

pub struct MaterialDiffuse {
    pub tex: Texture,
}

pub struct MaterialMetal {
    pub albedo: Color3F,
    pub fuzz: Fp,
}

pub struct MaterialDielectric {
    pub refrac_index: Fp,
}

pub struct MaterialDiffuseLight {
    pub albedo: Color3F,
}

pub enum Material {
    Diffuse(MaterialDiffuse),
    Metal(MaterialMetal),
    Dielectric(MaterialDielectric),
    DiffuseLight(MaterialDiffuseLight),
}

/// A scattered ray, the colour it is weighted with, and the density with
/// which its direction was drawn.
pub struct ScatteredResult {
    pub ray: Ray,
    pub albedo: Color3F,
    pub probability: Fp,
}

/// A direction and the density with which it was drawn.
pub struct PdfSample {
    pub dir: Vec3F,
    pub probability: Fp,
}

/// The density `cos(a) / pi` over the hemisphere round the z axis, `a` being
/// the angle to that axis.
pub struct PdfCosineHemisphere {}

/// `0 <= r < 1`.
pub open spec fn is_unit_draw(r: Fp) -> bool {
    0 <= r.raw < SCALE
}

/// The mirror image of `in_dir` at a surface with the given normal.
pub open spec fn spec_reflect(in_dir: Vec3F, normal: Vec3F) -> Vec3F {
    in_dir.spec_sub(normal.spec_scale(Fp::spec_from_int(2).spec_mul(spec_dot(in_dir, normal))))
}

pub fn reflect(in_dir: &Vec3F, normal: &Vec3F) -> (r: Vec3F)
    ensures
        r == spec_reflect(*in_dir, *normal),
{
    in_dir.sub(normal.scale(Fp::from_int(2).mul(dot(in_dir, normal))))
}

/// The part of the refracted direction across the normal.
pub open spec fn spec_refract_perp(in_dir: Vec3F, normal: Vec3F, refrac_index: Fp) -> Vec3F {
    in_dir.spec_sub(normal.spec_scale(spec_dot(in_dir, normal))).spec_scale(refrac_index)
}

/// The direction of `in_dir` after it crosses a surface with the given
/// normal, by Snell's law; `refrac_index` is the index on the incoming side
/// over the index on the outgoing side.
pub open spec fn spec_refract(in_dir: Vec3F, normal: Vec3F, refrac_index: Fp) -> Vec3F {
    let perp = spec_refract_perp(in_dir, normal, refrac_index);
    let parallel = normal.spec_scale(spec_refract_side(in_dir, perp).spec_neg());
    perp.spec_add(parallel)
}

/// The length of the part of the refracted direction along the normal: the
/// side of the right triangle whose longest side is as long as `in_dir` and
/// whose other side is `perp`. It is taken from the raw components without
/// rounding their squares; where `perp` is the longer, the sides change
/// places.
pub open spec fn spec_refract_side(in_dir: Vec3F, perp: Vec3F) -> Fp {
    let whole = in_dir.spec_raw_square();
    let across = perp.spec_raw_square();
    fp(sat(floor_sqrt(if whole >= across { whole - across } else { across - whole })))
}

fn refract_side(in_dir: &Vec3F, perp: &Vec3F) -> (r: Fp)
    ensures
        r == spec_refract_side(*in_dir, *perp),
        0 <= r.raw,
{
    let whole = in_dir.raw_square();
    let across = perp.raw_square();
    let gap = if whole >= across { whole - across } else { across - whole };
    proof {
        lemma_floor_sqrt_exists(gap as int);
    }
    Fp::from_raw(signed_sat(false, isqrt(gap)))
}

pub fn refract(in_dir: &Vec3F, normal: &Vec3F, refrac_index: Fp) -> (r: Vec3F)
    ensures
        r == spec_refract(*in_dir, *normal, refrac_index),
{
    let refrac_dir_perp = in_dir.sub(normal.scale(dot(in_dir, normal))).scale(refrac_index);
    let refrac_dir_parallel = normal.scale(refract_side(in_dir, &refrac_dir_perp).neg());
    refrac_dir_perp.add(refrac_dir_parallel)
}

/// The axis that helps to span the plane across a unit normal: y where the
/// normal is nearly parallel to x, else x.
pub open spec fn spec_helper_axis(axis_z: Vec3F) -> Vec3F {
    if axis_z.x.spec_abs().raw > NEARLY_PARALLEL_RAW {
        Vec3 { x: fp(0), y: fp(SCALE as int), z: fp(0) }
    } else {
        Vec3 { x: fp(SCALE as int), y: fp(0), z: fp(0) }
    }
}

/// A vector given in the frame whose z axis is `n`, in world coordinates.
pub open spec fn spec_local_to_world(n: Vec3F, local_v: Vec3F) -> Vec3F {
    let axis_z = n.spec_normalized();
    let axis_y = spec_cross(axis_z, spec_helper_axis(axis_z)).spec_normalized();
    let axis_x = spec_cross(axis_z, axis_y);
    axis_x.spec_scale(local_v.x).spec_add(axis_y.spec_scale(local_v.y)).spec_add(
        axis_z.spec_scale(local_v.z),
    )
}

/// Takes a vector from the frame whose z axis is `n` to world coordinates.
pub fn from_local_to_world_space(n: &Vec3F, local_v: &Vec3F) -> (r: Vec3F)
    ensures
        r == spec_local_to_world(*n, *local_v),
{
    let local_axis_z = n.normalized();
    let tmp = if local_axis_z.x.abs().raw > NEARLY_PARALLEL_RAW {
        Vec3::new(Fp::zero(), Fp::one(), Fp::zero())
    } else {
        Vec3::new(Fp::one(), Fp::zero(), Fp::zero())
    };
    let local_axis_y = cross(&local_axis_z, &tmp).normalized();
    let local_axis_x = cross(&local_axis_z, &local_axis_y);
    local_axis_x.scale(local_v.x).add(local_axis_y.scale(local_v.y)).add(
        local_axis_z.scale(local_v.z),
    )
}

impl PdfCosineHemisphere {
    /// The direction for two uniform numbers: `r1` turns round the z axis,
    /// at the distance `sqrt(r2)` from it.
    pub open spec fn spec_dir(r1: Fp, r2: Fp) -> Vec3F {
        Vec3 {
            x: spec_cos_turns(r1).spec_mul(r2.spec_sqrt()),
            y: spec_sin_turns(r1).spec_mul(r2.spec_sqrt()),
            z: fp(SCALE as int).spec_sub(r2).spec_sqrt(),
        }
    }

    /// The density at that direction: its z component over pi.
    pub open spec fn spec_probability(r1: Fp, r2: Fp) -> Fp {
        PdfCosineHemisphere::spec_dir(r1, r2).z.spec_div(fp(PI_RAW as int))
    }

    /// The density. It has no parameters, so there is one value of it.
    pub fn new() -> (r: Self)
        ensures
            r == (PdfCosineHemisphere {  }),
    {
        Self {  }
    }

    /// The sample that two uniform numbers give. For a second number of
    /// `[0, 1)` the direction lies in the upper half of the unit cube, with a
    /// height above zero, and the density is not negative.
    pub fn sample_from(&self, r1: Fp, r2: Fp) -> (r: PdfSample)
        ensures
            r.dir == PdfCosineHemisphere::spec_dir(r1, r2),
            r.probability == PdfCosineHemisphere::spec_probability(r1, r2),
            is_unit_draw(r2) ==> {
                &&& -SCALE <= r.dir.x.raw <= SCALE
                &&& -SCALE <= r.dir.y.raw <= SCALE
                &&& 0 < r.dir.z.raw <= SCALE
                &&& 0 <= r.probability.raw <= r.dir.z.raw
            },
    {
        proof {
            if is_unit_draw(r2) {
                lemma_cosine_sample_range(r1, r2);
            }
        }
        let (sin_phi, cos_phi) = sin_cos_turns(r1);
        let x = cos_phi.mul(r2.sqrt());
        let y = sin_phi.mul(r2.sqrt());
        let z = Fp::one().sub(r2).sqrt();
        let probability = z.div(Fp::from_raw(PI_RAW));
        PdfSample { dir: Vec3::new(x, y, z), probability }
    }

    /// Draws a direction; the result is what `sample_from` gives for two
    /// numbers of `[0, 1)`.
    pub fn gen_sample(&self, rng: &mut SmallRng) -> (r: PdfSample)
        ensures
            exists|r1: Fp, r2: Fp|
                is_unit_draw(r1) && is_unit_draw(r2) && r.dir == #[trigger] PdfCosineHemisphere::spec_dir(
                    r1,
                    r2,
                ) && r.probability == PdfCosineHemisphere::spec_probability(r1, r2),
    {
        let r1 = uniform_unit(rng);
        let r2 = uniform_unit(rng);
        self.sample_from(r1, r2)
    }
}

/// A cosine-weighted sample lies in the upper half of the unit cube, its
/// height is above zero, and its density lies between zero and the height.
pub proof fn lemma_cosine_sample_range(r1: Fp, r2: Fp)
    requires
        is_unit_draw(r2),
    ensures
        -SCALE <= PdfCosineHemisphere::spec_dir(r1, r2).x.raw <= SCALE,
        -SCALE <= PdfCosineHemisphere::spec_dir(r1, r2).y.raw <= SCALE,
        0 < PdfCosineHemisphere::spec_dir(r1, r2).z.raw <= SCALE,
        0 <= PdfCosineHemisphere::spec_probability(r1, r2).raw <= PdfCosineHemisphere::spec_dir(
            r1,
            r2,
        ).z.raw,
{
    let one = fp(SCALE as int);
    lemma_sin_cos_range(r1);
    lemma_sqrt_of_fraction(r2);
    lemma_sqrt_of_fraction(one.spec_sub(r2));
    lemma_scaled_between(spec_cos_turns(r1), r2.spec_sqrt());
    lemma_scaled_between(spec_sin_turns(r1), r2.spec_sqrt());
    let z = one.spec_sub(r2).spec_sqrt();
    let s = SCALE as int;
    let zz = z.raw as int;
    assert(0 <= zz * s) by (nonlinear_arith)
        requires
            zz >= 0,
            s > 0,
    ;
    assert(zz * s <= zz * PI_RAW) by (nonlinear_arith)
        requires
            zz >= 0,
            s <= PI_RAW,
    ;
    vstd::arithmetic::div_mod::lemma_div_is_ordered(0, zz * s, PI_RAW as int);
    vstd::arithmetic::div_mod::lemma_div_is_ordered(zz * s, zz * PI_RAW, PI_RAW as int);
    vstd::arithmetic::div_mod::lemma_div_multiples_vanish(zz, PI_RAW as int);
    assert(zz * PI_RAW == PI_RAW * zz) by (nonlinear_arith);
}

impl ScatteredResult {
    /// The result holds the ray from `origin` along `dir` with the given
    /// weight and density.
    pub open spec fn spec_is(self, origin: Vec3F, dir: Vec3F, albedo: Color3F, p: Fp) -> bool {
        &&& self.ray.origin == origin
        &&& self.ray.direction == dir
        &&& self.ray.wf()
        &&& self.albedo == albedo
        &&& self.probability == p
    }
}

impl MaterialDiffuse {
    pub open spec fn wf(self) -> bool {
        self.tex.wf()
    }

    /// Whether `res` is what scattering at `hit` gives for the draws `r1`
    /// and `r2`: the cosine-weighted direction taken from the normal's frame
    /// to the world, weighted with the texture's colour.
    pub open spec fn spec_scatters_to(
        self,
        hit: RayIntersection,
        r1: Fp,
        r2: Fp,
        res: ScatteredResult,
    ) -> bool {
        res.spec_is(
            hit.hit_point,
            spec_local_to_world(hit.normal, PdfCosineHemisphere::spec_dir(r1, r2)),
            self.tex.spec_value(hit.u, hit.v, hit.hit_point),
            PdfCosineHemisphere::spec_probability(r1, r2),
        )
    }

    /// The density with which scattering sends a ray from a surface with
    /// the given normal along `dir`: the cosine of the angle between them
    /// over pi, zero below the surface.
    pub open spec fn spec_scattering_pdf(surface_normal: Vec3F, dir: Vec3F) -> Fp {
        let cos_theta = spec_dot(surface_normal, dir.spec_normalized());
        if cos_theta.raw < 0 {
            fp(0)
        } else {
            cos_theta.spec_div(fp(PI_RAW as int))
        }
    }

    /// A surface of one colour.
    pub fn new_solid_color(albedo: Color3F) -> (r: Self)
        ensures
            r.tex == Texture::Solid(TextureSolidColor { color: albedo }),
            r.wf(),
    {
        Self { tex: Texture::Solid(TextureSolidColor::new(albedo)) }
    }

    /// A checkerboard in space with cells of the given size: the first
    /// colour for the cells of odd parity, the second for those of even
    /// parity.
    pub fn new_checker(odd: Color3F, even: Color3F, scale: Fp) -> (r: Self)
        ensures
            r.tex == Texture::Checker(
                TextureChecker {
                    odd_color: odd,
                    even_color: even,
                    inv_scale: fp(SCALE as int).spec_div(scale),
                },
            ),
            r.wf(),
    {
        Self { tex: Texture::Checker(TextureChecker::new(odd, even, scale)) }
    }

    /// A surface that shows an image.
    pub fn from_image(image: Image) -> (r: Self)
        requires
            image.wf(),
        ensures
            r.tex == Texture::Image(TextureImage { image }),
            r.wf(),
    {
        Self { tex: Texture::Image(TextureImage::new(image)) }
    }

    /// What scattering at `hit` gives for the draws `r1` and `r2`.
    pub fn scatter_with(&self, intersection: &RayIntersection, r1: Fp, r2: Fp) -> (r:
        ScatteredResult)
        requires
            self.wf(),
        ensures
            self.spec_scatters_to(*intersection, r1, r2, r),
    {
        let pdf = PdfCosineHemisphere::new();
        let sample = pdf.sample_from(r1, r2);
        let scattered_ray = from_local_to_world_space(&intersection.normal, &sample.dir);
        ScatteredResult {
            ray: Ray::new(intersection.hit_point, scattered_ray),
            albedo: self.tex.value(intersection.u, intersection.v, intersection.hit_point),
            probability: sample.probability,
        }
    }

    /// Scatters along a cosine-weighted direction round the normal. Always
    /// gives a ray.
    pub fn scatter(&self, intersection: &RayIntersection, rng: &mut SmallRng) -> (r: Option<
        ScatteredResult,
    >)
        requires
            self.wf(),
        ensures
            r is Some,
            exists|r1: Fp, r2: Fp|
                is_unit_draw(r1) && is_unit_draw(r2) && #[trigger] self.spec_scatters_to(
                    *intersection,
                    r1,
                    r2,
                    r->Some_0,
                ),
    {
        let r1 = uniform_unit(rng);
        let r2 = uniform_unit(rng);
        let res = self.scatter_with(intersection, r1, r2);
        let out = Some(res);
        assert(self.spec_scatters_to(*intersection, r1, r2, out->Some_0));
        out
    }

    pub fn scattering_pdf(&self, surface_normal: &Vec3F, scattered_ray: &Ray) -> (r: Fp)
        ensures
            r == MaterialDiffuse::spec_scattering_pdf(*surface_normal, scattered_ray.direction),
    {
        let cos_theta = dot(surface_normal, &scattered_ray.direction.normalized());
        if cos_theta.raw < 0 {
            Fp::zero()
        } else {
            cos_theta.div(Fp::from_raw(PI_RAW))
        }
    }
}

/// Whether a vector of the cube `[-1, 1)^3` is taken as the base of a unit
/// vector: it lies in the unit ball and is not too short.
pub open spec fn spec_accepts(c: Vec3F) -> bool {
    MIN_LENGTH_SQUARED_RAW <= c.spec_length_squared().raw <= SCALE
}

/// The unit vector along an accepted candidate.
pub open spec fn spec_unit_of(c: Vec3F) -> Vec3F {
    c.spec_normalized()
}

/// The unit vector along x.
pub open spec fn spec_unit_x() -> Vec3F {
    Vec3 { x: fp(SCALE as int), y: fp(0), z: fp(0) }
}

/// Whether `unit` can come out of `random_unit_vector`: it is the unit
/// vector of an accepted candidate, or the x axis.
pub open spec fn spec_is_unit_draw_vector(unit: Vec3F) -> bool {
    unit == spec_unit_x() || exists|c: Vec3F| #[trigger] spec_accepts(c) && unit == spec_unit_of(c)
}

/// The unit vector along a candidate, where the candidate is accepted.
pub fn unit_from_candidate(c: &Vec3F) -> (r: Option<Vec3F>)
    ensures
        r is Some <==> spec_accepts(*c),
        r is Some ==> r->Some_0 == spec_unit_of(*c),
{
    let len_sqr = c.length_squared();
    if len_sqr.raw <= SCALE && len_sqr.raw >= MIN_LENGTH_SQUARED_RAW {
        Some(c.normalized())
    } else {
        None
    }
}

/// A random direction: vectors of the cube `[-1, 1)^3` are drawn until one
/// is accepted; after `UNIT_VECTOR_ATTEMPTS` refusals the x axis is given.
pub fn random_unit_vector(rng: &mut SmallRng) -> (r: Vec3F)
    ensures
        spec_is_unit_draw_vector(r),
{
    let mut attempts: u32 = 0;
    while attempts < UNIT_VECTOR_ATTEMPTS
        invariant
            attempts <= UNIT_VECTOR_ATTEMPTS,
        decreases UNIT_VECTOR_ATTEMPTS - attempts,
    {
        let candidate = Vec3F::random_fp_range(rng, Fp::from_int(-1)..Fp::one());
        match unit_from_candidate(&candidate) {
            Some(unit) => {
                return unit;
            },
            None => {},
        }
        attempts += 1;
    }
    Vec3::new(Fp::one(), Fp::zero(), Fp::zero())
}

impl MaterialMetal {
    /// The direction into which a ray along `in_dir` is sent: its mirror
    /// image, made a unit vector, moved by the fuzz times `unit`.
    pub open spec fn spec_scatter_dir(self, in_dir: Vec3F, normal: Vec3F, unit: Vec3F) -> Vec3F {
        spec_reflect(in_dir, normal).spec_normalized().spec_add(unit.spec_scale(self.fuzz))
    }

    /// Whether `res` is what scattering gives where `unit` is the random
    /// unit vector: nothing where the direction does not leave the surface,
    /// else the ray along it with the metal's colour.
    pub open spec fn spec_scatters_to(
        self,
        incident_ray: Ray,
        hit: RayIntersection,
        unit: Vec3F,
        res: Option<ScatteredResult>,
    ) -> bool {
        let dir = self.spec_scatter_dir(incident_ray.direction, hit.normal, unit);
        if spec_dot(dir, hit.normal).raw > 0 {
            res is Some && res->Some_0.spec_is(hit.hit_point, dir, self.albedo, fp(SCALE as int))
        } else {
            res is None
        }
    }

    /// A metal with the fuzz clamped to `[-1, 1]`.
    pub fn new(albedo: Color3F, fuzz: Fp) -> (r: Self)
        ensures
            r.albedo == albedo,
            r.fuzz == fuzz.spec_clamp(fp(-SCALE), fp(SCALE as int)),
            -SCALE <= r.fuzz.raw <= SCALE,
    {
        Self {
            albedo,
            fuzz: if fuzz.raw < -SCALE {
                Fp::from_raw(-SCALE)
            } else if fuzz.raw > SCALE {
                Fp::from_raw(SCALE)
            } else {
                fuzz
            },
        }
    }

    /// What scattering gives where `unit` is the random unit vector.
    pub fn scatter_with(
        &self,
        incident_ray: &Ray,
        intersection: &RayIntersection,
        unit: &Vec3F,
    ) -> (r: Option<ScatteredResult>)
        ensures
            self.spec_scatters_to(*incident_ray, *intersection, *unit, r),
    {
        let reflected_dir = reflect(&incident_ray.direction, &intersection.normal);
        let scattered_ray = reflected_dir.normalized().add(unit.scale(self.fuzz));
        if dot(&scattered_ray, &intersection.normal).raw > 0 {
            Some(
                ScatteredResult {
                    ray: Ray::new(intersection.hit_point, scattered_ray),
                    albedo: self.albedo,
                    probability: Fp::one(),
                },
            )
        } else {
            None
        }
    }

    /// Reflects the ray, blurred by the fuzz. Gives nothing where the
    /// blurred direction points into the surface.
    pub fn scatter(
        &self,
        incident_ray: &Ray,
        intersection: &RayIntersection,
        rng: &mut SmallRng,
    ) -> (r: Option<ScatteredResult>)
        ensures
            exists|unit: Vec3F|
                spec_is_unit_draw_vector(unit) && #[trigger] self.spec_scatters_to(
                    *incident_ray,
                    *intersection,
                    unit,
                    r,
                ),
    {
        let random_unit_dir = random_unit_vector(rng);
        self.scatter_with(incident_ray, intersection, &random_unit_dir)
    }
}

/// The fifth power.
pub open spec fn spec_pow5(x: Fp) -> Fp {
    x.spec_mul(x).spec_mul(x.spec_mul(x)).spec_mul(x)
}

fn pow5(x: Fp) -> (r: Fp)
    ensures
        r == spec_pow5(x),
{
    let square = x.mul(x);
    square.mul(square).mul(x)
}

impl MaterialDielectric {
    /// The reflectance at normal incidence: `((1 - n) / (1 + n))^2`.
    pub open spec fn spec_r0(refrac_index: Fp) -> Fp {
        let one = fp(SCALE as int);
        let r = one.spec_sub(refrac_index).spec_div(one.spec_add(refrac_index));
        r.spec_mul(r)
    }

    /// Schlick's approximation of the reflectance:
    /// `r0 + (1 - r0) * (1 - cos)^5`.
    pub open spec fn spec_reflectance(cos_in_angle: Fp, refrac_index: Fp) -> Fp {
        let one = fp(SCALE as int);
        let r0 = MaterialDielectric::spec_r0(refrac_index);
        r0.spec_add(one.spec_sub(r0).spec_mul(spec_pow5(one.spec_sub(cos_in_angle))))
    }

    /// The ratio of the indices that the ray meets: the reciprocal of the
    /// material's index where it comes from outside.
    pub open spec fn spec_ratio(self, hit: RayIntersection) -> Fp {
        if hit.is_normal_outward {
            fp(SCALE as int).spec_div(self.refrac_index)
        } else {
            self.refrac_index
        }
    }

    /// The cosine of the angle of incidence, at most one.
    pub open spec fn spec_cos_in(incident_ray: Ray, hit: RayIntersection) -> Fp {
        spec_dot(incident_ray.direction.spec_normalized(), hit.normal.spec_neg()).spec_min(
            fp(SCALE as int),
        )
    }

    /// Whether the ray is reflected: always where refraction is impossible
    /// (the ratio times the sine of the angle of incidence exceeds one), else
    /// where the reflectance exceeds the draw.
    pub open spec fn spec_reflects(self, incident_ray: Ray, hit: RayIntersection, draw: Fp) -> bool {
        let one = fp(SCALE as int);
        let ratio = self.spec_ratio(hit);
        let cos_in = MaterialDielectric::spec_cos_in(incident_ray, hit);
        let sin_in = one.spec_sub(cos_in.spec_mul(cos_in)).spec_sqrt();
        ratio.spec_mul(sin_in).raw > SCALE || MaterialDielectric::spec_reflectance(
            cos_in,
            ratio,
        ).raw > draw.raw
    }

    pub open spec fn spec_scatter_dir(self, incident_ray: Ray, hit: RayIntersection, draw: Fp) -> Vec3F {
        if self.spec_reflects(incident_ray, hit, draw) {
            spec_reflect(incident_ray.direction, hit.normal)
        } else {
            spec_refract(incident_ray.direction, hit.normal, self.spec_ratio(hit))
        }
    }

    /// Whether `res` is what scattering gives for the draw: the reflected or
    /// refracted ray, with white weight.
    pub open spec fn spec_scatters_to(
        self,
        incident_ray: Ray,
        hit: RayIntersection,
        draw: Fp,
        res: ScatteredResult,
    ) -> bool {
        let one = fp(SCALE as int);
        res.spec_is(
            hit.hit_point,
            self.spec_scatter_dir(incident_ray, hit, draw),
            Vec3 { x: one, y: one, z: one },
            one,
        )
    }

    pub fn new(refrac_index: Fp) -> (r: Self)
        ensures
            r.refrac_index == refrac_index,
    {
        Self { refrac_index }
    }

    /// What scattering gives where `draw` is the uniform number that the
    /// reflectance is compared with.
    pub fn scatter_with(
        &self,
        incident_ray: &Ray,
        intersection: &RayIntersection,
        draw: Fp,
    ) -> (r: ScatteredResult)
        ensures
            self.spec_scatters_to(*incident_ray, *intersection, draw, r),
    {
        let attenuation = Vec3::new(Fp::one(), Fp::one(), Fp::one());
        let refrac_index = if intersection.is_normal_outward {
            Fp::one().div(self.refrac_index)
        } else {
            self.refrac_index
        };
        let in_dir_normalized = incident_ray.direction.normalized();
        let cos_in_angle = dot(&in_dir_normalized, &intersection.normal.neg()).min(Fp::one());
        let sin_in_angle = Fp::one().sub(cos_in_angle.mul(cos_in_angle)).sqrt();
        let no_refract = refrac_index.mul(sin_in_angle).raw > SCALE;
        let no_refract = no_refract || MaterialDielectric::reflectance(
            cos_in_angle,
            refrac_index,
        ).raw > draw.raw;
        let out_dir = if no_refract {
            reflect(&incident_ray.direction, &intersection.normal)
        } else {
            refract(&incident_ray.direction, &intersection.normal, refrac_index)
        };
        ScatteredResult {
            ray: Ray::new(intersection.hit_point, out_dir),
            albedo: attenuation,
            probability: Fp::one(),
        }
    }

    /// Reflects or refracts the ray. Always gives a ray.
    pub fn scatter(
        &self,
        incident_ray: &Ray,
        intersection: &RayIntersection,
        rng: &mut SmallRng,
    ) -> (r: Option<ScatteredResult>)
        ensures
            r is Some,
            exists|draw: Fp|
                is_unit_draw(draw) && #[trigger] self.spec_scatters_to(
                    *incident_ray,
                    *intersection,
                    draw,
                    r->Some_0,
                ),
    {
        let draw = uniform_unit(rng);
        let res = self.scatter_with(incident_ray, intersection, draw);
        let out = Some(res);
        assert(self.spec_scatters_to(*incident_ray, *intersection, draw, out->Some_0));
        out
    }

    /// Schlick's approximation of the reflectance.
    pub fn reflectance(cos_in_angle: Fp, refrac_index: Fp) -> (r: Fp)
        ensures
            r == MaterialDielectric::spec_reflectance(cos_in_angle, refrac_index),
    {
        let one = Fp::one();
        let r0 = one.sub(refrac_index).div(one.add(refrac_index));
        let r0 = r0.mul(r0);
        r0.add(one.sub(r0).mul(pow5(one.sub(cos_in_angle))))
    }
}

impl MaterialDiffuseLight {
    pub fn new(albedo: Color3F) -> (r: Self)
        ensures
            r.albedo == albedo,
    {
        Self { albedo }
    }

    /// The emitted colour, the same everywhere.
    pub fn emit(&self, _u: Fp, _v: Fp, _p: Vec3F) -> (r: Color3F)
        ensures
            r == self.albedo,
    {
        self.albedo
    }
}

impl Material {
    pub open spec fn wf(self) -> bool {
        match self {
            Material::Diffuse(mat) => mat.wf(),
            _ => true,
        }
    }

    /// The emitted colour: a light's colour, black for every other
    /// material.
    pub open spec fn spec_emit(self) -> Color3F {
        match self {
            Material::DiffuseLight(mat) => mat.albedo,
            _ => Vec3F::spec_zero(),
        }
    }

    pub open spec fn spec_scattering_pdf(self, surface_normal: Vec3F, dir: Vec3F) -> Fp {
        match self {
            Material::Diffuse(mat) => MaterialDiffuse::spec_scattering_pdf(surface_normal, dir),
            _ => fp(SCALE as int),
        }
    }

    /// Whether `res` can come out of scattering: for each kind of material,
    /// what that kind gives for some draw; nothing for a light.
    pub open spec fn spec_may_scatter_to(
        self,
        incident_ray: Ray,
        hit: RayIntersection,
        res: Option<ScatteredResult>,
    ) -> bool {
        match self {
            Material::Diffuse(mat) => res is Some && exists|r1: Fp, r2: Fp|
                is_unit_draw(r1) && is_unit_draw(r2) && #[trigger] mat.spec_scatters_to(
                    hit,
                    r1,
                    r2,
                    res->Some_0,
                ),
            Material::Metal(mat) => exists|unit: Vec3F|
                spec_is_unit_draw_vector(unit) && #[trigger] mat.spec_scatters_to(
                    incident_ray,
                    hit,
                    unit,
                    res,
                ),
            Material::Dielectric(mat) => res is Some && exists|draw: Fp|
                is_unit_draw(draw) && #[trigger] mat.spec_scatters_to(
                    incident_ray,
                    hit,
                    draw,
                    res->Some_0,
                ),
            Material::DiffuseLight(_) => res is None,
        }
    }

    /// Scatters the ray at the hit. A light never scatters, a diffuse
    /// surface and a dielectric always do.
    pub fn scatter(
        &self,
        incident_ray: &Ray,
        intersection: &RayIntersection,
        rng: &mut SmallRng,
    ) -> (r: Option<ScatteredResult>)
        requires
            self.wf(),
        ensures
            self.spec_may_scatter_to(*incident_ray, *intersection, r),
            r is Some ==> r->Some_0.ray.origin == intersection.hit_point && r->Some_0.ray.wf(),
    {
        match self {
            Material::Diffuse(mat) => mat.scatter(intersection, rng),
            Material::Metal(mat) => mat.scatter(incident_ray, intersection, rng),
            Material::Dielectric(mat) => mat.scatter(incident_ray, intersection, rng),
            _ => None,
        }
    }

    pub fn scattering_pdf(&self, surface_normal: &Vec3F, scattered_ray: &Ray) -> (r: Fp)
        ensures
            r == self.spec_scattering_pdf(*surface_normal, scattered_ray.direction),
    {
        match self {
            Material::Diffuse(mat) => mat.scattering_pdf(surface_normal, scattered_ray),
            _ => Fp::one(),
        }
    }

    pub fn emit(&self) -> (r: Color3F)
        ensures
            r == self.spec_emit(),
    {
        match self {
            Material::DiffuseLight(mat) => mat.emit(Fp::zero(), Fp::zero(), Vec3F::zero()),
            _ => Vec3F::zero(),
        }
    }
}

/// Between two media of one refractive index nothing is reflected at normal
/// incidence: the reflectance is the fifth power of one minus the cosine,
/// which vanishes where the cosine is one.
pub proof fn lemma_reflectance_matched_media(cos_in_angle: Fp)
    requires
        -SCALE <= cos_in_angle.raw <= SCALE,
    ensures
        MaterialDielectric::spec_reflectance(cos_in_angle, fp(SCALE as int)) == spec_pow5(
            fp(SCALE as int).spec_sub(cos_in_angle),
        ),
        MaterialDielectric::spec_reflectance(fp(SCALE as int), fp(SCALE as int)) == fp(0),
{
    let one = fp(SCALE as int);
    let s = SCALE as int;
    assert(one.spec_sub(one) == fp(0));
    assert(0 * s == 0);
    assert(MaterialDielectric::spec_r0(one) == fp(0)) by {
        assert(0int * 0int == 0);
    }
    let p = spec_pow5(one.spec_sub(cos_in_angle));
    assert(one.spec_mul(p) == p) by {
        lemma_mul_one(p);
    }
    lemma_pow5_range(one.spec_sub(cos_in_angle));
    assert(spec_pow5(fp(0)) == fp(0)) by {
        assert(0int * 0int == 0);
    }
}

/// One is the unit of multiplication.
pub proof fn lemma_mul_one(a: Fp)
    requires
        a.in_range(),
    ensures
        fp(SCALE as int).spec_mul(a) == a,
        a.spec_mul(fp(SCALE as int)) == a,
{
    let s = SCALE as int;
    let r = a.raw as int;
    assert(s * r == r * s) by (nonlinear_arith);
    if r >= 0 {
        assert((r * s) / s == r) by (nonlinear_arith)
            requires
                s > 0,
        ;
        assert(r * s >= 0) by (nonlinear_arith)
            requires
                r >= 0,
                s > 0,
        ;
    } else {
        assert(((-r) * s) / s == -r) by (nonlinear_arith)
            requires
                s > 0,
        ;
        assert(-(r * s) == (-r) * s) by (nonlinear_arith);
        assert(r * s < 0) by (nonlinear_arith)
            requires
                r < 0,
                s > 0,
        ;
    }
}

/// A fifth power lies in the range that the operations produce.
pub proof fn lemma_pow5_range(x: Fp)
    ensures
        spec_pow5(x).in_range(),
{
}

} // verus!
