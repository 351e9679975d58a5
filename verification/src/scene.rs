//! The scene and the radiance estimator.

use crate::bvh::{
    boxes_admit, build_bvh, bvh_ray_intersect, hit_at, lemma_build_covers,
    lemma_bvh_agrees_with_scan, lemma_scan_finds_closest, spec_build_bvh, spec_bvh_ray_intersect,
    spec_scan, tree_admits, BvhNode,
};
use crate::fixed::{fp, Fp, SCALE};
use crate::lights::{spec_far_limit, spec_near_limit, NEAR_LIMIT_RAW};
use crate::materials::{is_unit_draw, Material, ScatteredResult};
use crate::radiance::{
    lemma_background_is_bounded, lemma_radiance_is_bounded, spec_mild_scene, spec_unit_color,
};
use crate::rng::uniform_index;
use crate::shapes::{Ray, RayIntersection, Shape};
use crate::vecmath::{Color3F, Vec3, Vec3F};
use rand::rngs::SmallRng;
use vstd::prelude::*;

verus! {

/// A path is followed over this many bounces at most.
pub const TRACE_MAX_DEPTH: u32 = 50;

/// A scattered ray, the colour it is weighted with, the density with which
/// its direction was drawn, and whether that density already weights the
/// sample, so that the lights are not sampled.
pub struct ScatterResult {
    pub ray: Ray,
    pub albedo: Color3F,
    pub probability: Fp,
    pub skip_pdf: bool,
}

pub struct Scene {
    pub materials: Vec<Material>,
    pub shapes: Vec<Shape>,
    pub lights: Vec<Shape>,
    pub is_background_sky: bool,
}

/// The result without the flag.
pub open spec fn spec_strip(scattered: Option<ScatterResult>) -> Option<ScatteredResult> {
    match scattered {
        None => None,
        Some(s) => Some(ScatteredResult { ray: s.ray, albedo: s.albedo, probability: s.probability }),
    }
}

/// The radiance that leaves a hit: what the surface emits, and what comes
/// in along the scattered ray, weighted. Where the sample's own density
/// weights it (`skip_pdf`), the weight is the albedo; else it is the albedo
/// times the material's density for the direction over the density with
/// which the direction was drawn.
pub open spec fn spec_shade(
    emission: Color3F,
    scattered: Option<ScatterResult>,
    incoming: Color3F,
    scattering_pdf: Fp,
    mixture_pdf: Fp,
) -> Color3F {
    match scattered {
        None => emission,
        Some(s) => if s.skip_pdf {
            emission.spec_add(s.albedo.spec_mul(incoming))
        } else {
            emission.spec_add(
                s.albedo.spec_scale(scattering_pdf).spec_mul(incoming).spec_div(mixture_pdf),
            )
        },
    }
}

/// The density of the ray's direction among the directions towards the
/// light at `i`.
#[verifier::opaque]
pub open spec fn pdf_at(lights: Seq<Shape>, ray: Ray, i: int) -> Fp {
    lights[i].spec_pdf_value(ray)
}

/// The weight of one light among `n`: one over `n`.
pub open spec fn spec_light_weight(n: int) -> Fp {
    fp(SCALE as int).spec_div(Fp::spec_from_count(n))
}

/// The sum of the first `n` lights' densities for the ray's direction, each
/// weighted by one over the number of lights.
pub open spec fn spec_mixture_pdf(lights: Seq<Shape>, ray: Ray, n: int) -> Fp
    decreases n,
{
    if n <= 0 {
        fp(0)
    } else {
        spec_mixture_pdf(lights, ray, n - 1).spec_add(
            spec_light_weight(lights.len() as int).spec_mul(pdf_at(lights, ray, n - 1)),
        )
    }
}

/// Whether `dir` can be drawn as a direction from `origin` towards the
/// light at `k`.
pub open spec fn spec_may_aim_at(lights: Seq<Shape>, k: int, origin: Vec3F, dir: Vec3F) -> bool {
    exists|r1: Fp, r2: Fp|
        is_unit_draw(r1) && is_unit_draw(r2) && dir == #[trigger] lights[k].spec_random_toward(
            origin,
            r1,
            r2,
        )
}

/// Without light nothing is seen: no emission and no incoming radiance give
/// black, whatever the surface scatters.
pub proof fn lemma_shade_dark(scattered: Option<ScatterResult>, scattering_pdf: Fp, mixture_pdf: Fp)
    ensures
        spec_shade(
            Vec3F::spec_zero(),
            scattered,
            Vec3F::spec_zero(),
            scattering_pdf,
            mixture_pdf,
        ) == Vec3F::spec_zero(),
{
    match scattered {
        None => {},
        Some(s) => {
            let a = if s.skip_pdf {
                s.albedo
            } else {
                s.albedo.spec_scale(scattering_pdf)
            };
            assert(a.x.raw * 0 == 0);
            assert(a.y.raw * 0 == 0);
            assert(a.z.raw * 0 == 0);
            assert(a.spec_mul(Vec3F::spec_zero()) == Vec3F::spec_zero());
            assert(0int * SCALE == 0);
            assert(Vec3F::spec_zero().spec_div(mixture_pdf) == Vec3F::spec_zero());
        },
    }
}

/// Whether `sample` is a direction from `origin` that can be drawn towards
/// the light at `k`, with the mean of all lights' densities for the ray from
/// `origin` along it.
pub open spec fn spec_is_mixture_sample(
    lights: Seq<Shape>,
    origin: Vec3F,
    k: int,
    ray: Ray,
    sample: (Vec3F, Fp),
) -> bool {
    &&& 0 <= k < lights.len()
    &&& spec_may_aim_at(lights, k, origin, sample.0)
    &&& ray.origin == origin
    &&& ray.direction == sample.0
    &&& ray.wf()
    &&& sample.1 == spec_mixture_pdf(lights, ray, lights.len() as int)
}

impl Scene {
    /// Every shape names a material of the table, and every material is
    /// well formed.
    pub open spec fn wf(self) -> bool {
        &&& forall|i: int| 0 <= i < self.materials@.len() ==> (#[trigger] self.materials@[i]).wf()
        &&& forall|i: int|
            0 <= i < self.shapes@.len() ==> (#[trigger] self.shapes@[i]).spec_material()
                < self.materials@.len()
    }

    /// No shape's material emits, and the background is black.
    pub open spec fn spec_is_dark(self) -> bool {
        &&& !self.is_background_sky
        &&& forall|i: int|
            0 <= i < self.shapes@.len() ==> self.materials@[(
            #[trigger] self.shapes@[i]).spec_material() as int].spec_emit() == Vec3F::spec_zero()
    }

    /// The closest hit of the ray with the scene's shapes beyond the near
    /// limit, found by a scan over all of them, and the shape's index.
    pub open spec fn spec_nearest_hit(self, ray: Ray) -> (RayIntersection, int) {
        spec_scan(
            self.shapes@,
            ray,
            spec_near_limit(),
            spec_far_limit(),
            0,
            self.shapes@.len() as int,
        )
    }

    /// What a ray that hits nothing sees: black, or the sky, which goes from
    /// white at the bottom to blue at the top with the height of the ray's
    /// direction.
    pub open spec fn spec_background(self, ray: Ray) -> Color3F {
        if self.is_background_sky {
            let one = fp(SCALE as int);
            let a = fp(SCALE as int / 2).spec_mul(ray.direction.spec_normalized().y.spec_add(one));
            let white = Vec3 { x: one, y: one, z: one };
            let blue = Vec3 { x: fp(500_000_000), y: fp(700_000_000), z: one };
            white.spec_scale(one.spec_sub(a)).spec_add(blue.spec_scale(a))
        } else {
            Vec3F::spec_zero()
        }
    }

    /// Whether `scattered` can come out of scattering at the hit: the
    /// material may scatter to it, and the lights are not sampled.
    pub open spec fn spec_may_scatter_to(
        material: Material,
        incident_ray: Ray,
        hit: RayIntersection,
        scattered: Option<ScatterResult>,
    ) -> bool {
        &&& material.spec_may_scatter_to(incident_ray, hit, spec_strip(scattered))
        &&& scattered is Some ==> scattered->Some_0.skip_pdf && scattered->Some_0.ray.wf()
    }

    /// Whether `color` can leave a hit where scattering gives `scattered`,
    /// the path goes on along `next`, and `incoming` comes in along it: the
    /// material may scatter so, the next ray starts at the hit and is the
    /// scattered ray unless the lights are sampled, and `color` is the
    /// radiance that leaves the hit.
    pub open spec fn spec_bounce(
        ray: Ray,
        hit: RayIntersection,
        material: Material,
        scattered: Option<ScatterResult>,
        next: Ray,
        incoming: Color3F,
        s_pdf: Fp,
        m_pdf: Fp,
        color: Color3F,
    ) -> bool {
        &&& Scene::spec_may_scatter_to(material, ray, hit, scattered)
        &&& scattered is Some ==> {
            &&& next.origin == hit.hit_point
            &&& scattered->Some_0.skip_pdf ==> next == scattered->Some_0.ray
        }
        &&& color == spec_shade(material.spec_emit(), scattered, incoming, s_pdf, m_pdf)
    }

    /// Whether `color` can be the radiance along the ray at the given
    /// depth: black beyond the greatest depth; the background where the ray
    /// hits nothing; else what can leave the closest hit, where what comes
    /// in can be the radiance along the next ray at the next depth.
    pub open spec fn spec_may_trace_to(self, ray: Ray, depth: int, color: Color3F) -> bool
        decreases TRACE_MAX_DEPTH + 1 - depth,
    {
        if depth > TRACE_MAX_DEPTH {
            color == Vec3F::spec_zero()
        } else {
            let (hit, index) = self.spec_nearest_hit(ray);
            if !hit.hit {
                color == self.spec_background(ray)
            } else {
                let material = self.materials@[self.shapes@[index].spec_material() as int];
                exists|
                    scattered: Option<ScatterResult>,
                    next: Ray,
                    incoming: Color3F,
                    s_pdf: Fp,
                    m_pdf: Fp,
                |
                    {
                        &&& #[trigger] Scene::spec_bounce(
                            ray,
                            hit,
                            material,
                            scattered,
                            next,
                            incoming,
                            s_pdf,
                            m_pdf,
                            color,
                        )
                        &&& scattered is Some ==> self.spec_may_trace_to(
                            next,
                            depth + 1,
                            incoming,
                        )
                    }
            }
        }
    }

    /// What the shape at `i` gives for the ray beyond the near limit.
    pub fn hit_of(&self, i: usize, ray: &Ray) -> (r: RayIntersection)
        requires
            self.wf(),
            i < self.shapes@.len(),
        ensures
            r == hit_at(self.shapes@, *ray, spec_near_limit(), spec_far_limit(), i as int),
    {
        proof {
            reveal(hit_at);
        }
        let limits = Fp::from_raw(NEAR_LIMIT_RAW)..Fp::max_value();
        self.shapes[i].ray_intersect(ray, &limits)
    }

    /// The closest hit of the ray with the scene's shapes beyond the near
    /// limit, and the index of the shape that was hit.
    pub fn nearest_hit(&self, ray: &Ray) -> (r: (RayIntersection, usize))
        requires
            self.wf(),
        ensures
            (r.0, r.1 as int) == self.spec_nearest_hit(*ray),
            r.0.hit ==> r.1 < self.shapes@.len(),
    {
        let mut nearest = RayIntersection { t: Fp::max_value(), ..RayIntersection::miss() };
        let mut index: usize = 0;
        let mut i: usize = 0;
        while i < self.shapes.len()
            invariant
                self.wf(),
                i <= self.shapes@.len(),
                (nearest, index as int) == spec_scan(
                    self.shapes@,
                    *ray,
                    spec_near_limit(),
                    spec_far_limit(),
                    0,
                    i as int,
                ),
                nearest.hit ==> index < i,
            decreases self.shapes@.len() - i,
        {
            let intersection = self.hit_of(i, ray);
            if intersection.hit && intersection.t.raw < nearest.t.raw {
                nearest = intersection;
                index = i;
            }
            i += 1;
        }
        (nearest, index)
    }

    /// The tree over the scene's shapes; none for a scene without shapes.
    pub fn build_bvh(&self) -> (r: Option<Box<BvhNode>>)
        ensures
            r is None <==> self.shapes@.len() == 0,
            r is Some ==> {
                &&& *r->Some_0 == spec_build_bvh(self.shapes@, 0)
                &&& r->Some_0.covers(self.shapes@, 0)
                &&& r->Some_0.leaves() == self.shapes@.len()
                &&& r->Some_0.indices_within(self.shapes@.len() as int)
            },
    {
        if self.shapes.len() == 0 {
            None
        } else {
            proof {
                assert(self.shapes@.subrange(0, self.shapes@.len() as int) =~= self.shapes@);
                lemma_build_covers(self.shapes@, 0, self.shapes@.len() as int);
            }
            Some(build_bvh(self.shapes.as_slice(), 0))
        }
    }

    /// The closest hit of the ray with the scene's shapes beyond the near
    /// limit, found by way of a tree over the shapes, and the index of the
    /// shape that was hit.
    pub fn nearest_hit_bvh(&self, bvh: &BvhNode, ray: &Ray) -> (r: (RayIntersection, usize))
        requires
            self.wf(),
            bvh.indices_within(self.shapes@.len() as int),
        ensures
            r == spec_bvh_ray_intersect(
                *bvh,
                self.shapes@,
                *ray,
                spec_near_limit(),
                spec_far_limit(),
            ),
    {
        let limits = Fp::from_raw(NEAR_LIMIT_RAW)..Fp::max_value();
        bvh_ray_intersect(bvh, self.shapes.as_slice(), ray, &limits)
    }

    /// Whether the boxes of the tree admit every hit of the ray beyond the
    /// near limit. Where they do, the query on the tree and the scan over
    /// the shapes agree: both hit or both miss, and where they hit they give
    /// the same record and the same shape.
    pub fn bvh_admits(&self, bvh: &BvhNode, ray: &Ray) -> (r: bool)
        requires
            bvh.covers(self.shapes@, 0),
        ensures
            r == boxes_admit(
                *bvh,
                self.shapes@,
                *ray,
                spec_near_limit(),
                spec_far_limit(),
                0,
            ),
            r && bvh.leaves() == self.shapes@.len() ==> ({
                let by_tree = spec_bvh_ray_intersect(
                    *bvh,
                    self.shapes@,
                    *ray,
                    spec_near_limit(),
                    spec_far_limit(),
                );
                let by_scan = self.spec_nearest_hit(*ray);
                &&& by_tree.0.hit == by_scan.0.hit
                &&& by_tree.0.hit ==> by_tree.0 == by_scan.0 && by_tree.1 == by_scan.1
            }),
    {
        let limits = Fp::from_raw(NEAR_LIMIT_RAW)..Fp::max_value();
        let (admits, _, _) = tree_admits(bvh, self.shapes.as_slice(), ray, &limits, 0);
        proof {
            if admits {
                lemma_bvh_agrees_with_scan(
                    *bvh,
                    self.shapes@,
                    *ray,
                    spec_near_limit(),
                    spec_far_limit(),
                    0,
                );
            }
        }
        admits
    }

    /// What a ray that hits nothing sees.
    pub fn background(&self, ray: &Ray) -> (r: Color3F)
        ensures
            r == self.spec_background(*ray),
    {
        if self.is_background_sky {
            let one = Fp::one();
            let ray_dir_normalized = ray.direction.normalized();
            let a = Fp::from_raw(SCALE / 2).mul(ray_dir_normalized.y.add(one));
            let white = Vec3::new(one, one, one);
            let blue = Vec3::new(Fp::from_raw(500_000_000), Fp::from_raw(700_000_000), one);
            white.scale(one.sub(a)).add(blue.scale(a))
        } else {
            Vec3F::zero()
        }
    }

    /// The radiance that leaves a hit, given what the surface emits, what
    /// scattering gave, and the radiance that comes in along the scattered
    /// ray.
    pub fn shade(
        emission: Color3F,
        scattered: &Option<ScatterResult>,
        incoming: Color3F,
        scattering_pdf: Fp,
        mixture_pdf: Fp,
    ) -> (r: Color3F)
        ensures
            r == spec_shade(emission, *scattered, incoming, scattering_pdf, mixture_pdf),
    {
        match scattered {
            None => emission,
            Some(s) => {
                if s.skip_pdf {
                    emission.add(s.albedo.mul(incoming))
                } else {
                    emission.add(
                        s.albedo.scale(scattering_pdf).mul(incoming).div(mixture_pdf),
                    )
                }
            },
        }
    }

    /// Scatters the ray at the hit by the material's rule. Every material
    /// weights its sample by its own density, so the lights are never to be
    /// sampled for it.
    pub fn scatter(
        incident_ray: &Ray,
        intersection: &RayIntersection,
        material: &Material,
        rng: &mut SmallRng,
    ) -> (r: Option<ScatterResult>)
        requires
            material.wf(),
        ensures
            Scene::spec_may_scatter_to(*material, *incident_ray, *intersection, r),
    {
        match material.scatter(incident_ray, intersection, rng) {
            Some(s) => {
                let out = Some(
                    ScatterResult {
                        ray: s.ray,
                        albedo: s.albedo,
                        probability: s.probability,
                        skip_pdf: true,
                    },
                );
                assert(spec_strip(out) == Some(s));
                out
            },
            None => {
                let out: Option<ScatterResult> = None;
                assert(spec_strip(out) == None::<ScatteredResult>);
                out
            },
        }
    }

    /// The density of the ray's direction among the directions towards the
    /// light at `i`.
    pub fn light_pdf(&self, i: usize, ray: &Ray) -> (r: Fp)
        requires
            self.wf(),
            i < self.lights@.len(),
        ensures
            r == pdf_at(self.lights@, *ray, i as int),
    {
        proof {
            reveal(pdf_at);
        }
        self.lights[i].pdf_value(ray)
    }

    /// The mean of all lights' densities for the ray's direction.
    pub fn mixture_pdf(&self, ray: &Ray) -> (r: Fp)
        requires
            self.wf(),
        ensures
            r == spec_mixture_pdf(self.lights@, *ray, self.lights@.len() as int),
    {
        let weight = Fp::one().div(Fp::from_count(self.lights.len()));
        let mut sum = Fp::zero();
        let mut i: usize = 0;
        while i < self.lights.len()
            invariant
                self.wf(),
                i <= self.lights@.len(),
                weight == spec_light_weight(self.lights@.len() as int),
                sum == spec_mixture_pdf(self.lights@, *ray, i as int),
            decreases self.lights@.len() - i,
        {
            sum = sum.add(weight.mul(self.light_pdf(i, ray)));
            i += 1;
        }
        sum
    }

    /// A direction from `origin` towards the light at `k`, drawn at random.
    pub fn aim_at_light(&self, k: usize, origin: &Vec3F, rng: &mut SmallRng) -> (r: Vec3F)
        requires
            k < self.lights@.len(),
        ensures
            spec_may_aim_at(self.lights@, k as int, *origin, r),
    {
        self.lights[k].gen_random_dir(origin, rng)
    }

    /// A direction from `origin` towards a light chosen at random, and the
    /// mean of all lights' densities for that direction. Without lights, the
    /// zero vector and zero.
    pub fn pdf_mixture_sample(&self, origin: &Vec3F, rng: &mut SmallRng) -> (r: (Vec3F, Fp))
        requires
            self.wf(),
        ensures
            self.lights@.len() == 0 ==> r == (Vec3F::spec_zero(), fp(0)),
            self.lights@.len() > 0 ==> exists|k: int, ray: Ray| #[trigger]
                spec_is_mixture_sample(self.lights@, *origin, k, ray, r),
    {
        if self.lights.len() > 0 {
            let light_index = uniform_index(rng, self.lights.len());
            let random_dir = self.aim_at_light(light_index, origin, rng);
            let ray = Ray::new(*origin, random_dir);
            let sum = self.mixture_pdf(&ray);
            let out = (random_dir, sum);
            assert(spec_is_mixture_sample(self.lights@, *origin, light_index as int, ray, out));
            out
        } else {
            (Vec3F::zero(), Fp::zero())
        }
    }

    /// The radiance that comes in along the ray, estimated along one random
    /// path. Beyond `TRACE_MAX_DEPTH` bounces the path is cut off and black
    /// is returned. A ray that hits nothing sees the background. At a hit the
    /// surface's emission is added to the weighted radiance that comes in
    /// along the scattered ray.
    pub fn trace(&self, ray: &Ray, rng: &mut SmallRng, depth: u32) -> (color: Color3F)
        requires
            self.wf(),
        ensures
            self.spec_may_trace_to(*ray, depth as int, color),
            depth > TRACE_MAX_DEPTH ==> color == Vec3F::spec_zero(),
            self.spec_is_dark() ==> color == Vec3F::spec_zero(),
            spec_mild_scene(*self) ==> spec_unit_color(color),
        decreases TRACE_MAX_DEPTH + 1 - depth,
    {
        if depth > TRACE_MAX_DEPTH {
            return Vec3F::zero();
        }
        proof {
            lemma_background_is_bounded(*self, *ray);
        }
        let (nearest, index) = self.nearest_hit(ray);
        if nearest.hit {
            let material = &self.materials[self.shapes[index].get_material()];
            let emission = material.emit();
            let scattered = Scene::scatter(ray, &nearest, material, rng);
            let one = Fp::one();
            let ghost mut next = *ray;
            let (incoming, scattering_pdf, mixture_pdf) = match &scattered {
                None => (Vec3F::zero(), one, one),
                Some(s) => {
                    if s.skip_pdf {
                        proof {
                            next = s.ray;
                        }
                        (self.trace(&s.ray, rng, depth + 1), one, one)
                    } else {
                        let (random_dir, pdf_value) = self.pdf_mixture_sample(
                            &nearest.hit_point,
                            rng,
                        );
                        let scattered_ray = Ray::new(nearest.hit_point, random_dir);
                        let scattering_pdf = material.scattering_pdf(
                            &nearest.normal,
                            &scattered_ray,
                        );
                        proof {
                            next = scattered_ray;
                        }
                        (self.trace(&scattered_ray, rng, depth + 1), scattering_pdf, pdf_value)
                    }
                },
            };
            let color = Scene::shade(emission, &scattered, incoming, scattering_pdf, mixture_pdf);
            proof {
                if self.spec_is_dark() {
                    lemma_shade_dark(scattered, scattering_pdf, mixture_pdf);
                }
                assert(Scene::spec_bounce(
                    *ray,
                    nearest,
                    *material,
                    scattered,
                    next,
                    incoming,
                    scattering_pdf,
                    mixture_pdf,
                    color,
                ));
                assert(self.spec_may_trace_to(*ray, depth as int, color));
                if spec_mild_scene(*self) {
                    lemma_radiance_is_bounded(*self, *ray, depth as int, color);
                }
            }
            color
        } else {
            self.background(ray)
        }
    }
}

/// A scene without light is black: where no shape's material emits and the
/// background is black, black is the only radiance that can be traced along
/// any ray at any depth.
pub proof fn lemma_dark_scene_is_black(scene: Scene, ray: Ray, depth: int, color: Color3F)
    requires
        scene.spec_is_dark(),
        scene.spec_may_trace_to(ray, depth, color),
    ensures
        color == Vec3F::spec_zero(),
    decreases TRACE_MAX_DEPTH + 1 - depth,
{
    if depth <= TRACE_MAX_DEPTH {
        let (hit, index) = scene.spec_nearest_hit(ray);
        if hit.hit {
            lemma_scan_finds_closest(
                scene.shapes@,
                ray,
                spec_near_limit(),
                spec_far_limit(),
                0,
                scene.shapes@.len() as int,
            );
            let material = scene.materials@[scene.shapes@[index].spec_material() as int];
            assert(material.spec_emit() == Vec3F::spec_zero());
            let (scattered, next, incoming, s_pdf, m_pdf) = choose|
                scattered: Option<ScatterResult>,
                next: Ray,
                incoming: Color3F,
                s_pdf: Fp,
                m_pdf: Fp,
            |
                {
                    &&& #[trigger] Scene::spec_bounce(
                        ray,
                        hit,
                        material,
                        scattered,
                        next,
                        incoming,
                        s_pdf,
                        m_pdf,
                        color,
                    )
                    &&& scattered is Some ==> scene.spec_may_trace_to(next, depth + 1, incoming)
                };
            match scattered {
                None => {},
                Some(s) => {
                    lemma_dark_scene_is_black(scene, next, depth + 1, incoming);
                    lemma_shade_dark(scattered, s_pdf, m_pdf);
                },
            }
        }
    }
}

} // verus!
