//! Ready-made scenes and the cameras that go with them.

use crate::camera::{Camera, CameraBuilder};
use crate::fixed::{fp, Fp, SCALE};
use crate::image::Image;
use crate::materials::{
    Material, MaterialDielectric, MaterialDiffuse, MaterialDiffuseLight, MaterialMetal,
};
use crate::rng::{new_rng, uniform_between, uniform_unit};
use crate::radiance::spec_mild_scene;
use crate::scene::Scene;
use crate::shapes::{Quad, Shape, Sphere};
use crate::textures::{Texture, TextureChecker, TextureImage, TextureSolidColor};
use crate::trig::{sin_cos_turns, spec_cos_turns, spec_sin_turns};
use crate::vecmath::{Color3F, Vec3, Vec3F};
use vstd::prelude::*;

verus! {

/// The seed of the generator that scatters the small spheres of
/// `many_spheres`.
pub const MANY_SPHERES_SEED: u64 = 877;

/// The vector with the given components in thousandths.
pub open spec fn spec_v3(x: int, y: int, z: int) -> Vec3F {
    Vec3 { x: Fp::spec_from_milli(x), y: Fp::spec_from_milli(y), z: Fp::spec_from_milli(z) }
}

/// The vector with the given components in thousandths.
pub fn v3(x: i32, y: i32, z: i32) -> (r: Vec3F)
    ensures
        r == spec_v3(x as int, y as int, z as int),
        r.in_range(),
{
    Vec3::new(Fp::from_milli(x), Fp::from_milli(y), Fp::from_milli(z))
}

/// A diffuse material of one colour.
pub open spec fn spec_solid(color: Color3F) -> Material {
    Material::Diffuse(MaterialDiffuse { tex: Texture::Solid(TextureSolidColor { color }) })
}

/// A sphere as a shape.
pub open spec fn spec_sphere(position: Vec3F, radius: Fp, material: usize) -> Shape {
    Shape::Sphere(Sphere { position, radius, material })
}

/// Whether the shape is the parallelogram with the given corner, edges and
/// material.
#[verifier::opaque]
pub open spec fn spec_is_quad(
    shape: Shape,
    corner: Vec3F,
    edge0: Vec3F,
    edge1: Vec3F,
    material: usize,
) -> bool {
    &&& shape is Quad
    &&& shape->Quad_0.corner == corner
    &&& shape->Quad_0.edges[0] == edge0
    &&& shape->Quad_0.edges[1] == edge1
    &&& shape->Quad_0.material == material
    &&& shape->Quad_0.wf()
    &&& shape.wf()
}

fn solid(r: i32, g: i32, b: i32) -> (m: Material)
    ensures
        m == spec_solid(spec_v3(r as int, g as int, b as int)),
        m.wf(),
{
    Material::Diffuse(MaterialDiffuse::new_solid_color(v3(r, g, b)))
}

fn metal(r: i32, g: i32, b: i32, fuzz: i32) -> (m: Material)
    requires
        -1000 <= fuzz <= 1000,
    ensures
        m == Material::Metal(
            MaterialMetal {
                albedo: spec_v3(r as int, g as int, b as int),
                fuzz: Fp::spec_from_milli(fuzz as int),
            },
        ),
        m.wf(),
{
    Material::Metal(MaterialMetal::new(v3(r, g, b), Fp::from_milli(fuzz)))
}

fn glass(refrac_index: Fp) -> (m: Material)
    ensures
        m == Material::Dielectric(MaterialDielectric { refrac_index }),
        m.wf(),
{
    Material::Dielectric(MaterialDielectric::new(refrac_index))
}

fn sphere(x: i32, y: i32, z: i32, radius: i32, material: usize) -> (s: Shape)
    ensures
        s == spec_sphere(
            spec_v3(x as int, y as int, z as int),
            Fp::spec_from_milli(radius as int),
            material,
        ),
        s.wf(),
        s.spec_material() == material,
{
    Shape::Sphere(Sphere::new(v3(x, y, z), Fp::from_milli(radius), material))
}

fn quad(corner: Vec3F, edge0: Vec3F, edge1: Vec3F, material: usize) -> (s: Shape)
    ensures
        spec_is_quad(s, corner, edge0, edge1, material),
        s is Quad,
        s.wf(),
        s.spec_material() == material,
{
    proof {
        reveal(spec_is_quad);
    }
    Shape::Quad(Quad::new(corner, edge0, edge1, material))
}

/// A vector turned round the y axis by an angle of the given sine and
/// cosine.
pub open spec fn spec_rotate_y(v: Vec3F, sin: Fp, cos: Fp) -> Vec3F {
    Vec3 {
        x: cos.spec_mul(v.x).spec_add(sin.spec_mul(v.z)),
        y: v.y,
        z: cos.spec_mul(v.z).spec_sub(sin.spec_mul(v.x)),
    }
}

fn rotate_y(v: Vec3F, sin: Fp, cos: Fp) -> (r: Vec3F)
    ensures
        r == spec_rotate_y(v, sin, cos),
{
    Vec3::new(cos.mul(v.x).add(sin.mul(v.z)), v.y, cos.mul(v.z).sub(sin.mul(v.x)))
}

/// Whether the shape is the face of a box with the given corner and edges,
/// turned round the y axis by `turns` and then moved by `offset`.
#[verifier::opaque]
pub open spec fn spec_is_box_face(
    shape: Shape,
    corner: Vec3F,
    edge0: Vec3F,
    edge1: Vec3F,
    material: usize,
    offset: Vec3F,
    turns: Fp,
) -> bool {
    let sin = spec_sin_turns(turns);
    let cos = spec_cos_turns(turns);
    spec_is_quad(
        shape,
        spec_rotate_y(corner, sin, cos).spec_add(offset),
        spec_rotate_y(edge0, sin, cos),
        spec_rotate_y(edge1, sin, cos),
        material,
    )
}

fn box_face(
    corner: Vec3F,
    edge0: Vec3F,
    edge1: Vec3F,
    material: usize,
    offset: Vec3F,
    turns: Fp,
) -> (s: Shape)
    ensures
        spec_is_box_face(s, corner, edge0, edge1, material, offset, turns),
        s is Quad,
        s.wf(),
        s.spec_material() == material,
{
    proof {
        reveal(spec_is_box_face);
    }
    let (sin, cos) = sin_cos_turns(turns);
    quad(
        rotate_y(corner, sin, cos).add(offset),
        rotate_y(edge0, sin, cos),
        rotate_y(edge1, sin, cos),
        material,
    )
}

/// Whether the six shapes are the faces of the box between the corners `a`
/// and `b`, turned round the y axis by `turns` and then moved by `offset`:
/// front, right, back, left, top, bottom.
pub open spec fn spec_is_box(
    faces: Seq<Shape>,
    a: Vec3F,
    b: Vec3F,
    material: usize,
    offset: Vec3F,
    turns: Fp,
) -> bool {
    let lo = Vec3 { x: a.x.spec_min(b.x), y: a.y.spec_min(b.y), z: a.z.spec_min(b.z) };
    let hi = Vec3 { x: a.x.spec_max(b.x), y: a.y.spec_max(b.y), z: a.z.spec_max(b.z) };
    let zero = fp(0);
    let dx = Vec3 { x: hi.x.spec_sub(lo.x), y: zero, z: zero };
    let dy = Vec3 { x: zero, y: hi.y.spec_sub(lo.y), z: zero };
    let dz = Vec3 { x: zero, y: zero, z: hi.z.spec_sub(lo.z) };
    &&& faces.len() == 6
    &&& spec_is_box_face(
        faces[0],
        Vec3 { x: lo.x, y: lo.y, z: hi.z },
        dx,
        dy,
        material,
        offset,
        turns,
    )
    &&& spec_is_box_face(
        faces[1],
        Vec3 { x: hi.x, y: lo.y, z: hi.z },
        dz.spec_neg(),
        dy,
        material,
        offset,
        turns,
    )
    &&& spec_is_box_face(
        faces[2],
        Vec3 { x: hi.x, y: lo.y, z: lo.z },
        dx.spec_neg(),
        dy,
        material,
        offset,
        turns,
    )
    &&& spec_is_box_face(faces[3], lo, dz, dy, material, offset, turns)
    &&& spec_is_box_face(
        faces[4],
        Vec3 { x: lo.x, y: hi.y, z: hi.z },
        dx,
        dz.spec_neg(),
        material,
        offset,
        turns,
    )
    &&& spec_is_box_face(faces[5], lo, dx, dz, material, offset, turns)
}

/// The six faces of the box between the corners `a` and `b`, turned round
/// the y axis by `turns` and then moved by `offset`: front, right,
/// back, left, top, bottom.
pub fn create_box_quads(a: Vec3F, b: Vec3F, material: usize, offset: Vec3F, turns: Fp) -> (r:
    Vec<Shape>)
    ensures
        r@.len() == 6,
        forall|i: int|
            0 <= i < 6 ==> (#[trigger] r@[i]) is Quad && r@[i].wf() && r@[i].spec_material()
                == material,
        spec_is_box(r@, a, b, material, offset, turns),
{
    let lo = Vec3::new(a.x.min(b.x), a.y.min(b.y), a.z.min(b.z));
    let hi = Vec3::new(a.x.max(b.x), a.y.max(b.y), a.z.max(b.z));
    let zero = Fp::zero();
    let dx = Vec3::new(hi.x.sub(lo.x), zero, zero);
    let dy = Vec3::new(zero, hi.y.sub(lo.y), zero);
    let dz = Vec3::new(zero, zero, hi.z.sub(lo.z));
    let mut faces: Vec<Shape> = Vec::new();
    faces.push(box_face(Vec3::new(lo.x, lo.y, hi.z), dx, dy, material, offset, turns));
    faces.push(box_face(Vec3::new(hi.x, lo.y, hi.z), dz.neg(), dy, material, offset, turns));
    faces.push(box_face(Vec3::new(hi.x, lo.y, lo.z), dx.neg(), dy, material, offset, turns));
    faces.push(box_face(lo, dz, dy, material, offset, turns));
    faces.push(box_face(Vec3::new(lo.x, hi.y, hi.z), dx, dz.neg(), material, offset, turns));
    faces.push(box_face(lo, dx, dz, material, offset, turns));
    faces
}

impl Scene {
    /// Whether the scene is well formed, so that it can be traced.
    pub fn is_valid(&self) -> (r: bool)
        ensures
            r == self.wf(),
    {
        let mut i: usize = 0;
        while i < self.materials.len()
            invariant
                i <= self.materials@.len(),
                forall|k: int| 0 <= k < i ==> (#[trigger] self.materials@[k]).wf(),
            decreases self.materials@.len() - i,
        {
            if !material_is_valid(&self.materials[i]) {
                return false;
            }
            i += 1;
        }
        let mut j: usize = 0;
        while j < self.shapes.len()
            invariant
                j <= self.shapes@.len(),
                forall|k: int|
                    0 <= k < j ==> (#[trigger] self.shapes@[k]).spec_material()
                        < self.materials@.len(),
            decreases self.shapes@.len() - j,
        {
            if self.shapes[j].get_material() >= self.materials.len() {
                return false;
            }
            j += 1;
        }
        true
    }

    /// One diffuse sphere before the sky.
    pub fn one_sphere() -> (r: Self)
        ensures
            r.wf(),
            spec_mild_scene(r),
            r.is_background_sky,
            r.lights@.len() == 0,
            r.materials@ == seq![spec_solid(spec_v3(700, 300, 300))],
            r.shapes@ == seq![spec_sphere(spec_v3(0, 0, -1000), Fp::spec_from_milli(500), 0)],
    {
        let mut materials: Vec<Material> = Vec::new();
        materials.push(solid(700, 300, 300));
        let mut shapes: Vec<Shape> = Vec::new();
        shapes.push(sphere(0, 0, -1000, 500, 0));
        Self { materials, shapes, lights: Vec::new(), is_background_sky: true }
    }

    /// A small sphere on a very large one.
    pub fn two_spheres() -> (r: Scene)
        ensures
            r.wf(),
            r.is_background_sky,
            r.lights@.len() == 0,
            r.materials@ == seq![
                spec_solid(spec_v3(700, 300, 300)),
                spec_solid(spec_v3(800, 600, 200)),
            ],
            r.shapes@ == seq![
                spec_sphere(spec_v3(0, -100_500, -1000), Fp::spec_from_milli(100_000), 0),
                spec_sphere(spec_v3(0, 0, -1000), Fp::spec_from_milli(500), 1),
            ],
    {
        let mut materials: Vec<Material> = Vec::new();
        materials.push(solid(700, 300, 300));
        materials.push(solid(800, 600, 200));
        let mut shapes: Vec<Shape> = Vec::new();
        shapes.push(sphere(0, -100_500, -1000, 100_000, 0));
        shapes.push(sphere(0, 0, -1000, 500, 1));
        Self { materials, shapes, lights: Vec::new(), is_background_sky: true }
    }

    /// Two very large spheres that show the given image.
    pub fn two_globes(image: Image) -> (r: Scene)
        requires
            image.wf(),
        ensures
            r.wf(),
            r.is_background_sky,
            r.lights@.len() == 0,
            r.materials@ == seq![
                Material::Diffuse(MaterialDiffuse { tex: Texture::Image(TextureImage { image }) }),
            ],
            r.shapes@ == seq![
                spec_sphere(spec_v3(0, -100_500, -1000), Fp::spec_from_milli(100_000), 0),
                spec_sphere(spec_v3(0, 100_500, -1000), Fp::spec_from_milli(100_000), 0),
            ],
    {
        let mut materials: Vec<Material> = Vec::new();
        materials.push(Material::Diffuse(MaterialDiffuse::from_image(image)));
        let mut shapes: Vec<Shape> = Vec::new();
        shapes.push(sphere(0, -100_500, -1000, 100_000, 0));
        shapes.push(sphere(0, 100_500, -1000, 100_000, 0));
        Self { materials, shapes, lights: Vec::new(), is_background_sky: true }
    }

    /// A diffuse sphere between two metal ones on a checkered ground.
    pub fn three_spheres_metal() -> (r: Scene)
        ensures
            r.wf(),
            r.is_background_sky,
            r.lights@.len() == 0,
            r.materials@.len() == 4,
            r.materials@[0] == Material::Diffuse(
                MaterialDiffuse {
                    tex: Texture::Checker(
                        TextureChecker {
                            odd_color: spec_v3(200, 300, 100),
                            even_color: spec_v3(900, 900, 900),
                            inv_scale: fp(SCALE as int).spec_div(Fp::spec_from_milli(320)),
                        },
                    ),
                },
            ),
            r.materials@[1] == spec_solid(spec_v3(100, 200, 500)),
            r.materials@[2] == Material::Metal(
                MaterialMetal { albedo: spec_v3(800, 800, 800), fuzz: Fp::spec_from_milli(300) },
            ),
            r.materials@[3] == Material::Metal(
                MaterialMetal { albedo: spec_v3(800, 600, 200), fuzz: Fp::spec_from_milli(1000) },
            ),
            r.shapes@ == seq![
                spec_sphere(spec_v3(0, -100_500, -1000), Fp::spec_from_milli(100_000), 0),
                spec_sphere(spec_v3(0, 0, -1200), Fp::spec_from_milli(500), 1),
                spec_sphere(spec_v3(-1000, 0, -1000), Fp::spec_from_milli(500), 2),
                spec_sphere(spec_v3(1000, 0, -1000), Fp::spec_from_milli(500), 3),
            ],
    {
        let mut materials: Vec<Material> = Vec::new();
        materials.push(
            Material::Diffuse(
                MaterialDiffuse::new_checker(
                    v3(200, 300, 100),
                    v3(900, 900, 900),
                    Fp::from_milli(320),
                ),
            ),
        );
        materials.push(solid(100, 200, 500));
        materials.push(metal(800, 800, 800, 300));
        materials.push(metal(800, 600, 200, 1000));
        let mut shapes: Vec<Shape> = Vec::new();
        shapes.push(sphere(0, -100_500, -1000, 100_000, 0));
        shapes.push(sphere(0, 0, -1200, 500, 1));
        shapes.push(sphere(-1000, 0, -1000, 500, 2));
        shapes.push(sphere(1000, 0, -1000, 500, 3));
        Self { materials, shapes, lights: Vec::new(), is_background_sky: true }
    }

    /// A diffuse sphere between a bubble of air in water and a metal sphere.
    pub fn three_spheres_dielectric() -> (r: Scene)
        ensures
            r.wf(),
            r.is_background_sky,
            r.lights@.len() == 0,
            r.materials@ == seq![
                spec_solid(spec_v3(800, 800, 0)),
                spec_solid(spec_v3(100, 200, 500)),
                Material::Dielectric(
                    MaterialDielectric {
                        refrac_index: fp(SCALE as int).spec_div(Fp::spec_from_milli(1333)),
                    },
                ),
                Material::Metal(
                    MaterialMetal {
                        albedo: spec_v3(800, 600, 200),
                        fuzz: Fp::spec_from_milli(1000),
                    },
                ),
            ],
            r.shapes@ == seq![
                spec_sphere(spec_v3(0, -100_500, -1000), Fp::spec_from_milli(100_000), 0),
                spec_sphere(spec_v3(0, 0, -1200), Fp::spec_from_milli(500), 1),
                spec_sphere(spec_v3(-1000, 0, -1000), Fp::spec_from_milli(500), 2),
                spec_sphere(spec_v3(1000, 0, -1000), Fp::spec_from_milli(500), 3),
            ],
    {
        let mut materials: Vec<Material> = Vec::new();
        materials.push(solid(800, 800, 0));
        materials.push(solid(100, 200, 500));
        materials.push(glass(Fp::one().div(Fp::from_milli(1333))));
        materials.push(metal(800, 600, 200, 1000));
        let mut shapes: Vec<Shape> = Vec::new();
        shapes.push(sphere(0, -100_500, -1000, 100_000, 0));
        shapes.push(sphere(0, 0, -1200, 500, 1));
        shapes.push(sphere(-1000, 0, -1000, 500, 2));
        shapes.push(sphere(1000, 0, -1000, 500, 3));
        Self { materials, shapes, lights: Vec::new(), is_background_sky: true }
    }

    /// A diffuse sphere between a hollow glass sphere and a metal one.
    pub fn three_spheres_hollow_glass() -> (r: Scene)
        ensures
            r.wf(),
            r.is_background_sky,
            r.lights@.len() == 0,
            r.materials@ == seq![
                spec_solid(spec_v3(800, 800, 0)),
                spec_solid(spec_v3(100, 200, 500)),
                Material::Dielectric(MaterialDielectric { refrac_index: Fp::spec_from_milli(1500) }),
                Material::Dielectric(
                    MaterialDielectric {
                        refrac_index: fp(SCALE as int).spec_div(Fp::spec_from_milli(1500)),
                    },
                ),
                Material::Metal(
                    MaterialMetal {
                        albedo: spec_v3(800, 600, 200),
                        fuzz: Fp::spec_from_milli(1000),
                    },
                ),
            ],
            r.shapes@ == seq![
                spec_sphere(spec_v3(0, -100_500, -1000), Fp::spec_from_milli(100_000), 0),
                spec_sphere(spec_v3(0, 0, -1200), Fp::spec_from_milli(500), 1),
                spec_sphere(spec_v3(-1000, 0, -1000), Fp::spec_from_milli(500), 2),
                spec_sphere(spec_v3(-1000, 0, -1000), Fp::spec_from_milli(400), 3),
                spec_sphere(spec_v3(1000, 0, -1000), Fp::spec_from_milli(500), 4),
            ],
    {
        let mut materials: Vec<Material> = Vec::new();
        materials.push(solid(800, 800, 0));
        materials.push(solid(100, 200, 500));
        materials.push(glass(Fp::from_milli(1500)));
        materials.push(glass(Fp::one().div(Fp::from_milli(1500))));
        materials.push(metal(800, 600, 200, 1000));
        let mut shapes: Vec<Shape> = Vec::new();
        shapes.push(sphere(0, -100_500, -1000, 100_000, 0));
        shapes.push(sphere(0, 0, -1200, 500, 1));
        shapes.push(sphere(-1000, 0, -1000, 500, 2));
        shapes.push(sphere(-1000, 0, -1000, 400, 3));
        shapes.push(sphere(1000, 0, -1000, 500, 4));
        Self { materials, shapes, lights: Vec::new(), is_background_sky: true }
    }

    /// Five parallelograms of five colours round the line of sight.
    pub fn quads_example() -> (r: Scene)
        ensures
            r.wf(),
            r.is_background_sky,
            r.lights@.len() == 0,
            r.materials@ == seq![
                spec_solid(spec_v3(1000, 200, 200)),
                spec_solid(spec_v3(200, 1000, 200)),
                spec_solid(spec_v3(200, 200, 1000)),
                spec_solid(spec_v3(1000, 500, 0)),
                spec_solid(spec_v3(200, 200, 800)),
            ],
            r.shapes@.len() == 5,
            spec_is_quad(
                r.shapes@[0],
                spec_v3(-3000, -2000, 5000),
                spec_v3(0, 0, -4000),
                spec_v3(0, 4000, 0),
                0,
            ),
            spec_is_quad(
                r.shapes@[1],
                spec_v3(-2000, -2000, 0),
                spec_v3(4000, 0, 0),
                spec_v3(0, 4000, 0),
                1,
            ),
            spec_is_quad(
                r.shapes@[2],
                spec_v3(3000, -2000, 1000),
                spec_v3(0, 0, 4000),
                spec_v3(0, 4000, 0),
                2,
            ),
            spec_is_quad(
                r.shapes@[3],
                spec_v3(-2000, 3000, 1000),
                spec_v3(4000, 0, 0),
                spec_v3(0, 0, 4000),
                3,
            ),
            spec_is_quad(
                r.shapes@[4],
                spec_v3(-2000, -3000, 5000),
                spec_v3(4000, 0, 0),
                spec_v3(0, 0, -4000),
                4,
            ),
    {
        let mut materials: Vec<Material> = Vec::new();
        materials.push(solid(1000, 200, 200));
        materials.push(solid(200, 1000, 200));
        materials.push(solid(200, 200, 1000));
        materials.push(solid(1000, 500, 0));
        materials.push(solid(200, 200, 800));
        let mut shapes: Vec<Shape> = Vec::new();
        shapes.push(quad(v3(-3000, -2000, 5000), v3(0, 0, -4000), v3(0, 4000, 0), 0));
        shapes.push(quad(v3(-2000, -2000, 0), v3(4000, 0, 0), v3(0, 4000, 0), 1));
        shapes.push(quad(v3(3000, -2000, 1000), v3(0, 0, 4000), v3(0, 4000, 0), 2));
        shapes.push(quad(v3(-2000, 3000, 1000), v3(4000, 0, 0), v3(0, 0, 4000), 3));
        shapes.push(quad(v3(-2000, -3000, 5000), v3(4000, 0, 0), v3(0, 0, -4000), 4));
        Self { materials, shapes, lights: Vec::new(), is_background_sky: true }
    }

    /// A room with a red and a green wall, lit by a lamp in the ceiling,
    /// with a glass sphere and a tall box in it. The lamp and the sphere are
    /// the targets of light sampling.
    pub fn cornell_box() -> (r: Scene)
        ensures
            r.wf(),
            !r.is_background_sky,
            r.materials@ == seq![
                spec_solid(spec_v3(640, 50, 50)),
                spec_solid(spec_v3(730, 730, 730)),
                spec_solid(spec_v3(120, 450, 150)),
                Material::DiffuseLight(
                    MaterialDiffuseLight { albedo: spec_v3(15_000, 15_000, 15_000) },
                ),
                Material::Dielectric(MaterialDielectric { refrac_index: Fp::spec_from_milli(1500) }),
            ],
            r.shapes@.len() == 13,
            spec_is_quad(
                r.shapes@[0],
                spec_v3(555_000, 0, 0),
                spec_v3(0, 0, 555_000),
                spec_v3(0, 555_000, 0),
                2,
            ),
            spec_is_quad(
                r.shapes@[1],
                spec_v3(0, 0, 0),
                spec_v3(0, 555_000, 0),
                spec_v3(0, 0, 555_000),
                0,
            ),
            spec_is_quad(
                r.shapes@[2],
                spec_v3(343_000, 554_000, 332_000),
                spec_v3(-130_000, 0, 0),
                spec_v3(0, 0, -105_000),
                3,
            ),
            spec_is_quad(
                r.shapes@[3],
                spec_v3(0, 0, 0),
                spec_v3(0, 0, 555_000),
                spec_v3(555_000, 0, 0),
                1,
            ),
            spec_is_quad(
                r.shapes@[4],
                spec_v3(555_000, 555_000, 555_000),
                spec_v3(-555_000, 0, 0),
                spec_v3(0, 0, -555_000),
                1,
            ),
            spec_is_quad(
                r.shapes@[5],
                spec_v3(0, 0, 555_000),
                spec_v3(0, 555_000, 0),
                spec_v3(555_000, 0, 0),
                1,
            ),
            r.shapes@[6] == spec_sphere(
                spec_v3(190_000, 90_000, 190_000),
                Fp::spec_from_milli(90_000),
                4,
            ),
            forall|i: int|
                7 <= i < 13 ==> (#[trigger] r.shapes@[i]) is Quad && r.shapes@[i].spec_material()
                    == 1,
            spec_is_box(
                r.shapes@.subrange(7, 13),
                spec_v3(0, 0, 0),
                spec_v3(165_000, 330_000, 165_000),
                1,
                spec_v3(265_000, 0, 295_000),
                Fp::spec_from_int(15).spec_div(Fp::spec_from_int(360)),
            ),
            r.lights@.len() == 2,
            spec_is_quad(
                r.lights@[0],
                spec_v3(343_000, 554_000, 332_000),
                spec_v3(-130_000, 0, 0),
                spec_v3(0, 0, -105_000),
                3,
            ),
            r.lights@[1] == spec_sphere(
                spec_v3(190_000, 90_000, 190_000),
                Fp::spec_from_milli(90_000),
                3,
            ),
    {
        let mut materials: Vec<Material> = Vec::new();
        materials.push(solid(640, 50, 50));
        materials.push(solid(730, 730, 730));
        materials.push(solid(120, 450, 150));
        materials.push(
            Material::DiffuseLight(MaterialDiffuseLight::new(v3(15_000, 15_000, 15_000))),
        );
        materials.push(glass(Fp::from_milli(1500)));
        let mut shapes: Vec<Shape> = Vec::new();
        shapes.push(quad(v3(555_000, 0, 0), v3(0, 0, 555_000), v3(0, 555_000, 0), 2));
        shapes.push(quad(v3(0, 0, 0), v3(0, 555_000, 0), v3(0, 0, 555_000), 0));
        shapes.push(
            quad(v3(343_000, 554_000, 332_000), v3(-130_000, 0, 0), v3(0, 0, -105_000), 3),
        );
        shapes.push(quad(v3(0, 0, 0), v3(0, 0, 555_000), v3(555_000, 0, 0), 1));
        shapes.push(
            quad(v3(555_000, 555_000, 555_000), v3(-555_000, 0, 0), v3(0, 0, -555_000), 1),
        );
        shapes.push(quad(v3(0, 0, 555_000), v3(0, 555_000, 0), v3(555_000, 0, 0), 1));
        shapes.push(sphere(190_000, 90_000, 190_000, 90_000, 4));
        let mut box0 = create_box_quads(
            v3(0, 0, 0),
            v3(165_000, 330_000, 165_000),
            1,
            v3(265_000, 0, 295_000),
            Fp::from_int(15).div(Fp::from_int(360)),
        );
        let ghost walls = shapes@;
        let ghost faces = box0@;
        shapes.append(&mut box0);
        assert(shapes@ == walls + faces);
        let mut lights: Vec<Shape> = Vec::new();
        lights.push(
            quad(v3(343_000, 554_000, 332_000), v3(-130_000, 0, 0), v3(0, 0, -105_000), 3),
        );
        lights.push(sphere(190_000, 90_000, 190_000, 90_000, 3));
        let scene = Self { materials, shapes, lights, is_background_sky: false };
        assert forall|i: int| 0 <= i < scene.shapes@.len() implies (
        #[trigger] scene.shapes@[i]).spec_material() < scene.materials@.len() by {
            if i >= 7 {
                assert(scene.shapes@[i] == faces[i - 7]);
            } else {
                assert(scene.shapes@[i] == walls[i]);
            }
        }
        assert forall|i: int| 7 <= i < 13 implies (#[trigger] scene.shapes@[i]) is Quad
            && scene.shapes@[i].spec_material() == 1 by {
            assert(scene.shapes@[i] == faces[i - 7]);
        }
        assert(scene.shapes@.subrange(7, 13) =~= faces);
        scene
    }

    /// Many small spheres of random place and material round three large
    /// ones on the ground. Of the first four shapes and materials nothing is
    /// random.
    pub fn many_spheres() -> (r: Scene)
        ensures
            r.wf(),
            r.is_background_sky,
            r.lights@.len() == 0,
            4 <= r.materials@.len() <= 488,
            4 <= r.shapes@.len() <= 488,
            r.materials@[0] == spec_solid(spec_v3(500, 500, 500)),
            r.materials@[1] == spec_solid(spec_v3(400, 200, 100)),
            r.materials@[2] == Material::Dielectric(
                MaterialDielectric { refrac_index: Fp::spec_from_milli(1500) },
            ),
            r.materials@[3] == Material::Metal(
                MaterialMetal { albedo: spec_v3(700, 600, 500), fuzz: fp(0) },
            ),
            r.shapes@[0] == spec_sphere(
                spec_v3(0, -1_000_000, 0),
                Fp::spec_from_milli(1_000_000),
                0,
            ),
            r.shapes@[1] == spec_sphere(spec_v3(0, 1000, 0), Fp::spec_from_milli(1000), 2),
            r.shapes@[2] == spec_sphere(spec_v3(-4000, 1000, 0), Fp::spec_from_milli(1000), 1),
            r.shapes@[3] == spec_sphere(spec_v3(4000, 1000, 0), Fp::spec_from_milli(1000), 3),
            forall|i: int|
                4 <= i < r.shapes@.len() ==> (#[trigger] r.shapes@[i]) is Sphere
                    && r.shapes@[i]->Sphere_0.radius == Fp::spec_from_milli(200)
                    && r.shapes@[i]->Sphere_0.position.y == Fp::spec_from_milli(200),
    {
        let mut materials: Vec<Material> = Vec::new();
        materials.push(solid(500, 500, 500));
        materials.push(solid(400, 200, 100));
        materials.push(glass(Fp::from_milli(1500)));
        materials.push(metal(700, 600, 500, 0));
        let mut shapes: Vec<Shape> = Vec::new();
        shapes.push(sphere(0, -1_000_000, 0, 1_000_000, 0));
        shapes.push(sphere(0, 1000, 0, 1000, 2));
        shapes.push(sphere(-4000, 1000, 0, 1000, 1));
        shapes.push(sphere(4000, 1000, 0, 1000, 3));

        let mut rand = new_rng(MANY_SPHERES_SEED);
        let ghost first_materials = materials@;
        let ghost first_shapes = shapes@;
        assert(first_materials[0] == spec_solid(spec_v3(500, 500, 500)));
        assert(first_materials[1] == spec_solid(spec_v3(400, 200, 100)));
        assert(first_materials[2] == Material::Dielectric(
            MaterialDielectric { refrac_index: Fp::spec_from_milli(1500) },
        ));
        assert(first_materials[3] == Material::Metal(
            MaterialMetal { albedo: spec_v3(700, 600, 500), fuzz: fp(0) },
        ));
        assert(first_shapes[0] == spec_sphere(
            spec_v3(0, -1_000_000, 0),
            Fp::spec_from_milli(1_000_000),
            0,
        ));
        assert(first_shapes[1] == spec_sphere(spec_v3(0, 1000, 0), Fp::spec_from_milli(1000), 2));
        assert(first_shapes[2] == spec_sphere(
            spec_v3(-4000, 1000, 0),
            Fp::spec_from_milli(1000),
            1,
        ));
        assert(first_shapes[3] == spec_sphere(
            spec_v3(4000, 1000, 0),
            Fp::spec_from_milli(1000),
            3,
        ));

        let mut x: i32 = -11;
        while x < 11
            invariant
                -11 <= x <= 11,
                4 <= materials@.len() <= 4 + (x + 11) * 22,
                4 <= shapes@.len() <= 4 + (x + 11) * 22,
                materials@.subrange(0, 4) == first_materials,
                shapes@.subrange(0, 4) == first_shapes,
                forall|k: int| 0 <= k < materials@.len() ==> (#[trigger] materials@[k]).wf(),
                forall|k: int|
                    0 <= k < shapes@.len() ==> (#[trigger] shapes@[k]).spec_material()
                        < materials@.len(),
                forall|k: int|
                    4 <= k < shapes@.len() ==> (#[trigger] shapes@[k]) is Sphere
                        && shapes@[k]->Sphere_0.radius == Fp::spec_from_milli(200)
                        && shapes@[k]->Sphere_0.position.y == Fp::spec_from_milli(200),
            decreases 11 - x,
        {
            let mut y: i32 = -11;
            while y < 11
                invariant
                    -11 <= x < 11,
                    -11 <= y <= 11,
                    4 <= materials@.len() <= 4 + (x + 11) * 22 + (y + 11),
                    4 <= shapes@.len() <= 4 + (x + 11) * 22 + (y + 11),
                    materials@.subrange(0, 4) == first_materials,
                    shapes@.subrange(0, 4) == first_shapes,
                    forall|k: int| 0 <= k < materials@.len() ==> (#[trigger] materials@[k]).wf(),
                    forall|k: int|
                        0 <= k < shapes@.len() ==> (#[trigger] shapes@[k]).spec_material()
                            < materials@.len(),
                    forall|k: int|
                        4 <= k < shapes@.len() ==> (#[trigger] shapes@[k]) is Sphere
                            && shapes@[k]->Sphere_0.radius == Fp::spec_from_milli(200)
                            && shapes@[k]->Sphere_0.position.y == Fp::spec_from_milli(200),
                decreases 11 - y,
            {
                let spread = Fp::from_milli(900);
                let pos = Vec3::new(
                    Fp::from_int(x).add(spread.mul(uniform_unit(&mut rand))),
                    Fp::from_milli(200),
                    Fp::from_int(y).add(spread.mul(uniform_unit(&mut rand))),
                );
                if pos.sub(v3(4000, 200, 0)).length().raw > spread.raw {
                    let small = Fp::from_milli(200);
                    let choose_material = uniform_unit(&mut rand);
                    if choose_material.raw < 600_000_000 {
                        let albedo = Vec3::new(
                            uniform_unit(&mut rand),
                            uniform_unit(&mut rand),
                            uniform_unit(&mut rand),
                        );
                        let index = materials.len();
                        materials.push(Material::Diffuse(MaterialDiffuse::new_solid_color(albedo)));
                        shapes.push(Shape::Sphere(Sphere::new(pos, small, index)));
                    } else if choose_material.raw < 900_000_000 {
                        let half = Fp::from_milli(500);
                        let albedo = Vec3::new(
                            uniform_between(&mut rand, half, Fp::one()),
                            uniform_between(&mut rand, half, Fp::one()),
                            uniform_between(&mut rand, half, Fp::one()),
                        );
                        let fuzz = uniform_between(&mut rand, Fp::zero(), half);
                        let index = materials.len();
                        materials.push(Material::Metal(MaterialMetal::new(albedo, fuzz)));
                        shapes.push(Shape::Sphere(Sphere::new(pos, small, index)));
                    } else {
                        shapes.push(Shape::Sphere(Sphere::new(pos, small, 2)));
                    }
                }
                y += 1;
            }
            x += 1;
        }
        Self { materials, shapes, lights: Vec::new(), is_background_sky: true }
    }

    /// The camera for `quads_example`: nine units before the origin, with a
    /// field of view of 80 degrees.
    pub fn quads_example_camera(image_width: u32, image_height: u32) -> (r: Camera)
        ensures
            r == (CameraBuilder {
                pixel_width: image_width,
                pixel_height: image_height,
                position: spec_v3(0, 0, 9000),
                lookat: Vec3F::spec_zero(),
                up: spec_v3(0, 1000, 0),
                fov: fp(444_444_444),
                focus_length: Fp::spec_from_int(10),
                defocus_angle: fp(0),
            }).spec_build(),
    {
        let fov = Fp::from_int(80).div(Fp::from_int(180));
        assert(fov.raw == 444_444_444) by {
            assert(80_000_000_000int * 1_000_000_000 == 80_000_000_000_000_000_000int);
            assert(80_000_000_000_000_000_000int / 180_000_000_000int == 444_444_444);
        }
        Camera::builder().pixel_dimension(image_width, image_height).fov(fov).focus_length(
            Fp::from_int(10),
        ).defocus_angle(Fp::zero()).position(v3(0, 0, 9000)).lookat(Vec3F::zero()).up(
            v3(0, 1000, 0),
        ).build()
    }

    /// The camera for `cornell_box`: before the open side of the room, with
    /// a field of view of 40 degrees.
    pub fn cornell_box_camera(image_width: u32, image_height: u32) -> (r: Camera)
        ensures
            r == (CameraBuilder {
                pixel_width: image_width,
                pixel_height: image_height,
                position: spec_v3(278_000, 278_000, -800_000),
                lookat: spec_v3(278_000, 278_000, 0),
                up: spec_v3(0, 1000, 0),
                fov: fp(222_222_222),
                focus_length: Fp::spec_from_int(10),
                defocus_angle: fp(0),
            }).spec_build(),
    {
        let fov = Fp::from_int(40).div(Fp::from_int(180));
        assert(fov.raw == 222_222_222) by {
            assert(40_000_000_000int * 1_000_000_000 == 40_000_000_000_000_000_000int);
            assert(40_000_000_000_000_000_000int / 180_000_000_000int == 222_222_222);
        }
        Camera::builder().pixel_dimension(image_width, image_height).fov(fov).focus_length(
            Fp::from_int(10),
        ).defocus_angle(Fp::zero()).position(v3(278_000, 278_000, -800_000)).lookat(
            v3(278_000, 278_000, 0),
        ).up(v3(0, 1000, 0)).build()
    }
}

/// Whether a material is well formed: an image texture holds as many pixels
/// as its width and height say.
pub fn material_is_valid(material: &Material) -> (r: bool)
    ensures
        r == material.wf(),
{
    match material {
        Material::Diffuse(mat) => match &mat.tex {
            Texture::Image(tex) => {
                assert(tex.image.width * tex.image.height <= 0xffff_ffff * 0xffff_ffff)
                    by (nonlinear_arith)
                    requires
                        tex.image.width <= 0xffff_ffff,
                        tex.image.height <= 0xffff_ffff,
                ;
                let expected: u64 = (tex.image.width as u64) * (tex.image.height as u64);
                tex.image.pixels.len() as u64 == expected
            },
            _ => true,
        },
        _ => true,
    }
}

} // verus!
