use rand::rngs::SmallRng;
use rand::{Rng, SeedableRng};
use raytracer::bvh::{build_bvh, bvh_ray_intersect, BvhNode};
use raytracer::fixed::{Fp, SCALE};
use raytracer::materials::{Material, MaterialDiffuse};
use raytracer::scene::Scene;
use raytracer::shapes::{Aabb, Quad, Ray, Shape, Sphere};
use raytracer::vecmath::{Vec3, Vec3F};

fn v(x: i32, y: i32, z: i32) -> Vec3F {
    Vec3::new(Fp::from_milli(x), Fp::from_milli(y), Fp::from_milli(z))
}

fn grey() -> Material {
    Material::Diffuse(MaterialDiffuse::new_solid_color(v(500, 500, 500)))
}

fn row_of_spheres(n: i32) -> Vec<Shape> {
    (0..n).map(|i| Shape::Sphere(Sphere::new(v(3000 * i, 0, -5000), Fp::one(), 0))).collect()
}

fn leaf_indices(node: &BvhNode, out: &mut Vec<usize>) {
    match node {
        BvhNode::Leaf(leaf) => out.push(leaf.shape_index),
        BvhNode::Link(link) => {
            leaf_indices(&link.left, out);
            leaf_indices(&link.right, out);
        }
    }
}

fn boxes_are_merged(node: &BvhNode, shapes: &[Shape]) -> bool {
    match node {
        BvhNode::Leaf(leaf) => leaf.aabb == shapes[leaf.shape_index].calc_aabb(),
        BvhNode::Link(link) => {
            link.aabb == Aabb::merge(link.left.aabb(), link.right.aabb())
                && boxes_are_merged(&link.left, shapes)
                && boxes_are_merged(&link.right, shapes)
        }
    }
}

fn random_scene(rng: &mut SmallRng, n: usize) -> Scene {
    let mut shapes = Vec::new();
    for _ in 0..n {
        let centre = v(rng.gen_range(-6000..6000), rng.gen_range(-6000..6000), rng.gen_range(-6000..6000));
        if rng.gen_range(0..3) == 0 {
            let width = rng.gen_range(200..3000);
            let height = rng.gen_range(200..3000);
            let (e0, e1) = match rng.gen_range(0..5) {
                0 => (v(width, 0, 0), v(0, height, 0)),
                1 => (v(0, width, 0), v(0, 0, height)),
                2 => (v(0, 0, width), v(height, 0, 0)),
                3 => (v(width, height, 0), v(height, -width, rng.gen_range(-900..900))),
                _ => (
                    v(rng.gen_range(-2000..2000), rng.gen_range(200..2000), rng.gen_range(-2000..2000)),
                    v(rng.gen_range(200..2000), rng.gen_range(-2000..2000), rng.gen_range(-2000..-200)),
                ),
            };
            shapes.push(Shape::Quad(Quad::new(centre, e0, e1, 0)));
        } else {
            shapes.push(Shape::Sphere(Sphere::new(centre, Fp::from_milli(rng.gen_range(100..2000)), 0)));
        }
    }
    Scene { materials: vec![grey()], shapes, lights: Vec::new(), is_background_sky: true }
}

#[test]
fn tree_over_one_shape_is_a_leaf() {
    let shapes = row_of_spheres(1);
    let tree = build_bvh(&shapes, 7);
    match &*tree {
        BvhNode::Leaf(leaf) => {
            assert_eq!(leaf.shape_index, 7);
            assert_eq!(leaf.aabb, shapes[0].calc_aabb());
        }
        BvhNode::Link(_) => panic!("a link over one shape"),
    }
}

#[test]
fn tree_halves_the_shapes_in_their_order() {
    let shapes = row_of_spheres(5);
    let tree = build_bvh(&shapes, 0);
    let mut indices = Vec::new();
    leaf_indices(&tree, &mut indices);
    assert_eq!(indices, vec![0, 1, 2, 3, 4]);
    assert!(boxes_are_merged(&tree, &shapes));
    match &*tree {
        BvhNode::Link(top) => {
            let mut left = Vec::new();
            leaf_indices(&top.left, &mut left);
            assert_eq!(left, vec![0, 1]);
            match &*top.right {
                BvhNode::Link(right) => {
                    assert!(matches!(&*right.left, BvhNode::Leaf(leaf) if leaf.shape_index == 2));
                    assert!(matches!(&*right.right, BvhNode::Link(_)));
                }
                BvhNode::Leaf(_) => panic!("three shapes in one leaf"),
            }
            assert_eq!(top.aabb.min, v(-1000, -1000, -6000));
            assert_eq!(top.aabb.max, v(13_000, 1000, -4000));
        }
        BvhNode::Leaf(_) => panic!("five shapes in one leaf"),
    }
}

#[test]
fn tree_query_finds_the_nearest_of_a_row() {
    let scene = Scene {
        materials: vec![grey()],
        shapes: row_of_spheres(6),
        lights: Vec::new(),
        is_background_sky: true,
    };
    let tree = scene.build_bvh().unwrap();
    // Along the row from before its first sphere.
    let along = Ray::new(v(-5000, 0, -5000), v(1000, 0, 0));
    let (hit, index) = scene.nearest_hit_bvh(&tree, &along);
    assert!(hit.hit);
    assert_eq!(index, 0);
    assert_eq!(hit.t, Fp::from_int(4));
    // Along the row from behind its last sphere.
    let back = Ray::new(v(20_000, 0, -5000), v(-1000, 0, 0));
    let (hit, index) = scene.nearest_hit_bvh(&tree, &back);
    assert!(hit.hit);
    assert_eq!(index, 5);
    assert_eq!(hit.t, Fp::from_int(4));
    // At the fourth sphere.
    let at_fourth = Ray::new(v(9000, 0, 0), v(0, 0, -1000));
    assert_eq!(scene.nearest_hit_bvh(&tree, &at_fourth).1, 3);
    // Between two spheres.
    let between = Ray::new(v(1500, 0, 0), v(0, 0, -1000));
    assert!(!scene.nearest_hit_bvh(&tree, &between).0.hit);
    assert_eq!(scene.nearest_hit_bvh(&tree, &between).1, 0);
}

#[test]
fn tree_query_narrows_the_limits_for_the_right_child() {
    let shapes = row_of_spheres(2);
    let tree = build_bvh(&shapes, 0);
    let ray = Ray::new(v(-5000, 0, -5000), v(1000, 0, 0));
    let (hit, index) = bvh_ray_intersect(&tree, &shapes, &ray, &(Fp::from_int(5)..Fp::from_int(100)));
    // The first sphere's nearer root lies before the limits, its farther one within.
    assert_eq!((hit.t, index), (Fp::from_int(6), 0));
    let (hit, index) = bvh_ray_intersect(&tree, &shapes, &ray, &(Fp::from_milli(6001)..Fp::from_int(100)));
    assert_eq!((hit.t, index), (Fp::from_int(7), 1));
    let (hit, _) = bvh_ray_intersect(&tree, &shapes, &ray, &(Fp::from_milli(1)..Fp::from_int(4)));
    assert!(!hit.hit);
}

#[test]
fn equally_near_hits_go_to_the_earlier_shape() {
    let twin = |m| Shape::Sphere(Sphere::new(v(0, 0, -5000), Fp::one(), m));
    let scene = Scene {
        materials: vec![grey(), grey(), grey()],
        shapes: vec![twin(0), twin(1), twin(2)],
        lights: Vec::new(),
        is_background_sky: true,
    };
    let tree = scene.build_bvh().unwrap();
    let ray = Ray::new(v(0, 0, 0), v(0, 0, -1000));
    assert_eq!(scene.nearest_hit(&ray).1, 0);
    assert_eq!(scene.nearest_hit_bvh(&tree, &ray).1, 0);
}

#[test]
fn tree_query_and_scan_agree_on_random_scenes() {
    let mut rng = SmallRng::seed_from_u64(2024);
    let mut hits = 0;
    let mut on_oblique = 0;
    for round in 0..40 {
        let scene = random_scene(&mut rng, 1 + round % 17);
        assert!(scene.is_valid());
        let tree = scene.build_bvh().unwrap();
        for _ in 0..200 {
            let origin = v(rng.gen_range(-9000..9000), rng.gen_range(-9000..9000), rng.gen_range(-9000..9000));
            let towards = v(rng.gen_range(-6000..6000), rng.gen_range(-6000..6000), rng.gen_range(-6000..6000));
            let ray = Ray::new(origin, towards.sub(origin));
            assert!(scene.bvh_admits(&tree, &ray), "round {} ray {:?}", round, (origin, towards));
            let (by_scan, scan_index) = scene.nearest_hit(&ray);
            let (by_tree, tree_index) = scene.nearest_hit_bvh(&tree, &ray);
            assert_eq!(by_scan.hit, by_tree.hit, "round {} ray {:?}", round, (origin, towards));
            if by_scan.hit {
                hits += 1;
                assert_eq!(scan_index, tree_index);
                assert_eq!(by_scan, by_tree);
                if let Shape::Quad(q) = &scene.shapes[scan_index] {
                    if q.edges[0].y != Fp::zero() && q.edges[0].x != Fp::zero() {
                        on_oblique += 1;
                    }
                }
            }
        }
    }
    assert!(hits > 1000, "only {} hits", hits);
    assert!(on_oblique > 50, "only {} hits on oblique parallelograms", on_oblique);
}

#[test]
fn an_oblique_quad_lies_within_its_box() {
    let slanted = Quad::new(v(0, 0, -3000), v(2000, 0, 0), v(-2000, 2000, 0), 0);
    let scene = Scene {
        materials: vec![grey()],
        shapes: vec![Shape::Quad(slanted)],
        lights: Vec::new(),
        is_background_sky: true,
    };
    let tree = scene.build_bvh().unwrap();
    for ray in [
        Ray::new(v(1600, 200, 0), v(0, 0, -1000)),
        Ray::new(v(-1500, 1800, 0), v(0, 0, -1000)),
        Ray::new(v(0, 1000, 0), v(0, 0, -1000)),
    ] {
        assert!(scene.bvh_admits(&tree, &ray));
        assert!(scene.nearest_hit(&ray).0.hit);
        assert_eq!(scene.nearest_hit_bvh(&tree, &ray), scene.nearest_hit(&ray));
    }
    let turned = Scene {
        materials: vec![grey()],
        shapes: vec![Shape::Quad(Quad::new(v(0, 0, 0), v(3000, 4000, 0), v(4000, -3000, 0), 0))],
        lights: Vec::new(),
        is_background_sky: true,
    };
    let tree = turned.build_bvh().unwrap();
    let ray = Ray::new(v(3500, 3000, 1000), v(0, 0, -1000));
    let (hit, _) = turned.nearest_hit(&ray);
    assert!(hit.hit);
    assert_eq!(hit.hit_point, v(3500, 3000, 0));
    assert!(turned.bvh_admits(&tree, &ray));
    assert_eq!(turned.nearest_hit_bvh(&tree, &ray), turned.nearest_hit(&ray));
}

#[test]
fn a_box_that_is_too_small_is_told() {
    // A tree whose box was shrunk by hand no longer admits the ray that hits
    // the shape beside the box.
    let shapes = row_of_spheres(1);
    let mut tree = build_bvh(&shapes, 0);
    if let BvhNode::Leaf(leaf) = &mut *tree {
        leaf.aabb = Aabb::from_corners(v(500, -1000, -6000), v(1000, 1000, -4000));
    }
    let limits = Fp::from_milli(1)..Fp::max_value();
    let beside = Ray::new(v(-500, 0, 0), v(0, 0, -1000));
    assert!(shapes[0].ray_intersect(&beside, &limits).hit);
    assert!(!bvh_ray_intersect(&tree, &shapes, &beside, &limits).0.hit);
    let through = Ray::new(v(700, 0, 0), v(0, 0, -1000));
    assert!(bvh_ray_intersect(&tree, &shapes, &through, &limits).0.hit);
    let away = Ray::new(v(-500, 5000, 0), v(0, 0, -1000));
    assert!(!bvh_ray_intersect(&tree, &shapes, &away, &limits).0.hit);
}

fn has_clearance(shape: &Shape, ray: &Ray) -> bool {
    let hit = shape.ray_intersect(ray, &(Fp::from_milli(1)..Fp::max_value()));
    if !hit.hit {
        return true;
    }
    let margin = hit.t.raw / (SCALE - 1) + 4;
    let b = shape.calc_aabb();
    let p = hit.hit_point;
    b.min.x.raw + margin <= p.x.raw
        && p.x.raw <= b.max.x.raw - margin
        && b.min.y.raw + margin <= p.y.raw
        && p.y.raw <= b.max.y.raw - margin
        && b.min.z.raw + margin <= p.z.raw
        && p.z.raw <= b.max.z.raw - margin
}

#[test]
fn rays_that_hit_well_inside_the_boxes_are_admitted() {
    let mut rng = SmallRng::seed_from_u64(77);
    let mut cleared = 0;
    let mut hits = 0;
    for round in 0..30 {
        let scene = random_scene(&mut rng, 1 + round % 13);
        let tree = scene.build_bvh().unwrap();
        for _ in 0..200 {
            let origin = v(rng.gen_range(-9000..9000), rng.gen_range(-9000..9000), rng.gen_range(-9000..9000));
            let towards = v(rng.gen_range(-6000..6000), rng.gen_range(-6000..6000), rng.gen_range(-6000..6000));
            let ray = Ray::new(origin, towards.sub(origin).normalized());
            if scene.nearest_hit(&ray).0.hit {
                hits += 1;
            }
            let d = ray.direction;
            let moderate = d.x.raw.abs() <= SCALE && d.y.raw.abs() <= SCALE && d.z.raw.abs() <= SCALE;
            if moderate && scene.shapes.iter().all(|shape| has_clearance(shape, &ray)) {
                if scene.nearest_hit(&ray).0.hit {
                    cleared += 1;
                }
                assert!(scene.bvh_admits(&tree, &ray));
                let by_tree = scene.nearest_hit_bvh(&tree, &ray);
                let by_scan = scene.nearest_hit(&ray);
                assert_eq!(by_tree.0.hit, by_scan.0.hit);
                if by_scan.0.hit {
                    assert_eq!(by_tree, by_scan);
                }
            }
        }
    }
    assert!(hits > 500, "only {} hits", hits);
    assert!(cleared * 10 > hits * 9, "{} of {} hits have clearance", cleared, hits);
}

#[test]
fn a_grazing_ray_can_miss_the_box() {
    // The ray touches the sphere at its top, where sphere and box meet; the
    // rounding of the two tests falls on different sides.
    let scene = Scene {
        materials: vec![grey()],
        shapes: vec![Shape::Sphere(Sphere::new(v(0, 0, -5000), Fp::one(), 0))],
        lights: Vec::new(),
        is_background_sky: true,
    };
    let tree = scene.build_bvh().unwrap();
    let origin = Vec3::new(Fp::from_int(-5), Fp::from_raw(999_999_989), Fp::from_int(-5));
    let ray = Ray::new(origin, Vec3::new(Fp::from_milli(700), Fp::from_raw(2), Fp::zero()));
    assert!(scene.nearest_hit(&ray).0.hit);
    assert!(!scene.bvh_admits(&tree, &ray));
    assert!(!scene.nearest_hit_bvh(&tree, &ray).0.hit);
    assert!(!has_clearance(&scene.shapes[0], &ray));
    // A hair lower the ray goes through the inside of the box.
    let lower = Ray::new(origin.sub(v(0, 1, 0)), ray.direction);
    assert!(scene.bvh_admits(&tree, &lower));
    assert_eq!(scene.nearest_hit_bvh(&tree, &lower), scene.nearest_hit(&lower));
}

#[test]
fn scene_without_shapes_has_no_tree() {
    let scene = Scene { materials: Vec::new(), shapes: Vec::new(), lights: Vec::new(), is_background_sky: false };
    assert!(scene.build_bvh().is_none());
    assert!(!scene.nearest_hit(&Ray::new(v(0, 0, 0), v(0, 0, -1000))).0.hit);
}
