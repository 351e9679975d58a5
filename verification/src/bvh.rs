//! The bounding-volume hierarchy: a binary tree of boxes over the shapes of
//! a scene, built by halving the list of shapes, and the closest-hit query
//! that walks it.

use crate::fixed::{fp, Fp, RAW_MAX};
use crate::shapes::{
    in_limits, lemma_hit_within_limits, lemma_narrow_limits, Aabb, Ray, RayIntersection, Shape,
};
use std::ops::Range;
use vstd::prelude::*;
use vstd::slice::slice_subrange;

verus! {

pub struct BvhLeaf {
    pub aabb: Aabb,
    pub shape_index: usize,
}

pub struct BvhLink {
    pub aabb: Aabb,
    pub left: Box<BvhNode>,
    pub right: Box<BvhNode>,
}

pub enum BvhNode {
    Leaf(BvhLeaf),
    Link(BvhLink),
}

impl BvhNode {
    pub open spec fn spec_aabb(self) -> Aabb {
        match self {
            BvhNode::Leaf(leaf) => leaf.aabb,
            BvhNode::Link(link) => link.aabb,
        }
    }

    /// The number of leaves.
    pub open spec fn leaves(self) -> nat
        decreases self,
    {
        match self {
            BvhNode::Leaf(leaf) => 1,
            BvhNode::Link(link) => link.left.leaves() + link.right.leaves(),
        }
    }

    /// Every leaf names a shape of a list of `n` shapes.
    pub open spec fn indices_within(self, n: int) -> bool
        decreases self,
    {
        match self {
            BvhNode::Leaf(leaf) => leaf.shape_index < n,
            BvhNode::Link(link) => link.left.indices_within(n) && link.right.indices_within(n),
        }
    }

    /// The tree stands over the shapes from `start` on, one leaf for each in
    /// their order: a leaf holds the box of its shape, an inner node the
    /// merged boxes of its children.
    pub open spec fn covers(self, shapes: Seq<Shape>, start: int) -> bool
        decreases self,
    {
        match self {
            BvhNode::Leaf(leaf) => {
                &&& 0 <= start < shapes.len()
                &&& leaf.shape_index == start
                &&& leaf.aabb == shapes[start].spec_aabb()
            },
            BvhNode::Link(link) => {
                &&& link.left.covers(shapes, start)
                &&& link.right.covers(shapes, start + link.left.leaves())
                &&& link.aabb == Aabb::spec_merge(link.left.spec_aabb(), link.right.spec_aabb())
            },
        }
    }

    pub fn aabb(&self) -> (r: &Aabb)
        ensures
            *r == self.spec_aabb(),
    {
        match self {
            BvhNode::Leaf(leaf) => &leaf.aabb,
            BvhNode::Link(link) => &link.aabb,
        }
    }
}

/// The tree over a list of shapes whose first stands at index `start` of the
/// scene: a leaf for a single shape, else a node over the trees of the two
/// halves, the first half being the shorter where the length is odd.
pub open spec fn spec_build_bvh(shapes: Seq<Shape>, start: int) -> BvhNode
    decreases shapes.len(),
{
    if shapes.len() <= 1 {
        BvhNode::Leaf(BvhLeaf { aabb: shapes[0].spec_aabb(), shape_index: start as usize })
    } else {
        let middle = (shapes.len() / 2) as int;
        let left = spec_build_bvh(shapes.subrange(0, middle), start);
        let right = spec_build_bvh(shapes.subrange(middle, shapes.len() as int), start + middle);
        BvhNode::Link(
            BvhLink {
                aabb: Aabb::spec_merge(left.spec_aabb(), right.spec_aabb()),
                left: Box::new(left),
                right: Box::new(right),
            },
        )
    }
}

/// Builds the tree over `shapes`, whose first shape stands at index
/// `shape_start` of the scene.
pub fn build_bvh(shapes: &[Shape], shape_start: usize) -> (r: Box<BvhNode>)
    requires
        shapes@.len() >= 1,
        shape_start + shapes@.len() <= usize::MAX,
    ensures
        *r == spec_build_bvh(shapes@, shape_start as int),
    decreases shapes@.len(),
{
    if shapes.len() == 1 {
        Box::new(BvhNode::Leaf(BvhLeaf { aabb: shapes[0].calc_aabb(), shape_index: shape_start }))
    } else {
        let middle = shapes.len() / 2;
        let left = build_bvh(slice_subrange(shapes, 0, middle), shape_start);
        let right = build_bvh(slice_subrange(shapes, middle, shapes.len()), shape_start + middle);
        let aabb = Aabb::merge(left.aabb(), right.aabb());
        Box::new(BvhNode::Link(BvhLink { aabb, left, right }))
    }
}

/// What the shape at `j` gives for the ray within the limits.
#[verifier::opaque]
pub open spec fn hit_at(shapes: Seq<Shape>, ray: Ray, start: Fp, end: Fp, j: int) -> RayIntersection {
    shapes[j].spec_ray_intersect(ray, start, end)
}

/// Lowering the upper limit of a query keeps a hit that lies below the new
/// limit as it is, and turns every other result into a miss; and a hit lies
/// within the limits.
pub proof fn lemma_hit_at_narrow(
    shapes: Seq<Shape>,
    ray: Ray,
    start: Fp,
    end: Fp,
    lower: Fp,
    j: int,
)
    requires
        lower.raw <= end.raw,
    ensures
        ({
            let full = hit_at(shapes, ray, start, end, j);
            let narrow = hit_at(shapes, ray, start, lower, j);
            &&& narrow.hit <==> full.hit && full.t.raw < lower.raw
            &&& narrow.hit ==> narrow == full
            &&& full.hit ==> in_limits(full.t, start, end)
        }),
{
    reveal(hit_at);
    lemma_narrow_limits(shapes[j], ray, start, end, lower);
    lemma_hit_within_limits(shapes[j], ray, start, end);
}

/// The tree that `build_bvh` makes of a part of a scene's shapes stands over
/// that part, one leaf for each shape.
pub proof fn lemma_build_covers(all: Seq<Shape>, start: int, len: int)
    requires
        0 <= start,
        1 <= len,
        start + len <= all.len(),
        start + len <= usize::MAX,
    ensures
        spec_build_bvh(all.subrange(start, start + len), start).covers(all, start),
        spec_build_bvh(all.subrange(start, start + len), start).leaves() == len,
        spec_build_bvh(all.subrange(start, start + len), start).indices_within(all.len() as int),
    decreases len,
{
    let part = all.subrange(start, start + len);
    if len > 1 {
        let middle = len / 2;
        assert(part.subrange(0, middle) =~= all.subrange(start, start + middle));
        assert(part.subrange(middle, len) =~= all.subrange(start + middle, start + len));
        lemma_build_covers(all, start, middle);
        lemma_build_covers(all, start + middle, len - middle);
    }
}

/// What the closest-hit query returns. A node whose box the ray misses gives
/// a miss. A leaf gives what its shape gives. An inner node asks the left
/// child, then the right child for a hit closer than the left one, and
/// prefers what the right child found.
pub open spec fn spec_bvh_ray_intersect(
    node: BvhNode,
    shapes: Seq<Shape>,
    ray: Ray,
    start: Fp,
    end: Fp,
) -> (RayIntersection, usize)
    decreases node,
{
    if !node.spec_aabb().spec_ray_intersect(ray) {
        (RayIntersection::spec_miss(), 0usize)
    } else {
        match node {
            BvhNode::Leaf(leaf) => (
                hit_at(shapes, ray, start, end, leaf.shape_index as int),
                leaf.shape_index,
            ),
            BvhNode::Link(link) => {
                let left = spec_bvh_ray_intersect(*link.left, shapes, ray, start, end);
                let right_end = if left.0.hit {
                    left.0.t
                } else {
                    end
                };
                let right = spec_bvh_ray_intersect(*link.right, shapes, ray, start, right_end);
                if right.0.hit {
                    right
                } else {
                    left
                }
            },
        }
    }
}

/// The closest hit of the ray with the shapes under `bvh_node` within
/// `limits`, and the index of the shape that was hit.
pub fn bvh_ray_intersect(
    bvh_node: &BvhNode,
    shapes: &[Shape],
    ray: &Ray,
    limits: &Range<Fp>,
) -> (r: (RayIntersection, usize))
    requires
        bvh_node.indices_within(shapes@.len() as int),
    ensures
        r == spec_bvh_ray_intersect(*bvh_node, shapes@, *ray, limits.start, limits.end),
    decreases bvh_node,
{
    proof {
        reveal(hit_at);
    }
    if bvh_node.aabb().ray_intersect(ray) {
        match bvh_node {
            BvhNode::Leaf(leaf) => (
                shapes[leaf.shape_index].ray_intersect(ray, limits),
                leaf.shape_index,
            ),
            BvhNode::Link(link) => {
                let (left_intersection, left_index) = bvh_ray_intersect(
                    &link.left,
                    shapes,
                    ray,
                    limits,
                );
                let right_limits = limits.start..if left_intersection.hit {
                    left_intersection.t
                } else {
                    limits.end
                };
                let (right_intersection, right_index) = bvh_ray_intersect(
                    &link.right,
                    shapes,
                    ray,
                    &right_limits,
                );
                if right_intersection.hit {
                    (right_intersection, right_index)
                } else {
                    (left_intersection, left_index)
                }
            },
        }
    } else {
        (RayIntersection::miss(), 0)
    }
}

/// The record with which a scan over the shapes starts: a miss at the
/// largest parameter.
pub open spec fn spec_scan_start() -> RayIntersection {
    RayIntersection { t: fp(RAW_MAX as int), ..RayIntersection::spec_miss() }
}

/// The closest hit among the shapes from `lo` up to `hi`, found by asking
/// one after the other and keeping a hit only where it is closer than what
/// was kept before; with the index of the shape.
pub open spec fn spec_scan(shapes: Seq<Shape>, ray: Ray, start: Fp, end: Fp, lo: int, hi: int) -> (
    RayIntersection,
    int,
)
    decreases hi - lo,
{
    if hi <= lo {
        (spec_scan_start(), 0)
    } else {
        let before = spec_scan(shapes, ray, start, end, lo, hi - 1);
        let current = hit_at(shapes, ray, start, end, hi - 1);
        if current.hit && current.t.raw < before.0.t.raw {
            (current, hi - 1)
        } else {
            before
        }
    }
}

/// No shape from `lo` up to `hi` is hit within the limits.
pub open spec fn none_hit(shapes: Seq<Shape>, ray: Ray, start: Fp, end: Fp, lo: int, hi: int) -> bool {
    forall|j: int| lo <= j < hi ==> !(#[trigger] hit_at(shapes, ray, start, end, j)).hit
}

/// The shape at `k` is hit, no shape from `lo` up to `hi` is hit closer, and
/// none before `k` as close.
pub open spec fn is_closest(
    shapes: Seq<Shape>,
    ray: Ray,
    start: Fp,
    end: Fp,
    lo: int,
    hi: int,
    k: int,
) -> bool {
    let best = hit_at(shapes, ray, start, end, k);
    &&& lo <= k < hi
    &&& best.hit
    &&& forall|j: int|
        lo <= j < hi && (#[trigger] hit_at(shapes, ray, start, end, j)).hit ==> {
            let other = hit_at(shapes, ray, start, end, j);
            best.t.raw < other.t.raw || (best.t.raw == other.t.raw && k <= j)
        }
}

/// Wherever the ray misses the box of a node, it hits no shape under that
/// node within the limits. The boxes hold their shapes, which is meant to
/// make this true; the rounding of the box test can make it false for a ray
/// that runs close along a face. It holds for every ray that hits the shapes
/// well inside their boxes, and `tree_admits` tells for a given tree and ray
/// whether it holds.
pub open spec fn boxes_admit(
    node: BvhNode,
    shapes: Seq<Shape>,
    ray: Ray,
    start: Fp,
    end: Fp,
    lo: int,
) -> bool
    decreases node,
{
    &&& node.spec_aabb().spec_ray_intersect(ray) || none_hit(
        shapes,
        ray,
        start,
        end,
        lo,
        lo + node.leaves(),
    )
    &&& match node {
        BvhNode::Leaf(leaf) => true,
        BvhNode::Link(link) => {
            &&& boxes_admit(*link.left, shapes, ray, start, end, lo)
            &&& boxes_admit(*link.right, shapes, ray, start, end, lo + link.left.leaves())
        },
    }
}

/// No shape of two adjoining runs is hit just where none of either run is.
pub proof fn lemma_none_hit_joins(
    shapes: Seq<Shape>,
    ray: Ray,
    start: Fp,
    end: Fp,
    lo: int,
    mid: int,
    hi: int,
)
    requires
        lo <= mid <= hi,
    ensures
        none_hit(shapes, ray, start, end, lo, hi) <==> none_hit(shapes, ray, start, end, lo, mid)
            && none_hit(shapes, ray, start, end, mid, hi),
{
    if none_hit(shapes, ray, start, end, lo, mid) && none_hit(shapes, ray, start, end, mid, hi) {
        assert forall|j: int| lo <= j < hi implies !(#[trigger] hit_at(
            shapes,
            ray,
            start,
            end,
            j,
        )).hit by {
            if j < mid {
            }
        }
    }
}

/// What the shape at `index` gives for the ray within the limits.
pub fn shape_hit(shapes: &[Shape], index: usize, ray: &Ray, limits: &Range<Fp>) -> (r:
    RayIntersection)
    requires
        index < shapes@.len(),
    ensures
        r == hit_at(shapes@, *ray, limits.start, limits.end, index as int),
{
    proof {
        reveal(hit_at);
    }
    shapes[index].ray_intersect(ray, limits)
}

/// Whether the boxes of the tree admit every hit of the ray within the
/// limits, whether any shape under the tree is hit, and the number of
/// leaves. The tree stands over the shapes from `first` on.
pub fn tree_admits(
    node: &BvhNode,
    shapes: &[Shape],
    ray: &Ray,
    limits: &Range<Fp>,
    first: usize,
) -> (r: (bool, bool, usize))
    requires
        node.covers(shapes@, first as int),
    ensures
        r.0 == boxes_admit(*node, shapes@, *ray, limits.start, limits.end, first as int),
        r.1 == !none_hit(
            shapes@,
            *ray,
            limits.start,
            limits.end,
            first as int,
            first + node.leaves(),
        ),
        r.2 == node.leaves(),
    decreases node,
{
    proof {
        lemma_covers_within(*node, shapes@, first as int);
    }
    let total = shapes.len();
    assert(first + node.leaves() <= total);
    let box_hit = node.aabb().ray_intersect(ray);
    match node {
        BvhNode::Leaf(leaf) => {
            let hit = shape_hit(shapes, first, ray, limits).hit;
            (box_hit || !hit, hit, 1)
        },
        BvhNode::Link(link) => {
            proof {
                lemma_covers_within(*link.left, shapes@, first as int);
                lemma_covers_within(*link.right, shapes@, first + link.left.leaves());
                lemma_none_hit_joins(
                    shapes@,
                    *ray,
                    limits.start,
                    limits.end,
                    first as int,
                    first + link.left.leaves(),
                    first + node.leaves(),
                );
                assert(node.leaves() == link.left.leaves() + link.right.leaves());
            }
            let (left_admits, left_hit, left_leaves) = tree_admits(
                &link.left,
                shapes,
                ray,
                limits,
                first,
            );
            let (right_admits, right_hit, right_leaves) = tree_admits(
                &link.right,
                shapes,
                ray,
                limits,
                first + left_leaves,
            );
            let any_hit = left_hit || right_hit;
            (
                left_admits && right_admits && (box_hit || !any_hit),
                any_hit,
                left_leaves + right_leaves,
            )
        },
    }
}

/// A tree that stands over shapes names shapes of the list only.
pub proof fn lemma_covers_within(node: BvhNode, shapes: Seq<Shape>, lo: int)
    requires
        node.covers(shapes, lo),
    ensures
        lo + node.leaves() <= shapes.len(),
        0 <= lo,
        node.indices_within(shapes.len() as int),
    decreases node,
{
    match node {
        BvhNode::Leaf(leaf) => {},
        BvhNode::Link(link) => {
            lemma_covers_within(*link.left, shapes, lo);
            lemma_covers_within(*link.right, shapes, lo + link.left.leaves());
        },
    }
}

/// The box of every node holds the boxes of all shapes under the node.
pub proof fn lemma_boxes_hold_shapes(node: BvhNode, shapes: Seq<Shape>, lo: int, i: int)
    requires
        node.covers(shapes, lo),
        lo <= i < lo + node.leaves(),
    ensures
        node.spec_aabb().contains_box(shapes[i].spec_aabb()),
    decreases node,
{
    match node {
        BvhNode::Leaf(leaf) => {},
        BvhNode::Link(link) => {
            if i < lo + link.left.leaves() {
                lemma_boxes_hold_shapes(*link.left, shapes, lo, i);
            } else {
                lemma_boxes_hold_shapes(*link.right, shapes, lo + link.left.leaves(), i);
            }
        },
    }
}

/// Boxes that admit every hit within some limits admit every hit within
/// lower limits.
pub proof fn lemma_boxes_admit_narrow(
    node: BvhNode,
    shapes: Seq<Shape>,
    ray: Ray,
    start: Fp,
    end: Fp,
    lower: Fp,
    lo: int,
)
    requires
        boxes_admit(node, shapes, ray, start, end, lo),
        lower.raw <= end.raw,
    ensures
        boxes_admit(node, shapes, ray, start, lower, lo),
    decreases node,
{
    if !node.spec_aabb().spec_ray_intersect(ray) {
        assert forall|j: int| lo <= j < lo + node.leaves() implies !(#[trigger] hit_at(
            shapes,
            ray,
            start,
            lower,
            j,
        )).hit by {
            lemma_hit_at_narrow(shapes, ray, start, end, lower, j);
            assert(!hit_at(shapes, ray, start, end, j).hit);
        }
    }
    match node {
        BvhNode::Leaf(leaf) => {},
        BvhNode::Link(link) => {
            lemma_boxes_admit_narrow(*link.left, shapes, ray, start, end, lower, lo);
            lemma_boxes_admit_narrow(
                *link.right,
                shapes,
                ray,
                start,
                end,
                lower,
                lo + link.left.leaves(),
            );
        },
    }
}

/// What the query on a tree is shown to find: a hit that is the closest
/// among the shapes from `lo` up to `hi`, or a miss where none is hit.
pub open spec fn finds_closest(
    found: (RayIntersection, int),
    shapes: Seq<Shape>,
    ray: Ray,
    start: Fp,
    end: Fp,
    lo: int,
    hi: int,
) -> bool {
    &&& found.0.hit ==> is_closest(shapes, ray, start, end, lo, hi, found.1) && found.0 == hit_at(
        shapes,
        ray,
        start,
        end,
        found.1,
    )
    &&& !found.0.hit ==> none_hit(shapes, ray, start, end, lo, hi)
}

/// The closest hit of two adjoining runs of shapes, the second asked for
/// hits closer than the first one's, is the second run's hit where there is
/// one, else the first run's.
pub proof fn lemma_join_closest(
    shapes: Seq<Shape>,
    ray: Ray,
    start: Fp,
    end: Fp,
    lo: int,
    mid: int,
    hi: int,
    left: (RayIntersection, int),
    right: (RayIntersection, int),
)
    requires
        lo <= mid <= hi,
        finds_closest(left, shapes, ray, start, end, lo, mid),
        finds_closest(
            right,
            shapes,
            ray,
            start,
            if left.0.hit {
                left.0.t
            } else {
                end
            },
            mid,
            hi,
        ),
    ensures
        finds_closest(
            if right.0.hit {
                right
            } else {
                left
            },
            shapes,
            ray,
            start,
            end,
            lo,
            hi,
        ),
{
    let lower = if left.0.hit {
        left.0.t
    } else {
        end
    };
    if left.0.hit {
        lemma_hit_at_narrow(shapes, ray, start, end, end, left.1);
    }
    assert(lower.raw <= end.raw);
    assert forall|j: int| mid <= j < hi implies ({
        let full = #[trigger] hit_at(shapes, ray, start, end, j);
        let narrow = hit_at(shapes, ray, start, lower, j);
        &&& narrow.hit <==> full.hit && full.t.raw < lower.raw
        &&& narrow.hit ==> narrow == full
    }) by {
        lemma_hit_at_narrow(shapes, ray, start, end, lower, j);
    }
    if right.0.hit {
        let k = right.1;
        let best = hit_at(shapes, ray, start, end, k);
        assert(hit_at(shapes, ray, start, lower, k).hit);
        assert(best == right.0);
        assert forall|j: int|
            lo <= j < hi && (#[trigger] hit_at(shapes, ray, start, end, j)).hit implies ({
            let other = hit_at(shapes, ray, start, end, j);
            best.t.raw < other.t.raw || (best.t.raw == other.t.raw && k <= j)
        }) by {
            let other = hit_at(shapes, ray, start, end, j);
            if j < mid {
                assert(left.0.hit);
            } else {
                let narrow = hit_at(shapes, ray, start, lower, j);
                if narrow.hit {
                    assert(narrow == other);
                } else {
                    assert(other.t.raw >= lower.raw);
                }
            }
        }
    } else if left.0.hit {
        let k = left.1;
        let best = hit_at(shapes, ray, start, end, k);
        assert forall|j: int|
            lo <= j < hi && (#[trigger] hit_at(shapes, ray, start, end, j)).hit implies ({
            let other = hit_at(shapes, ray, start, end, j);
            best.t.raw < other.t.raw || (best.t.raw == other.t.raw && k <= j)
        }) by {
            if j >= mid {
                assert(!hit_at(shapes, ray, start, lower, j).hit);
            }
        }
    } else {
        assert forall|j: int| lo <= j < hi implies !(#[trigger] hit_at(
            shapes,
            ray,
            start,
            end,
            j,
        )).hit by {
            lemma_hit_at_narrow(shapes, ray, start, end, end, j);
            if j >= mid {
                assert(!hit_at(shapes, ray, start, lower, j).hit);
            }
        }
    }
}

/// Where the boxes admit every hit, the query on the tree finds the closest
/// hit among the shapes that the tree stands over, and misses only where
/// none of them is hit.
pub proof fn lemma_bvh_finds_closest(
    node: BvhNode,
    shapes: Seq<Shape>,
    ray: Ray,
    start: Fp,
    end: Fp,
    lo: int,
)
    requires
        node.covers(shapes, lo),
        boxes_admit(node, shapes, ray, start, end, lo),
    ensures
        finds_closest(
            (
                spec_bvh_ray_intersect(node, shapes, ray, start, end).0,
                spec_bvh_ray_intersect(node, shapes, ray, start, end).1 as int,
            ),
            shapes,
            ray,
            start,
            end,
            lo,
            lo + node.leaves(),
        ),
    decreases node,
{
    if node.spec_aabb().spec_ray_intersect(ray) {
        match node {
            BvhNode::Leaf(leaf) => {},
            BvhNode::Link(link) => {
                let mid = lo + link.left.leaves();
                let left = spec_bvh_ray_intersect(*link.left, shapes, ray, start, end);
                let lower = if left.0.hit {
                    left.0.t
                } else {
                    end
                };
                lemma_bvh_finds_closest(*link.left, shapes, ray, start, end, lo);
                if left.0.hit {
                    lemma_hit_at_narrow(shapes, ray, start, end, end, left.1 as int);
                }
                lemma_boxes_admit_narrow(*link.right, shapes, ray, start, end, lower, mid);
                lemma_bvh_finds_closest(*link.right, shapes, ray, start, lower, mid);
                let right = spec_bvh_ray_intersect(*link.right, shapes, ray, start, lower);
                lemma_join_closest(
                    shapes,
                    ray,
                    start,
                    end,
                    lo,
                    mid,
                    lo + node.leaves(),
                    (left.0, left.1 as int),
                    (right.0, right.1 as int),
                );
            },
        }
    }
}

/// Whatever the boxes do, a hit that the query on the tree reports is a hit:
/// it is what the shape of the reported index gives within the limits, and
/// that shape stands under the tree.
pub proof fn lemma_bvh_hit_is_genuine(
    node: BvhNode,
    shapes: Seq<Shape>,
    ray: Ray,
    start: Fp,
    end: Fp,
    lo: int,
)
    requires
        node.covers(shapes, lo),
    ensures
        ({
            let found = spec_bvh_ray_intersect(node, shapes, ray, start, end);
            found.0.hit ==> {
                &&& lo <= found.1 < lo + node.leaves()
                &&& found.0 == hit_at(shapes, ray, start, end, found.1 as int)
            }
        }),
    decreases node,
{
    if node.spec_aabb().spec_ray_intersect(ray) {
        match node {
            BvhNode::Leaf(leaf) => {},
            BvhNode::Link(link) => {
                let mid = lo + link.left.leaves();
                let left = spec_bvh_ray_intersect(*link.left, shapes, ray, start, end);
                let lower = if left.0.hit {
                    left.0.t
                } else {
                    end
                };
                lemma_bvh_hit_is_genuine(*link.left, shapes, ray, start, end, lo);
                lemma_bvh_hit_is_genuine(*link.right, shapes, ray, start, lower, mid);
                let right = spec_bvh_ray_intersect(*link.right, shapes, ray, start, lower);
                if left.0.hit {
                    lemma_hit_at_narrow(shapes, ray, start, end, end, left.1 as int);
                }
                if right.0.hit {
                    lemma_hit_at_narrow(shapes, ray, start, end, lower, right.1 as int);
                }
            },
        }
    }
}

/// Whatever the boxes do, the query on the tree finds nothing nearer than
/// the scan over the same shapes: where the tree reports a hit, the scan
/// reports one that is as near or nearer.
pub proof fn lemma_bvh_never_nearer_than_scan(
    node: BvhNode,
    shapes: Seq<Shape>,
    ray: Ray,
    start: Fp,
    end: Fp,
    lo: int,
)
    requires
        node.covers(shapes, lo),
    ensures
        ({
            let by_tree = spec_bvh_ray_intersect(node, shapes, ray, start, end);
            let by_scan = spec_scan(shapes, ray, start, end, lo, lo + node.leaves());
            by_tree.0.hit ==> by_scan.0.hit && by_scan.0.t.raw <= by_tree.0.t.raw
        }),
{
    let hi = lo + node.leaves();
    lemma_bvh_hit_is_genuine(node, shapes, ray, start, end, lo);
    lemma_scan_finds_closest(shapes, ray, start, end, lo, hi);
    let by_tree = spec_bvh_ray_intersect(node, shapes, ray, start, end);
    if by_tree.0.hit {
        assert(hit_at(shapes, ray, start, end, by_tree.1 as int).hit);
    }
}

/// A scan over the shapes finds the closest hit among them, and misses only
/// where none of them is hit.
pub proof fn lemma_scan_finds_closest(
    shapes: Seq<Shape>,
    ray: Ray,
    start: Fp,
    end: Fp,
    lo: int,
    hi: int,
)
    requires
        lo <= hi,
    ensures
        finds_closest(spec_scan(shapes, ray, start, end, lo, hi), shapes, ray, start, end, lo, hi),
        !spec_scan(shapes, ray, start, end, lo, hi).0.hit ==> spec_scan(
            shapes,
            ray,
            start,
            end,
            lo,
            hi,
        ).0 == spec_scan_start(),
    decreases hi - lo,
{
    if hi > lo {
        lemma_scan_finds_closest(shapes, ray, start, end, lo, hi - 1);
        let before = spec_scan(shapes, ray, start, end, lo, hi - 1);
        let current = hit_at(shapes, ray, start, end, hi - 1);
        lemma_hit_at_narrow(shapes, ray, start, end, end, hi - 1);
        let found = spec_scan(shapes, ray, start, end, lo, hi);
        if found.0.hit {
            let k = found.1;
            let best = hit_at(shapes, ray, start, end, k);
            assert forall|j: int|
                lo <= j < hi && (#[trigger] hit_at(shapes, ray, start, end, j)).hit implies ({
                let other = hit_at(shapes, ray, start, end, j);
                best.t.raw < other.t.raw || (best.t.raw == other.t.raw && k <= j)
            }) by {
                if j < hi - 1 {
                    assert(before.0.hit);
                }
            }
        }
    }
}

/// At most one shape is the closest hit.
pub proof fn lemma_closest_unique(
    shapes: Seq<Shape>,
    ray: Ray,
    start: Fp,
    end: Fp,
    lo: int,
    hi: int,
    k1: int,
    k2: int,
)
    requires
        is_closest(shapes, ray, start, end, lo, hi, k1),
        is_closest(shapes, ray, start, end, lo, hi, k2),
    ensures
        k1 == k2,
{
    let h1 = hit_at(shapes, ray, start, end, k1);
    let h2 = hit_at(shapes, ray, start, end, k2);
    assert(h1.hit && h2.hit);
}

/// The query on the tree and the scan over the shapes agree: for a tree that
/// stands over the shapes from `lo` on, and a ray that misses no box under
/// which it hits a shape, both hit or both miss, and where they hit they
/// give the same record and the same shape.
pub proof fn lemma_bvh_agrees_with_scan(
    node: BvhNode,
    shapes: Seq<Shape>,
    ray: Ray,
    start: Fp,
    end: Fp,
    lo: int,
)
    requires
        node.covers(shapes, lo),
        boxes_admit(node, shapes, ray, start, end, lo),
    ensures
        ({
            let by_tree = spec_bvh_ray_intersect(node, shapes, ray, start, end);
            let by_scan = spec_scan(shapes, ray, start, end, lo, lo + node.leaves());
            &&& by_tree.0.hit == by_scan.0.hit
            &&& by_tree.0.hit ==> by_tree.0 == by_scan.0 && by_tree.1 == by_scan.1
        }),
{
    let hi = lo + node.leaves();
    lemma_bvh_finds_closest(node, shapes, ray, start, end, lo);
    lemma_scan_finds_closest(shapes, ray, start, end, lo, hi);
    let by_tree = spec_bvh_ray_intersect(node, shapes, ray, start, end);
    let by_scan = spec_scan(shapes, ray, start, end, lo, hi);
    if by_tree.0.hit {
        let k = by_tree.1 as int;
        assert(hit_at(shapes, ray, start, end, k).hit);
        assert(by_scan.0.hit);
        lemma_closest_unique(shapes, ray, start, end, lo, hi, k, by_scan.1);
    } else if by_scan.0.hit {
        let k = by_scan.1;
        assert(hit_at(shapes, ray, start, end, k).hit);
    }
}

} // verus!
