//! The hierarchy finds what a plain scan of the objects finds.
//!
//! The statements here are about one ray and one lower bound of the ray
//! parameter. They hold of any way of testing single objects (`prim`) that
//! behaves like a nearest-intersection test, which the predicate `steady`
//! spells out, and of any slab arithmetic (`crossing`) that never lets a box
//! be missed by a ray that hits something inside it (`prunes_safely`).

use vstd::prelude::*;
use std::sync::Arc;
use crate::aabb::AABB;
use crate::bvh::{bounds_of, sorted, BVHNode};
use crate::hit_record::HitRecord;
use crate::hittables::{later, narrowed, scan_is, Hittables};
use crate::interval::Interval;
use crate::ray::Ray;
use crate::scalar::Scalar;

verus! {

/// Whether `prim` acts on `ray`, over intervals that start at `lo`, as a test
/// for the nearest intersection does.
///
/// `first` names, for each object, the parameter of the intersection that the
/// test reports, if the object has one past `lo`; `takes` says whether the test
/// reports it when the interval ends at `hi`. A reported hit lies at the
/// object's parameter, which is a number and at most `hi`; whenever the test
/// reports nothing for a numeric `hi`, the object has no intersection or has it
/// at `hi` or beyond.
pub open spec fn steady<H: Fn(&Hittables, &Ray, Interval) -> Option<HitRecord>>(
    prim: &H,
    ray: Ray,
    lo: Scalar,
    first: spec_fn(Hittables) -> Option<Scalar>,
    takes: spec_fn(Hittables, Scalar) -> bool,
) -> bool {
    &&& forall|o: &Hittables, i: Interval, r: Option<HitRecord>| #[trigger]
        call_ensures(*prim, (o, &ray, i), r) && i.min == lo ==> (r.is_some() == takes(*o, i.max))
            && (r matches Some(h) ==> first(*o) == Some(h.t))
    &&& forall|o: Hittables, hi: Scalar| #[trigger]
        takes(o, hi) ==> (first(o) matches Some(t) && !t.nan() && t.le(hi))
    &&& forall|o: Hittables, hi: Scalar|
        !hi.nan() && !(#[trigger] takes(o, hi)) ==> (first(o) matches Some(t) ==> t.ge(hi))
}

/// Whether a box that the slab test finds missed holds nothing that `prim`
/// would report: no object whose own box lies within it is ever taken.
pub open spec fn prunes_safely<C: Fn(Scalar, Scalar, Scalar) -> Scalar>(
    crossing: &C,
    ray: Ray,
    takes: spec_fn(Hittables, Scalar) -> bool,
) -> bool {
    forall|b: AABB, o: Hittables, hi: Scalar|
        #![trigger b.hit_is(ray, crossing, None), takes(o, hi)]
        b.hit_is(ray, crossing, None) && b.encloses(o.spec_bounding_box()) ==> !takes(o, hi)
}

/// Whether the box of every object is free of NaN.
pub open spec fn all_numeric(objects: Seq<Arc<Hittables>>) -> bool {
    forall|i: int| 0 <= i < objects.len() ==> (#[trigger] objects[i]).spec_bounding_box().numeric()
}

/// Whether `b` holds the box of every object.
pub open spec fn holds_all(b: AABB, objects: Seq<Arc<Hittables>>) -> bool {
    forall|i: int| 0 <= i < objects.len() ==> b.encloses((#[trigger] objects[i]).spec_bounding_box())
}

/// Whether every node's box holds the boxes of all objects below it.
pub open spec fn bounded(node: BVHNode) -> bool
    decreases node,
{
    match node {
        BVHNode::Leaf(x) => x.spec_bounding_box().numeric(),
        BVHNode::Node { left, right, bbox } => holds_all(bbox, node.leaves()) && bounded(*left)
            && bounded(*right),
    }
}

/// Whether `result` is the nearest of the intersections that `objects` have
/// within `hi`: nothing, if no object is taken at `hi`; else a hit at the least
/// of the objects' parameters, one that some object has.
pub open spec fn settles(
    objects: Seq<Arc<Hittables>>,
    hi: Scalar,
    result: Option<HitRecord>,
    first: spec_fn(Hittables) -> Option<Scalar>,
    takes: spec_fn(Hittables, Scalar) -> bool,
) -> bool {
    match result {
        None => forall|i: int| 0 <= i < objects.len() ==> !takes(*(#[trigger] objects[i]), hi),
        Some(h) => {
            &&& !h.t.nan()
            &&& h.t.le(hi)
            &&& exists|i: int| 0 <= i < objects.len() && takes(*(#[trigger] objects[i]), hi)
            &&& exists|i: int| 0 <= i < objects.len() && first(*(#[trigger] objects[i])) == Some(h.t)
            &&& forall|i: int|
                0 <= i < objects.len() ==> (first(*(#[trigger] objects[i])) matches Some(t) ==> h.t.le(
                    t,
                ))
        },
    }
}

proof fn lemma_settles_one<H: Fn(&Hittables, &Ray, Interval) -> Option<HitRecord>>(
    o: Arc<Hittables>,
    ray: Ray,
    i: Interval,
    prim: &H,
    r: Option<HitRecord>,
    first: spec_fn(Hittables) -> Option<Scalar>,
    takes: spec_fn(Hittables, Scalar) -> bool,
)
    requires
        steady(prim, ray, i.min, first, takes),
        call_ensures(*prim, (&*o, &ray, i), r),
    ensures
        settles(seq![o], i.max, r, first, takes),
{
    let s = seq![o];
    assert(s[0] == o);
    assert(r.is_some() == takes(*o, i.max));
    if r.is_some() {
        assert(takes(*s[0], i.max));
        assert(first(*s[0]) == Some(r.unwrap().t));
    }
}

proof fn lemma_settles_joined(
    a: Seq<Arc<Hittables>>,
    b: Seq<Arc<Hittables>>,
    hi: Scalar,
    ra: Option<HitRecord>,
    rb: Option<HitRecord>,
    first: spec_fn(Hittables) -> Option<Scalar>,
    takes: spec_fn(Hittables, Scalar) -> bool,
)
    requires
        !hi.nan(),
        forall|o: Hittables, h: Scalar| #[trigger]
            takes(o, h) ==> (first(o) matches Some(t) && !t.nan() && t.le(h)),
        forall|o: Hittables, h: Scalar|
            !h.nan() && !(#[trigger] takes(o, h)) ==> (first(o) matches Some(t) ==> t.ge(h)),
        settles(a, hi, ra, first, takes),
        settles(
            b,
            match ra {
                Some(h) => h.t,
                None => hi,
            },
            rb,
            first,
            takes,
        ),
    ensures
        settles(a + b, hi, later(ra, rb), first, takes),
{
    let ab = a + b;
    let mid = match ra {
        Some(h) => h.t,
        None => hi,
    };
    assert forall|i: int| 0 <= i < ab.len() implies (if i < a.len() {
        ab[i] == a[i]
    } else {
        ab[i] == b[i - a.len()]
    }) by {}
    match later(ra, rb) {
        None => {
            assert forall|i: int| 0 <= i < ab.len() implies !takes(*(#[trigger] ab[i]), hi) by {
                if i < a.len() {
                    assert(ab[i] == a[i]);
                } else {
                    assert(ab[i] == b[i - a.len()]);
                }
            }
        },
        Some(h) => {
            // Some object is taken at `hi`.
            if ra.is_some() {
                let i = choose|i: int| 0 <= i < a.len() && takes(*(#[trigger] a[i]), hi);
                assert(ab[i] == a[i]);
                assert(takes(*ab[i], hi));
            } else {
                let i = choose|i: int| 0 <= i < b.len() && takes(*(#[trigger] b[i]), hi);
                assert(ab[i + a.len()] == b[i]);
                assert(takes(*ab[i + a.len()], hi));
            }
            // Some object has its intersection at the hit.
            if rb.is_some() {
                let i = choose|i: int| 0 <= i < b.len() && first(*(#[trigger] b[i])) == Some(h.t);
                assert(ab[i + a.len()] == b[i]);
                assert(first(*ab[i + a.len()]) == Some(h.t));
            } else {
                let i = choose|i: int| 0 <= i < a.len() && first(*(#[trigger] a[i])) == Some(h.t);
                assert(ab[i] == a[i]);
                assert(first(*ab[i]) == Some(h.t));
            }
            // No object has one before the hit.
            assert forall|i: int| 0 <= i < ab.len() implies (first(
                *(#[trigger] ab[i]),
            ) matches Some(t) ==> h.t.le(t)) by {
                if i < a.len() {
                    assert(ab[i] == a[i]);
                    if ra.is_none() {
                        assert(!takes(*a[i], hi));
                    }
                } else {
                    assert(ab[i] == b[i - a.len()]);
                    if rb.is_none() {
                        assert(!takes(*b[i - a.len()], mid));
                    }
                }
            }
        },
    }
}

/// A scan of a list settles on the nearest intersection.
pub proof fn lemma_scan_settles<H: Fn(&Hittables, &Ray, Interval) -> Option<HitRecord>>(
    objects: Seq<Arc<Hittables>>,
    ray: Ray,
    interval: Interval,
    prim: &H,
    result: Option<HitRecord>,
    first: spec_fn(Hittables) -> Option<Scalar>,
    takes: spec_fn(Hittables, Scalar) -> bool,
)
    requires
        !interval.max.nan(),
        steady(prim, ray, interval.min, first, takes),
        scan_is(objects, ray, interval, prim, result),
    ensures
        settles(objects, interval.max, result, first, takes),
    decreases objects.len(),
{
    if objects.len() > 0 {
        let (before, here) = choose|before: Option<HitRecord>, here: Option<HitRecord>|
            scan_is(objects.drop_last(), ray, interval, prim, before) && call_ensures(
                *prim,
                (&*objects.last(), &ray, narrowed(interval, before)),
                here,
            ) && result == #[trigger] later(before, here);
        lemma_scan_settles(objects.drop_last(), ray, interval, prim, before, first, takes);
        lemma_settles_one(objects.last(), ray, narrowed(interval, before), prim, here, first, takes);
        lemma_settles_joined(
            objects.drop_last(),
            seq![objects.last()],
            interval.max,
            before,
            here,
            first,
            takes,
        );
        assert(objects.drop_last() + seq![objects.last()] =~= objects);
    }
}

/// A search of a tree settles on the nearest intersection among its leaves.
pub proof fn lemma_tree_settles<
    C: Fn(Scalar, Scalar, Scalar) -> Scalar,
    H: Fn(&Hittables, &Ray, Interval) -> Option<HitRecord>,
>(
    node: BVHNode,
    ray: Ray,
    ray_t: Interval,
    crossing: &C,
    prim: &H,
    result: Option<HitRecord>,
    first: spec_fn(Hittables) -> Option<Scalar>,
    takes: spec_fn(Hittables, Scalar) -> bool,
)
    requires
        !ray_t.max.nan(),
        bounded(node),
        steady(prim, ray, ray_t.min, first, takes),
        prunes_safely(crossing, ray, takes),
        node.hit_is(ray, ray_t, crossing, prim, result),
    ensures
        settles(node.leaves(), ray_t.max, result, first, takes),
    decreases node,
{
    let clip = choose|clip: Option<Interval>| #[trigger]
        node.spec_bounding_box().hit_is(ray, crossing, clip) && if clip.is_none() {
            result.is_none()
        } else {
            match node {
                BVHNode::Leaf(x) => call_ensures(*prim, (&*x, &ray, ray_t), result),
                BVHNode::Node { left, right, bbox } => exists|
                    hl: Option<HitRecord>,
                    hr: Option<HitRecord>,
                |
                    left.hit_is(ray, ray_t, crossing, prim, hl) && right.hit_is(
                        ray,
                        narrowed(ray_t, hl),
                        crossing,
                        prim,
                        hr,
                    ) && result == #[trigger] later(hl, hr),
            }
        };
    let leaves = node.leaves();
    if clip.is_none() {
        lemma_node_holds_leaves(node);
        assert forall|i: int| 0 <= i < leaves.len() implies !takes(
            *(#[trigger] leaves[i]),
            ray_t.max,
        ) by {
            assert(node.spec_bounding_box().encloses(leaves[i].spec_bounding_box()));
        }
    } else {
        match node {
            BVHNode::Leaf(x) => {
                lemma_settles_one(x, ray, ray_t, prim, result, first, takes);
            },
            BVHNode::Node { left, right, bbox } => {
                let (hl, hr) = choose|hl: Option<HitRecord>, hr: Option<HitRecord>|
                    left.hit_is(ray, ray_t, crossing, prim, hl) && right.hit_is(
                        ray,
                        narrowed(ray_t, hl),
                        crossing,
                        prim,
                        hr,
                    ) && result == #[trigger] later(hl, hr);
                lemma_tree_settles(*left, ray, ray_t, crossing, prim, hl, first, takes);
                lemma_tree_settles(
                    *right,
                    ray,
                    narrowed(ray_t, hl),
                    crossing,
                    prim,
                    hr,
                    first,
                    takes,
                );
                lemma_settles_joined(
                    left.leaves(),
                    right.leaves(),
                    ray_t.max,
                    hl,
                    hr,
                    first,
                    takes,
                );
            },
        }
    }
}

proof fn lemma_node_holds_leaves(node: BVHNode)
    requires
        bounded(node),
    ensures
        holds_all(node.spec_bounding_box(), node.leaves()),
{
    match node {
        BVHNode::Leaf(x) => {
            assert(node.leaves()[0] == x);
        },
        BVHNode::Node { left, right, bbox } => {},
    }
}

/// Two results that both settle on the nearest intersection of the same
/// objects, in whatever order, agree: both are misses, or both are hits at
/// numerically equal ray parameters.
pub proof fn lemma_settled_agree(
    a: Seq<Arc<Hittables>>,
    b: Seq<Arc<Hittables>>,
    hi: Scalar,
    ra: Option<HitRecord>,
    rb: Option<HitRecord>,
    first: spec_fn(Hittables) -> Option<Scalar>,
    takes: spec_fn(Hittables, Scalar) -> bool,
)
    requires
        a.to_multiset() == b.to_multiset(),
        settles(a, hi, ra, first, takes),
        settles(b, hi, rb, first, takes),
    ensures
        ra.is_some() == rb.is_some(),
        ra matches Some(x) ==> rb.unwrap().t.same_value(x.t),
{
    if ra.is_some() {
        let i = choose|i: int| 0 <= i < a.len() && takes(*(#[trigger] a[i]), hi);
        let j = lemma_found_in_both(a, b, i);
        assert(takes(*b[j], hi));
        let i1 = choose|i: int| 0 <= i < a.len() && first(*(#[trigger] a[i])) == Some(ra.unwrap().t);
        let j1 = lemma_found_in_both(a, b, i1);
        assert(first(*b[j1]) == Some(ra.unwrap().t));
    }
    if rb.is_some() {
        let i = choose|i: int| 0 <= i < b.len() && takes(*(#[trigger] b[i]), hi);
        let j = lemma_found_in_both(b, a, i);
        assert(takes(*a[j], hi));
        let i1 = choose|i: int| 0 <= i < b.len() && first(*(#[trigger] b[i])) == Some(rb.unwrap().t);
        let j1 = lemma_found_in_both(b, a, i1);
        assert(first(*a[j1]) == Some(rb.unwrap().t));
    }
}

proof fn lemma_found_in_both(a: Seq<Arc<Hittables>>, b: Seq<Arc<Hittables>>, i: int) -> (j: int)
    requires
        a.to_multiset() == b.to_multiset(),
        0 <= i < a.len(),
    ensures
        0 <= j < b.len(),
        b[j] == a[i],
{
    assert(a.contains(a[i]));
    vstd::seq_lib::to_multiset_contains(a, a[i]);
    vstd::seq_lib::to_multiset_contains(b, a[i]);
    assert(b.contains(a[i]));
    choose|j: int| 0 <= j < b.len() && b[j] == a[i]
}

proof fn lemma_bounds_hold(objects: Seq<Arc<Hittables>>)
    requires
        all_numeric(objects),
    ensures
        bounds_of(objects).numeric(),
        holds_all(bounds_of(objects), objects),
    decreases objects.len(),
{
    if objects.len() > 0 {
        let init = objects.drop_last();
        assert(all_numeric(init)) by {
            assert forall|i: int| 0 <= i < init.len() implies (#[trigger] init[i]).spec_bounding_box().numeric() by {
                assert(init[i] == objects[i]);
            }
        }
        lemma_bounds_hold(init);
        let b0 = bounds_of(init);
        let b1 = objects.last().spec_bounding_box();
        assert(b1.numeric()) by {
            assert(objects[objects.len() - 1] == objects.last());
        }
        crate::aabb::lemma_from_boxes_encloses(b0, b1, b1);
        let b = bounds_of(objects);
        assert forall|i: int| 0 <= i < objects.len() implies b.encloses(
            (#[trigger] objects[i]).spec_bounding_box(),
        ) by {
            if i < init.len() {
                assert(init[i] == objects[i]);
                assert(b0.encloses(init[i].spec_bounding_box()));
            }
        }
    }
}

proof fn lemma_numeric_rearranged(a: Seq<Arc<Hittables>>, b: Seq<Arc<Hittables>>)
    requires
        a.to_multiset() == b.to_multiset(),
        all_numeric(a),
    ensures
        all_numeric(b),
{
    assert forall|i: int| 0 <= i < b.len() implies (#[trigger] b[i]).spec_bounding_box().numeric() by {
        let j = lemma_found_in_both(b, a, i);
    }
}

/// A tree holds exactly the objects that it was built over, each as often as
/// it was given.
pub proof fn lemma_built_tree_keeps_objects<F: Fn(Interval) -> Scalar>(
    node: BVHNode,
    objects: Seq<Arc<Hittables>>,
    size: &F,
)
    requires
        node.is_built_from(objects, size),
    ensures
        node.leaves().to_multiset() == objects.to_multiset(),
        node.leaves().len() == objects.len(),
    decreases node,
{
    match node {
        BVHNode::Leaf(x) => {
            assert(node.leaves() =~= objects);
        },
        BVHNode::Node { left, right, bbox } => {
            let axis = choose|axis: i32| #[trigger]
                bbox.longest_axis_is(size, axis) && 0 <= axis < 3 && left.is_built_from(
                    sorted(objects, axis as int).subrange(0, objects.len() as int / 2),
                    size,
                ) && right.is_built_from(
                    sorted(objects, axis as int).subrange(
                        objects.len() as int / 2,
                        objects.len() as int,
                    ),
                    size,
                );
            let s = sorted(objects, axis as int);
            let half = objects.len() as int / 2;
            crate::bvh::lemma_sorted_len(objects, axis as int);
            crate::bvh::lemma_sorted_multiset(objects, axis as int);
            let l = s.subrange(0, half);
            let r = s.subrange(half, s.len() as int);
            lemma_built_tree_keeps_objects(*left, l, size);
            lemma_built_tree_keeps_objects(*right, r, size);
            assert(l + r =~= s);
            vstd::seq_lib::lemma_multiset_commutative(l, r);
            vstd::seq_lib::lemma_multiset_commutative(left.leaves(), right.leaves());
            assert(node.leaves().to_multiset() =~= objects.to_multiset());
        },
    }
}

/// In a tree built over objects whose boxes are free of NaN, every node's box
/// holds the boxes of all objects below it.
pub proof fn lemma_built_tree_is_bounded<F: Fn(Interval) -> Scalar>(
    node: BVHNode,
    objects: Seq<Arc<Hittables>>,
    size: &F,
)
    requires
        node.is_built_from(objects, size),
        all_numeric(objects),
    ensures
        bounded(node),
    decreases node,
{
    match node {
        BVHNode::Leaf(x) => {
            assert(objects[0] == x);
        },
        BVHNode::Node { left, right, bbox } => {
            let axis = choose|axis: i32| #[trigger]
                bbox.longest_axis_is(size, axis) && 0 <= axis < 3 && left.is_built_from(
                    sorted(objects, axis as int).subrange(0, objects.len() as int / 2),
                    size,
                ) && right.is_built_from(
                    sorted(objects, axis as int).subrange(
                        objects.len() as int / 2,
                        objects.len() as int,
                    ),
                    size,
                );
            let s = sorted(objects, axis as int);
            let half = objects.len() as int / 2;
            crate::bvh::lemma_sorted_len(objects, axis as int);
            crate::bvh::lemma_sorted_multiset(objects, axis as int);
            lemma_numeric_rearranged(objects, s);
            let l = s.subrange(0, half);
            let r = s.subrange(half, s.len() as int);
            assert(all_numeric(l)) by {
                assert forall|i: int| 0 <= i < l.len() implies (#[trigger] l[i]).spec_bounding_box().numeric() by {
                    assert(l[i] == s[i]);
                }
            }
            assert(all_numeric(r)) by {
                assert forall|i: int| 0 <= i < r.len() implies (#[trigger] r[i]).spec_bounding_box().numeric() by {
                    assert(r[i] == s[i + half]);
                }
            }
            lemma_built_tree_is_bounded(*left, l, size);
            lemma_built_tree_is_bounded(*right, r, size);
            lemma_built_tree_keeps_objects(node, objects, size);
            lemma_bounds_hold(objects);
            assert(holds_all(bbox, node.leaves())) by {
                let leaves = node.leaves();
                assert forall|i: int| 0 <= i < leaves.len() implies bbox.encloses(
                    (#[trigger] leaves[i]).spec_bounding_box(),
                ) by {
                    let j = lemma_found_in_both(leaves, objects, i);
                    assert(bbox.encloses(objects[j].spec_bounding_box()));
                }
            }
        },
    }
}

/// The search of a tree and the plain scan of its objects, in whatever order
/// they stand, find the same: both miss, or both hit at numerically equal ray
/// parameters.
pub proof fn lemma_tree_agrees_with_scan<
    C: Fn(Scalar, Scalar, Scalar) -> Scalar,
    H: Fn(&Hittables, &Ray, Interval) -> Option<HitRecord>,
>(
    node: BVHNode,
    objects: Seq<Arc<Hittables>>,
    ray: Ray,
    ray_t: Interval,
    crossing: &C,
    prim: &H,
    first: spec_fn(Hittables) -> Option<Scalar>,
    takes: spec_fn(Hittables, Scalar) -> bool,
    via_tree: Option<HitRecord>,
    via_scan: Option<HitRecord>,
)
    requires
        node.leaves().to_multiset() == objects.to_multiset(),
        bounded(node),
        !ray_t.max.nan(),
        steady(prim, ray, ray_t.min, first, takes),
        prunes_safely(crossing, ray, takes),
        node.hit_is(ray, ray_t, crossing, prim, via_tree),
        scan_is(objects, ray, ray_t, prim, via_scan),
    ensures
        via_tree.is_some() == via_scan.is_some(),
        via_tree matches Some(h) ==> via_scan.unwrap().t.same_value(h.t),
{
    lemma_tree_settles(node, ray, ray_t, crossing, prim, via_tree, first, takes);
    lemma_scan_settles(objects, ray, ray_t, prim, via_scan, first, takes);
    lemma_settled_agree(node.leaves(), objects, ray_t.max, via_tree, via_scan, first, takes);
}

/// The search of a tree built over given objects and the plain scan of those
/// objects find the same: both miss, or both hit at numerically equal ray
/// parameters.
pub proof fn lemma_built_tree_agrees_with_scan<
    F: Fn(Interval) -> Scalar,
    C: Fn(Scalar, Scalar, Scalar) -> Scalar,
    H: Fn(&Hittables, &Ray, Interval) -> Option<HitRecord>,
>(
    node: BVHNode,
    objects: Seq<Arc<Hittables>>,
    size: &F,
    ray: Ray,
    ray_t: Interval,
    crossing: &C,
    prim: &H,
    first: spec_fn(Hittables) -> Option<Scalar>,
    takes: spec_fn(Hittables, Scalar) -> bool,
    via_tree: Option<HitRecord>,
    via_scan: Option<HitRecord>,
)
    requires
        node.is_built_from(objects, size),
        all_numeric(objects),
        !ray_t.max.nan(),
        steady(prim, ray, ray_t.min, first, takes),
        prunes_safely(crossing, ray, takes),
        node.hit_is(ray, ray_t, crossing, prim, via_tree),
        scan_is(objects, ray, ray_t, prim, via_scan),
    ensures
        via_tree.is_some() == via_scan.is_some(),
        via_tree matches Some(h) ==> via_scan.unwrap().t.same_value(h.t),
{
    lemma_built_tree_keeps_objects(node, objects, size);
    lemma_built_tree_is_bounded(node, objects, size);
    lemma_tree_agrees_with_scan(
        node,
        objects,
        ray,
        ray_t,
        crossing,
        prim,
        first,
        takes,
        via_tree,
        via_scan,
    );
}

} // verus!
