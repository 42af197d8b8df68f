//! The bounding-volume hierarchy.

use vstd::prelude::*;
use std::sync::Arc;
use crate::aabb::AABB;
use crate::hit_record::HitRecord;
use crate::hittables::{later, narrowed, HittableList, Hittables};
use crate::interval::Interval;
use crate::ray::Ray;
use crate::scalar::Scalar;
use crate::shared::share;

verus! {

/// A binary tree over the objects of a scene. A leaf holds one object; an
/// inner node holds the box that spans everything below it.
pub enum BVHNode {
    Leaf(Arc<Hittables>),
    Node { left: Box<BVHNode>, right: Box<BVHNode>, bbox: AABB },
}

/// The number by which an object is ordered along `axis`: the lower bound of
/// its box there.
pub open spec fn sort_key(object: Arc<Hittables>, axis: int) -> Scalar {
    object.spec_bounding_box().axis(axis).min
}

/// `s` with `x` put in after the last object that `x` does not come before.
pub open spec fn inserted(s: Seq<Arc<Hittables>>, x: Arc<Hittables>, axis: int) -> Seq<
    Arc<Hittables>,
>
    decreases s.len(),
{
    if s.len() == 0 || !sort_key(x, axis).lt(sort_key(s.last(), axis)) {
        s.push(x)
    } else {
        inserted(s.drop_last(), x, axis).push(s.last())
    }
}

/// `s` in the order of the keys along `axis`, objects with equal keys staying
/// in the order they had: each object in turn is put in after the last one
/// that it does not come before.
pub open spec fn sorted(s: Seq<Arc<Hittables>>, axis: int) -> Seq<Arc<Hittables>>
    decreases s.len(),
{
    if s.len() == 0 {
        s
    } else {
        inserted(sorted(s.drop_last(), axis), s.last(), axis)
    }
}

/// The box that spans the boxes of `objects`, widened from the empty box one
/// object at a time.
pub open spec fn bounds_of(objects: Seq<Arc<Hittables>>) -> AABB
    decreases objects.len(),
{
    if objects.len() == 0 {
        AABB::empty()
    } else {
        AABB::from_boxes(&bounds_of(objects.drop_last()), &objects.last().spec_bounding_box())
    }
}

/// Whether the keys along `axis` never fall from one object of `s` to the
/// next.
pub open spec fn ascending(s: Seq<Arc<Hittables>>, axis: int) -> bool {
    forall|i: int, j: int|
        0 <= i < j < s.len() ==> #[trigger] sort_key(s[i], axis).le(#[trigger] sort_key(s[j], axis))
}

/// The objects of `s` whose key along `axis` is numerically equal to `k`, in
/// the order in which they stand in `s`.
pub open spec fn with_key(s: Seq<Arc<Hittables>>, axis: int, k: Scalar) -> Seq<Arc<Hittables>> {
    s.filter(|o: Arc<Hittables>| sort_key(o, axis).same_value(k))
}

/// Whether no object of `s` has a NaN for a key along `axis`.
pub open spec fn keyed(s: Seq<Arc<Hittables>>, axis: int) -> bool {
    forall|i: int| 0 <= i < s.len() ==> !(#[trigger] sort_key(s[i], axis)).nan()
}

impl BVHNode {
    /// The box of the node: a leaf's is its object's, an inner node's the one
    /// it holds.
    pub open spec fn spec_bounding_box(&self) -> AABB
        decreases self,
    {
        match self {
            BVHNode::Leaf(x) => x.spec_bounding_box(),
            BVHNode::Node { left, right, bbox } => *bbox,
        }
    }

    /// The objects of the tree, from left to right.
    pub open spec fn leaves(&self) -> Seq<Arc<Hittables>>
        decreases self,
    {
        match self {
            BVHNode::Leaf(x) => seq![*x],
            BVHNode::Node { left, right, bbox } => left.leaves() + right.leaves(),
        }
    }

    /// Whether the tree is what `new` may build over `objects`, `size`
    /// measuring the ranges of a box.
    ///
    /// One object makes a leaf. More make an inner node: its box spans the
    /// objects; they are sorted along the longest axis of that box, and the
    /// first half of them (the lesser half, where their number is odd) is
    /// built into the left child, the rest into the right.
    pub open spec fn is_built_from<F: Fn(Interval) -> Scalar>(
        &self,
        objects: Seq<Arc<Hittables>>,
        size: &F,
    ) -> bool
        decreases self,
    {
        match self {
            BVHNode::Leaf(x) => objects.len() == 1 && *x == objects[0],
            BVHNode::Node { left, right, bbox } => objects.len() >= 2 && *bbox == bounds_of(objects)
                && exists|axis: i32| #[trigger]
                bbox.longest_axis_is(size, axis) && 0 <= axis < 3 && left.is_built_from(
                    sorted(objects, axis as int).subrange(0, objects.len() as int / 2),
                    size,
                ) && right.is_built_from(
                    sorted(objects, axis as int).subrange(
                        objects.len() as int / 2,
                        objects.len() as int,
                    ),
                    size,
                ),
        }
    }

    /// Whether `result` is what `hit` may answer.
    pub open spec fn hit_is<
        C: Fn(Scalar, Scalar, Scalar) -> Scalar,
        H: Fn(&Hittables, &Ray, Interval) -> Option<HitRecord>,
    >(&self, ray: Ray, ray_t: Interval, crossing: &C, prim: &H, result: Option<HitRecord>) -> bool
        decreases self,
    {
        exists|clip: Option<Interval>| #[trigger]
            self.spec_bounding_box().hit_is(ray, crossing, clip) && if clip.is_none() {
                result.is_none()
            } else {
                match self {
                    BVHNode::Leaf(x) => call_ensures(*prim, (&**x, &ray, ray_t), result),
                    BVHNode::Node { left, right, bbox } => exists|
                        hl: Option<HitRecord>,
                        hr: Option<HitRecord>,
                    |
                        left.hit_is(ray, ray_t, crossing, prim, hl) && right.hit_is(
                            ray,
                            narrowed(ray_t, hl),
                            crossing,
                            prim,
                            hr,
                        ) && result == #[trigger] later(hl, hr),
                }
            }
    }

    /// Whether `a` comes before `b` along `axis`: whether the lower bound of
    /// its box there is less. Objects with equal bounds come after each other.
    pub fn box_compare(a: &Hittables, b: &Hittables, axis: i32) -> (before: bool)
        requires
            0 <= axis < 3,
        ensures
            before == a.spec_bounding_box().axis(axis as int).min.lt(
                b.spec_bounding_box().axis(axis as int).min,
            ),
    {
        let a_axis_interval = a.bounding_box().axis_interval(axis);
        let b_axis_interval = b.bounding_box().axis_interval(axis);
        a_axis_interval.min.lt(b_axis_interval.min)
    }

    /// The box that spans the objects from `start` up to `end`.
    pub fn bounds(objects: &Vec<Arc<Hittables>>, start: usize, end: usize) -> (bbox: AABB)
        requires
            start <= end <= objects.len(),
        ensures
            bbox == bounds_of(objects@.subrange(start as int, end as int)),
    {
        let mut bbox = AABB::empty();
        let mut k: usize = start;
        while k < end
            invariant
                start <= k <= end <= objects.len(),
                bbox == bounds_of(objects@.subrange(start as int, k as int)),
            decreases end - k,
        {
            proof {
                let upto = objects@.subrange(start as int, k + 1);
                assert(upto.drop_last() =~= objects@.subrange(start as int, k as int));
                assert(upto.last() == objects@[k as int]);
            }
            bbox = AABB::from_boxes(&bbox, &objects[k].bounding_box());
            k += 1;
        }
        bbox
    }

    /// Sorts the objects from `start` up to `end` along `axis`, in place.
    /// Objects with equal keys keep their order.
    pub fn sort_range(objects: &mut Vec<Arc<Hittables>>, start: usize, end: usize, axis: i32)
        requires
            start <= end <= old(objects).len(),
            0 <= axis < 3,
        ensures
            final(objects)@ == old(objects)@.subrange(0, start as int) + sorted(
                old(objects)@.subrange(start as int, end as int),
                axis as int,
            ) + old(objects)@.subrange(end as int, old(objects).len() as int),
    {
        let ghost given = objects@;
        let mut i: usize = start;
        assert(sorted(given.subrange(start as int, start as int), axis as int) =~= Seq::empty());
        assert(objects@ =~= given.subrange(0, start as int) + sorted(
            given.subrange(start as int, i as int),
            axis as int,
        ) + given.subrange(i as int, given.len() as int));
        while i < end
            invariant
                start <= i <= end <= given.len(),
                0 <= axis < 3,
                objects@ == given.subrange(0, start as int) + sorted(
                    given.subrange(start as int, i as int),
                    axis as int,
                ) + given.subrange(i as int, given.len() as int),
            decreases end - i,
        {
            let ghost done = sorted(given.subrange(start as int, i as int), axis as int);
            proof {
                lemma_sorted_len(given.subrange(start as int, i as int), axis as int);
            }
            let ghost key = sort_key(objects@[i as int], axis as int);
            let mut p: usize = i;
            while p > start && BVHNode::box_compare(&*objects[i], &*objects[p - 1], axis)
                invariant
                    start <= p <= i < objects.len(),
                    0 <= axis < 3,
                    key == sort_key(objects@[i as int], axis as int),
                    forall|q: int|
                        p <= q < i ==> key.lt(#[trigger] sort_key(objects@[q], axis as int)),
                decreases p,
            {
                p -= 1;
            }
            let ghost before = objects@;
            let x = objects.remove(i);
            objects.insert(p, x);
            proof {
                let k = p - start;
                assert(x == given[i as int]);
                assert(done.len() == i - start);
                assert forall|q: int| k <= q < done.len() implies sort_key(x, axis as int).lt(
                    #[trigger] sort_key(done[q], axis as int),
                ) by {
                    assert(done[q] == before[q + start]);
                }
                if k > 0 {
                    assert(done[k - 1] == before[p - 1]);
                }
                lemma_inserted_at(done, x, axis as int, k);
                let upto = given.subrange(start as int, i + 1);
                assert(upto.drop_last() =~= given.subrange(start as int, i as int));
                assert(upto.last() == x);
                assert(sorted(upto, axis as int) == done.insert(k, x));
                assert(objects@ =~= given.subrange(0, start as int) + done.insert(k, x)
                    + given.subrange(i + 1, given.len() as int));
            }
            i += 1;
        }
    }

    /// Builds a tree over the objects from `start` up to `end`, which it puts
    /// in the order of the tree's leaves.
    ///
    /// One object makes a leaf. Otherwise the node's box is the span of the
    /// objects' boxes; the objects are sorted along the longest axis of that
    /// box, as `size` measures it, objects with equal keys keeping their
    /// order; and the two halves, split at `start + (end - start) / 2`, are
    /// built into the left and the right child.
    pub fn new<F: Fn(Interval) -> Scalar>(
        objects: &mut Vec<Arc<Hittables>>,
        start: usize,
        end: usize,
        size: &F,
    ) -> (node: BVHNode)
        requires
            start < end <= old(objects).len(),
            forall|i: Interval| call_requires(*size, (i,)),
        ensures
            node.is_built_from(old(objects)@.subrange(start as int, end as int), size),
            final(objects)@ == old(objects)@.subrange(0, start as int) + node.leaves() + old(
                objects,
            )@.subrange(end as int, old(objects).len() as int),
            node.leaves().len() == end - start,
        decreases end - start,
    {
        let ghost given = objects@;
        let ghost slice = given.subrange(start as int, end as int);
        let span = end - start;
        if span == 1 {
            let node = BVHNode::Leaf(share(&objects[start]));
            assert(objects@ =~= given.subrange(0, start as int) + node.leaves() + given.subrange(
                end as int,
                given.len() as int,
            ));
            return node;
        }
        let bbox = BVHNode::bounds(objects, start, end);
        let axis = bbox.longest_axis(size);
        BVHNode::sort_range(objects, start, end, axis);
        let ghost ordered = sorted(slice, axis as int);
        let ghost half = span as int / 2;
        proof {
            lemma_sorted_len(slice, axis as int);
        }
        let mid = start + span / 2;
        let ghost after_sort = objects@;
        assert(after_sort.subrange(start as int, mid as int) =~= ordered.subrange(0, half));
        assert(after_sort.subrange(mid as int, end as int) =~= ordered.subrange(half, span as int));
        let left = BVHNode::new(objects, start, mid, size);
        let ghost after_left = objects@;
        assert(after_left.subrange(mid as int, end as int) =~= after_sort.subrange(
            mid as int,
            end as int,
        ));
        let right = BVHNode::new(objects, mid, end, size);
        let ghost left_leaves = left.leaves();
        let ghost right_leaves = right.leaves();
        assert(objects@ =~= given.subrange(0, start as int) + (left_leaves + right_leaves)
            + given.subrange(end as int, given.len() as int)) by {
            assert(after_sort.len() == given.len());
            assert(after_left.len() == given.len());
            assert(objects@.len() == given.len());
            assert forall|q: int| 0 <= q < given.len() implies objects@[q] == (given.subrange(
                0,
                start as int,
            ) + (left_leaves + right_leaves) + given.subrange(end as int, given.len() as int))[q] by {
                if q < start {
                    assert(objects@[q] == after_left[q]);
                    assert(after_left[q] == after_sort[q]);
                    assert(after_sort[q] == given[q]);
                } else if q < mid {
                    assert(objects@[q] == after_left[q]);
                    assert(after_left[q] == left_leaves[q - start]);
                } else if q < end {
                    assert(objects@[q] == right_leaves[q - mid]);
                } else {
                    assert(objects@[q] == after_left[q]);
                    assert(after_left[q] == after_sort[q]);
                    assert(after_sort[q] == given[q]);
                }
            }
        }
        let node = BVHNode::Node { left: Box::new(left), right: Box::new(right), bbox };
        proof {
            assert(slice.len() == span);
            lemma_node_is_built(left, right, bbox, slice, size, axis);
        }
        node
    }

    /// Builds a tree over the objects of `list`, which it puts in the order of
    /// the tree's leaves. The list's box is left as it is.
    pub fn from_list<F: Fn(Interval) -> Scalar>(list: &mut HittableList, size: &F) -> (node: BVHNode)
        requires
            old(list).objects.len() > 0,
            forall|i: Interval| call_requires(*size, (i,)),
        ensures
            node.is_built_from(old(list).objects@, size),
            final(list).objects@ == node.leaves(),
            final(list).bbox == old(list).bbox,
    {
        let len = list.objects.len();
        let ghost given = list.objects@;
        assert(given.subrange(0, len as int) =~= given);
        let node = BVHNode::new(&mut list.objects, 0, len, size);
        assert(list.objects@ =~= node.leaves());
        node
    }

    /// The box that holds everything in the tree.
    #[verifier::when_used_as_spec(spec_bounding_box)]
    pub fn bounding_box(&self) -> (b: AABB)
        ensures
            b == self.spec_bounding_box(),
        decreases self,
    {
        match self {
            BVHNode::Leaf(x) => x.bounding_box(),
            BVHNode::Node { left, right, bbox } => *bbox,
        }
    }

    /// The nearest hit of a ray among the objects of the tree, within `ray_t`.
    ///
    /// The node's box is tested first, by the slab test with `crossing`; a ray
    /// that misses it hits nothing below. A leaf asks its object through
    /// `prim`. An inner node asks the left child over `ray_t` and then the
    /// right child over `ray_t` with its upper end drawn in to the left hit,
    /// if any; a hit on the right replaces the one on the left.
    pub fn hit<
        C: Fn(Scalar, Scalar, Scalar) -> Scalar,
        H: Fn(&Hittables, &Ray, Interval) -> Option<HitRecord>,
    >(&self, ray: &Ray, ray_t: Interval, crossing: &C, prim: &H) -> (result: Option<HitRecord>)
        requires
            forall|bound: Scalar, origin: Scalar, direction: Scalar|
                call_requires(*crossing, (bound, origin, direction)),
            forall|o: &Hittables, r: &Ray, i: Interval| call_requires(*prim, (o, r, i)),
        ensures
            self.hit_is(*ray, ray_t, crossing, prim, result),
        decreases self,
    {
        let clip = self.bounding_box().hit(ray, crossing);
        if clip.is_none() {
            return None;
        }
        match self {
            BVHNode::Leaf(object) => prim(&**object, ray, ray_t),
            BVHNode::Node { left, right, .. } => {
                let hl = left.hit(ray, ray_t, crossing, prim);
                let closest_so_far = match &hl {
                    Some(hr) => hr.t,
                    None => ray_t.max,
                };
                let hr = right.hit(ray, Interval::new(ray_t.min, closest_so_far), crossing, prim);
                let ghost found = (hl, hr);
                let result = match hr {
                    Some(h) => Some(h),
                    None => hl,
                };
                assert(result == later(found.0, found.1));
                result
            },
        }
    }
}

proof fn lemma_node_is_built<F: Fn(Interval) -> Scalar>(
    left: BVHNode,
    right: BVHNode,
    bbox: AABB,
    objects: Seq<Arc<Hittables>>,
    size: &F,
    axis: i32,
)
    requires
        objects.len() >= 2,
        bbox == bounds_of(objects),
        bbox.longest_axis_is(size, axis),
        0 <= axis < 3,
        left.is_built_from(
            sorted(objects, axis as int).subrange(0, objects.len() as int / 2),
            size,
        ),
        right.is_built_from(
            sorted(objects, axis as int).subrange(objects.len() as int / 2, objects.len() as int),
            size,
        ),
    ensures
        (BVHNode::Node { left: Box::new(left), right: Box::new(right), bbox }).is_built_from(
            objects,
            size,
        ),
{
    let node = BVHNode::Node { left: Box::new(left), right: Box::new(right), bbox };
    assert(exists|a: i32| #[trigger]
        bbox.longest_axis_is(size, a) && 0 <= a < 3 && left.is_built_from(
            sorted(objects, a as int).subrange(0, objects.len() as int / 2),
            size,
        ) && right.is_built_from(
            sorted(objects, a as int).subrange(objects.len() as int / 2, objects.len() as int),
            size,
        ));
    assert(node->left == left && node->right == right && node->bbox == bbox);
}

/// Sorting keeps the number of objects.
pub proof fn lemma_sorted_len(s: Seq<Arc<Hittables>>, axis: int)
    ensures
        sorted(s, axis).len() == s.len(),
    decreases s.len(),
{
    if s.len() > 0 {
        lemma_sorted_len(s.drop_last(), axis);
        lemma_inserted_len(sorted(s.drop_last(), axis), s.last(), axis);
    }
}

/// Putting an object in makes the sequence one longer.
pub proof fn lemma_inserted_len(s: Seq<Arc<Hittables>>, x: Arc<Hittables>, axis: int)
    ensures
        inserted(s, x, axis).len() == s.len() + 1,
    decreases s.len(),
{
    if !(s.len() == 0 || !sort_key(x, axis).lt(sort_key(s.last(), axis))) {
        lemma_inserted_len(s.drop_last(), x, axis);
    }
}

/// `x` goes in at place `k` when it comes before every object from `k` on and
/// not before the one at `k - 1`.
pub proof fn lemma_inserted_at(s: Seq<Arc<Hittables>>, x: Arc<Hittables>, axis: int, k: int)
    requires
        0 <= k <= s.len(),
        forall|q: int| k <= q < s.len() ==> sort_key(x, axis).lt(#[trigger] sort_key(s[q], axis)),
        k > 0 ==> !sort_key(x, axis).lt(sort_key(s[k - 1], axis)),
    ensures
        inserted(s, x, axis) == s.insert(k, x),
    decreases s.len() - k,
{
    if k == s.len() {
        assert(s.push(x) =~= s.insert(k, x));
    } else {
        assert(sort_key(x, axis).lt(sort_key(s[s.len() - 1], axis)));
        lemma_inserted_at(s.drop_last(), x, axis, k);
        assert(s.drop_last().insert(k, x).push(s.last()) =~= s.insert(k, x));
    }
}

/// Putting an object in adds it to the objects and takes none away.
pub proof fn lemma_inserted_multiset(s: Seq<Arc<Hittables>>, x: Arc<Hittables>, axis: int)
    ensures
        inserted(s, x, axis).to_multiset() == s.to_multiset().insert(x),
    decreases s.len(),
{
    broadcast use vstd::seq_lib::to_multiset_build;

    if !(s.len() == 0 || !sort_key(x, axis).lt(sort_key(s.last(), axis))) {
        lemma_inserted_multiset(s.drop_last(), x, axis);
        assert(s.drop_last().push(s.last()) =~= s);
        assert(inserted(s, x, axis).to_multiset() =~= s.to_multiset().insert(x));
    }
}

/// Sorting rearranges: the sorted sequence holds each object as often as the
/// given one.
pub proof fn lemma_sorted_multiset(s: Seq<Arc<Hittables>>, axis: int)
    ensures
        sorted(s, axis).to_multiset() == s.to_multiset(),
    decreases s.len(),
{
    broadcast use vstd::seq_lib::to_multiset_build;

    if s.len() > 0 {
        lemma_sorted_multiset(s.drop_last(), axis);
        lemma_inserted_multiset(sorted(s.drop_last(), axis), s.last(), axis);
        assert(s.drop_last().push(s.last()) =~= s);
    }
}

proof fn lemma_inserted_ascending(s: Seq<Arc<Hittables>>, x: Arc<Hittables>, axis: int)
    requires
        ascending(s, axis),
        keyed(s, axis),
        !sort_key(x, axis).nan(),
    ensures
        ascending(inserted(s, x, axis), axis),
        keyed(inserted(s, x, axis), axis),
        forall|i: int|
            0 <= i < inserted(s, x, axis).len() ==> #[trigger] inserted(s, x, axis)[i] == x
                || s.contains(inserted(s, x, axis)[i]),
    decreases s.len(),
{
    let r = inserted(s, x, axis);
    if s.len() == 0 || !sort_key(x, axis).lt(sort_key(s.last(), axis)) {
        assert forall|i: int, j: int| 0 <= i < j < r.len() implies #[trigger] sort_key(
            r[i],
            axis,
        ).le(#[trigger] sort_key(r[j], axis)) by {
            if j == s.len() {
                assert(sort_key(s[i], axis).le(sort_key(s[s.len() - 1], axis)) || i == s.len() - 1);
            }
        }
        assert forall|i: int| 0 <= i < r.len() implies #[trigger] r[i] == x || s.contains(r[i]) by {
            if i < s.len() {
                assert(s[i] == r[i]);
            }
        }
    } else {
        let init = s.drop_last();
        let q = inserted(init, x, axis);
        assert(ascending(init, axis)) by {
            assert forall|i: int, j: int| 0 <= i < j < init.len() implies #[trigger] sort_key(
                init[i],
                axis,
            ).le(#[trigger] sort_key(init[j], axis)) by {
                assert(init[i] == s[i] && init[j] == s[j]);
            }
        }
        assert(keyed(init, axis)) by {
            assert forall|i: int| 0 <= i < init.len() implies !(#[trigger] sort_key(
                init[i],
                axis,
            )).nan() by {
                assert(init[i] == s[i]);
            }
        }
        lemma_inserted_ascending(init, x, axis);
        lemma_inserted_len(init, x, axis);
        assert forall|i: int| 0 <= i < q.len() implies sort_key(#[trigger] q[i], axis).le(
            sort_key(s.last(), axis),
        ) by {
            if q[i] != x {
                let k = choose|k: int| 0 <= k < init.len() && init[k] == q[i];
                assert(init[k] == s[k]);
                assert(sort_key(s[k], axis).le(sort_key(s[s.len() - 1], axis)));
            }
        }
        assert forall|i: int, j: int| 0 <= i < j < r.len() implies #[trigger] sort_key(
            r[i],
            axis,
        ).le(#[trigger] sort_key(r[j], axis)) by {
            if j < q.len() {
                assert(r[i] == q[i] && r[j] == q[j]);
            } else {
                assert(r[i] == q[i]);
            }
        }
        assert forall|i: int| 0 <= i < r.len() implies !(#[trigger] sort_key(r[i], axis)).nan() by {
            if i < q.len() {
                assert(r[i] == q[i]);
            } else {
                assert(r[i] == s[s.len() - 1]);
            }
        }
        assert forall|i: int| 0 <= i < r.len() implies #[trigger] r[i] == x || s.contains(r[i]) by {
            if i < q.len() {
                assert(r[i] == q[i]);
                if q[i] != x {
                    let k = choose|k: int| 0 <= k < init.len() && init[k] == q[i];
                    assert(s[k] == r[i]);
                }
            } else {
                assert(r[i] == s[s.len() - 1]);
            }
        }
    }
}

/// Where no key is a NaN, the sorted sequence has its keys in ascending
/// order.
pub proof fn lemma_sorted_ascending(s: Seq<Arc<Hittables>>, axis: int)
    requires
        keyed(s, axis),
    ensures
        ascending(sorted(s, axis), axis),
        keyed(sorted(s, axis), axis),
    decreases s.len(),
{
    if s.len() > 0 {
        let init = s.drop_last();
        assert(keyed(init, axis)) by {
            assert forall|i: int| 0 <= i < init.len() implies !(#[trigger] sort_key(
                init[i],
                axis,
            )).nan() by {
                assert(init[i] == s[i]);
            }
        }
        lemma_sorted_ascending(init, axis);
        assert(!sort_key(s[s.len() - 1], axis).nan());
        lemma_inserted_ascending(sorted(init, axis), s.last(), axis);
    }
}

proof fn lemma_with_key_push(s: Seq<Arc<Hittables>>, x: Arc<Hittables>, axis: int, k: Scalar)
    ensures
        with_key(s.push(x), axis, k) == (if sort_key(x, axis).same_value(k) {
            with_key(s, axis, k).push(x)
        } else {
            with_key(s, axis, k)
        }),
{
    reveal(Seq::filter);
    assert(s.push(x).drop_last() =~= s);
}

proof fn lemma_inserted_with_key(s: Seq<Arc<Hittables>>, x: Arc<Hittables>, axis: int, k: Scalar)
    ensures
        with_key(inserted(s, x, axis), axis, k) == (if sort_key(x, axis).same_value(k) {
            with_key(s, axis, k).push(x)
        } else {
            with_key(s, axis, k)
        }),
    decreases s.len(),
{
    if s.len() == 0 || !sort_key(x, axis).lt(sort_key(s.last(), axis)) {
        lemma_with_key_push(s, x, axis, k);
    } else {
        let init = s.drop_last();
        lemma_inserted_with_key(init, x, axis, k);
        lemma_with_key_push(inserted(init, x, axis), s.last(), axis, k);
        lemma_with_key_push(init, s.last(), axis, k);
        assert(init.push(s.last()) =~= s);
    }
}

/// Sorting is stable: the objects with any one key stand in the sorted
/// sequence in the order in which they were given.
pub proof fn lemma_sorted_is_stable(s: Seq<Arc<Hittables>>, axis: int, k: Scalar)
    ensures
        with_key(sorted(s, axis), axis, k) == with_key(s, axis, k),
    decreases s.len(),
{
    if s.len() > 0 {
        let init = s.drop_last();
        lemma_sorted_is_stable(init, axis, k);
        lemma_inserted_with_key(sorted(init, axis), s.last(), axis, k);
        lemma_with_key_push(init, s.last(), axis, k);
        assert(init.push(s.last()) =~= s);
    }
}

} // verus!
