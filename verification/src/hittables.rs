//! Everything a ray can hit, and lists of such things.

use vstd::prelude::*;
use std::sync::Arc;
use crate::aabb::AABB;
use crate::bvh::BVHNode;
use crate::constant_medium::Medium;
use crate::hit_record::HitRecord;
use crate::interval::Interval;
use crate::materials::Materials;
use crate::quad::{Frame, Quad};
use crate::ray::Ray;
use crate::scalar::Scalar;
use crate::shared::share;
use crate::sphere::Sphere;
use crate::translation::{turned_box_is, RotateY, Translate};
use crate::vec3::{Color3, Point3, Vec3};

verus! {

/// The kinds of object in a scene.
pub enum Hittables {
    Sphere(Sphere),
    BVH(Box<BVHNode>),
    List(Box<HittableList>),
    Quad(Quad),
    Translate(Translate),
    RotY(RotateY),
    Medium(Medium),
}

/// Objects in the order in which they were added, with the box of the list:
/// it is widened to hold each object that is added, and moved and turned
/// with the objects when the list is.
pub struct HittableList {
    pub objects: Vec<Arc<Hittables>>,
    pub bbox: AABB,
}

/// `interval` with its upper end drawn in to the hit found so far, if any.
pub open spec fn narrowed(interval: Interval, found: Option<HitRecord>) -> Interval {
    Interval {
        min: interval.min,
        max: match found {
            Some(h) => h.t,
            None => interval.max,
        },
    }
}

/// The second of two findings, if there is one, else the first.
pub open spec fn later(first: Option<HitRecord>, second: Option<HitRecord>) -> Option<HitRecord> {
    if second.is_some() {
        second
    } else {
        first
    }
}

/// Whether a scan of `objects` in order may end in `result`: each object is
/// asked through `prim` over the interval drawn in to the last hit before it,
/// and each hit replaces the one before.
pub open spec fn scan_is<H: Fn(&Hittables, &Ray, Interval) -> Option<HitRecord>>(
    objects: Seq<Arc<Hittables>>,
    ray: Ray,
    interval: Interval,
    prim: &H,
    result: Option<HitRecord>,
) -> bool
    decreases objects.len(),
{
    if objects.len() == 0 {
        result.is_none()
    } else {
        exists|before: Option<HitRecord>, here: Option<HitRecord>|
            scan_is(objects.drop_last(), ray, interval, prim, before) && call_ensures(
                *prim,
                (&*objects.last(), &ray, narrowed(interval, before)),
                here,
            ) && result == #[trigger] later(before, here)
    }
}

/// Whether `moved` is `object` moved by `offset`, its box being the object's
/// box as `shift` moves it.
pub open spec fn is_translated<S: Fn(AABB, Vec3) -> AABB>(
    moved: Arc<Hittables>,
    object: Arc<Hittables>,
    offset: Vec3,
    shift: &S,
) -> bool {
    *moved matches Hittables::Translate(t) && t.object == object && t.offset == offset
        && call_ensures(*shift, (object.spec_bounding_box(), offset), t.bbox)
}

/// Whether `turned` is `object` turned about the y axis, its box being the
/// box of the eight turned corners of the object's box.
pub open spec fn is_rotated<F: Fn(AABB, bool, bool, bool) -> Point3>(
    turned: Arc<Hittables>,
    object: Arc<Hittables>,
    sin_theta: Scalar,
    cos_theta: Scalar,
    corner: &F,
) -> bool {
    *turned matches Hittables::RotY(r) && r.object == object && r.sin_theta == sin_theta
        && r.cos_theta == cos_theta && turned_box_is(object.spec_bounding_box(), corner, r.bbox)
}

impl Hittables {
    /// A sphere at rest; see `Sphere::new_static`.
    pub fn new_static_sphere(
        center: Point3,
        radius: Scalar,
        mat: Arc<Materials>,
        low: Point3,
        high: Point3,
    ) -> (h: Arc<Hittables>)
        ensures
            *h matches Hittables::Sphere(s) && s.is_static(center, radius, mat, low, high),
    {
        Arc::new(Hittables::Sphere(Sphere::new_static(center, radius, mat, low, high)))
    }

    /// A moving sphere; see `Sphere::new_moving`.
    pub fn new_moving_sphere(
        start: Point3,
        travel: Vec3,
        radius: Scalar,
        mat: Arc<Materials>,
        low_start: Point3,
        high_start: Point3,
        low_end: Point3,
        high_end: Point3,
    ) -> (h: Arc<Hittables>)
        ensures
            *h matches Hittables::Sphere(s) && s.is_moving(
                start,
                travel,
                radius,
                mat,
                low_start,
                high_start,
                low_end,
                high_end,
            ),
    {
        Arc::new(
            Hittables::Sphere(
                Sphere::new_moving(
                    start,
                    travel,
                    radius,
                    mat,
                    low_start,
                    high_start,
                    low_end,
                    high_end,
                ),
            ),
        )
    }

    /// A quad; see `Quad::new`.
    pub fn new_quad<F: Fn(Interval) -> Scalar, G: Fn(Interval, Scalar) -> Interval>(
        q: Point3,
        u: Vec3,
        v: Vec3,
        mat: Arc<Materials>,
        frame: &Frame,
        size: &F,
        widen: &G,
    ) -> (h: Arc<Hittables>)
        requires
            forall|i: Interval| call_requires(*size, (i,)),
            forall|i: Interval, d: Scalar| call_requires(*widen, (i, d)),
        ensures
            *h matches Hittables::Quad(quad) && quad.is_made_from(
                q,
                u,
                v,
                mat,
                *frame,
                size,
                widen,
            ),
    {
        Arc::new(Hittables::Quad(Quad::new(q, u, v, mat, frame, size, widen)))
    }

    /// `object` moved by `offset`; see `Translate::new`.
    pub fn translate<S: Fn(AABB, Vec3) -> AABB>(object: Arc<Hittables>, offset: Vec3, shift: &S) -> (h:
        Arc<Hittables>)
        requires
            forall|b: AABB| call_requires(*shift, (b, offset)),
        ensures
            is_translated(h, object, offset, shift),
    {
        Arc::new(Hittables::Translate(Translate::new(object, offset, shift)))
    }

    /// `object` turned about the y axis; see `RotateY::new`.
    pub fn rotate_y<F: Fn(AABB, bool, bool, bool) -> Point3>(
        object: Arc<Hittables>,
        sin_theta: Scalar,
        cos_theta: Scalar,
        corner: &F,
    ) -> (h: Arc<Hittables>)
        requires
            forall|b: AABB, x: bool, y: bool, z: bool| call_requires(*corner, (b, x, y, z)),
        ensures
            is_rotated(h, object, sin_theta, cos_theta, corner),
    {
        Arc::new(Hittables::RotY(RotateY::new(object, sin_theta, cos_theta, corner)))
    }

    /// A medium of one colour inside `boundary`; see `Medium::solid`.
    pub fn new_solid_medium(boundary: Arc<Hittables>, neg_inv_density: Scalar, albedo: Color3) -> (h:
        Arc<Hittables>)
        ensures
            *h matches Hittables::Medium(m) && m.is_solid_in(boundary, neg_inv_density, albedo),
    {
        Arc::new(Hittables::Medium(Medium::solid(boundary, neg_inv_density, albedo)))
    }

    /// The box of the object: what it holds for itself, or, for a medium and
    /// for the leaf of a hierarchy, the box of what it wraps.
    pub open spec fn spec_bounding_box(&self) -> AABB
        decreases self,
    {
        match self {
            Hittables::Sphere(obj) => obj.bbox,
            Hittables::BVH(obj) => obj.spec_bounding_box(),
            Hittables::List(obj) => obj.bbox,
            Hittables::Quad(obj) => obj.bbox,
            Hittables::Translate(obj) => obj.bbox,
            Hittables::RotY(obj) => obj.bbox,
            Hittables::Medium(obj) => obj.boundary.spec_bounding_box(),
        }
    }

    /// The box that holds the object.
    #[verifier::when_used_as_spec(spec_bounding_box)]
    pub fn bounding_box(&self) -> (b: AABB)
        ensures
            b == self.spec_bounding_box(),
        decreases self,
    {
        match self {
            Hittables::Sphere(obj) => obj.bbox,
            Hittables::BVH(obj) => obj.bounding_box(),
            Hittables::List(obj) => obj.bbox,
            Hittables::Quad(obj) => obj.bbox,
            Hittables::Translate(obj) => obj.bbox,
            Hittables::RotY(obj) => obj.bbox,
            Hittables::Medium(obj) => obj.boundary.bounding_box(),
        }
    }
}

impl HittableList {
    /// The list without objects; its box is empty.
    pub fn empty() -> (l: HittableList)
        ensures
            l.objects@ == Seq::<Arc<Hittables>>::empty(),
            l.bbox == AABB::empty(),
    {
        HittableList { objects: Vec::new(), bbox: AABB::empty() }
    }

    /// Puts `object` at the end of the list and widens the box to hold it.
    pub fn add(&mut self, object: Arc<Hittables>)
        ensures
            final(self).objects@ == old(self).objects@.push(object),
            final(self).bbox == AABB::from_boxes(&old(self).bbox, &object.spec_bounding_box()),
    {
        let b = object.bounding_box();
        self.objects.push(object);
        self.bbox = AABB::from_boxes(&self.bbox, &b);
    }

    /// Moves the objects of `new` to the end of the list, leaving `new`
    /// without objects, and widens the box to hold the box of `new`.
    pub fn append(&mut self, new: &mut HittableList)
        ensures
            final(self).objects@ == old(self).objects@ + old(new).objects@,
            final(new).objects@ == Seq::<Arc<Hittables>>::empty(),
            final(new).bbox == old(new).bbox,
            final(self).bbox == AABB::from_boxes(&old(self).bbox, &old(new).bbox),
    {
        self.objects.append(&mut new.objects);
        self.bbox = AABB::from_boxes(&self.bbox, &new.bbox);
    }

    /// Puts each object of the list in a wrapper that moves it by `offset`,
    /// and moves the box of the list with them, as `shift` moves a box.
    pub fn translate<S: Fn(AABB, Vec3) -> AABB>(&mut self, offset: Vec3, shift: &S)
        requires
            forall|b: AABB| call_requires(*shift, (b, offset)),
        ensures
            final(self).objects.len() == old(self).objects.len(),
            forall|i: int|
                0 <= i < old(self).objects.len() ==> is_translated(
                    #[trigger] final(self).objects[i],
                    old(self).objects[i],
                    offset,
                    shift,
                ),
            call_ensures(*shift, (old(self).bbox, offset), final(self).bbox),
    {
        let mut wrapped: Vec<Arc<Hittables>> = Vec::new();
        let mut k: usize = 0;
        while k < self.objects.len()
            invariant
                k <= self.objects.len(),
                wrapped.len() == k,
                *self == *old(self),
                forall|b: AABB| call_requires(*shift, (b, offset)),
                forall|i: int|
                    0 <= i < k ==> is_translated(
                        #[trigger] wrapped[i],
                        self.objects[i],
                        offset,
                        shift,
                    ),
            decreases self.objects.len() - k,
        {
            let obj = share(&self.objects[k]);
            wrapped.push(Hittables::translate(obj, offset, shift));
            k += 1;
        }
        let bbox = shift(self.bbox, offset);
        self.objects = wrapped;
        self.bbox = bbox;
    }

    /// Puts each object of the list in a wrapper that turns it about the y
    /// axis, and turns the box of the list with them; see
    /// `RotateY::turned_box`.
    pub fn rotate_y<F: Fn(AABB, bool, bool, bool) -> Point3>(
        &mut self,
        sin_theta: Scalar,
        cos_theta: Scalar,
        corner: &F,
    )
        requires
            forall|b: AABB, x: bool, y: bool, z: bool| call_requires(*corner, (b, x, y, z)),
        ensures
            final(self).objects.len() == old(self).objects.len(),
            forall|i: int|
                0 <= i < old(self).objects.len() ==> is_rotated(
                    #[trigger] final(self).objects[i],
                    old(self).objects[i],
                    sin_theta,
                    cos_theta,
                    corner,
                ),
            turned_box_is(old(self).bbox, corner, final(self).bbox),
    {
        let mut wrapped: Vec<Arc<Hittables>> = Vec::new();
        let mut k: usize = 0;
        while k < self.objects.len()
            invariant
                k <= self.objects.len(),
                wrapped.len() == k,
                *self == *old(self),
                forall|b: AABB, x: bool, y: bool, z: bool| call_requires(*corner, (b, x, y, z)),
                forall|i: int|
                    0 <= i < k ==> is_rotated(
                        #[trigger] wrapped[i],
                        self.objects[i],
                        sin_theta,
                        cos_theta,
                        corner,
                    ),
            decreases self.objects.len() - k,
        {
            let obj = share(&self.objects[k]);
            wrapped.push(Hittables::rotate_y(obj, sin_theta, cos_theta, corner));
            k += 1;
        }
        let bbox = RotateY::turned_box(self.bbox, corner);
        self.objects = wrapped;
        self.bbox = bbox;
    }

    /// Adds a sphere at rest; see `Sphere::new_static`.
    pub fn add_sphere(
        &mut self,
        center: Point3,
        radius: Scalar,
        mat: Arc<Materials>,
        low: Point3,
        high: Point3,
    )
        ensures
            final(self).objects.len() == old(self).objects.len() + 1,
            final(self).objects@.drop_last() == old(self).objects@,
            *final(self).objects@.last() matches Hittables::Sphere(s) && s.is_static(
                center,
                radius,
                mat,
                low,
                high,
            ),
            final(self).bbox == AABB::from_boxes(&old(self).bbox, &AABB::from_points(low, high)),
    {
        self.add(Hittables::new_static_sphere(center, radius, mat, low, high));
        assert(self.objects@.drop_last() =~= old(self).objects@);
    }

    /// Adds a moving sphere; see `Sphere::new_moving`.
    pub fn add_moving_sphere(
        &mut self,
        start: Point3,
        travel: Vec3,
        radius: Scalar,
        mat: Arc<Materials>,
        low_start: Point3,
        high_start: Point3,
        low_end: Point3,
        high_end: Point3,
    )
        ensures
            final(self).objects.len() == old(self).objects.len() + 1,
            final(self).objects@.drop_last() == old(self).objects@,
            *final(self).objects@.last() matches Hittables::Sphere(s) && s.is_moving(
                start,
                travel,
                radius,
                mat,
                low_start,
                high_start,
                low_end,
                high_end,
            ),
            final(self).bbox == AABB::from_boxes(
                &old(self).bbox,
                &AABB::from_boxes(
                    &AABB::from_points(low_start, high_start),
                    &AABB::from_points(low_end, high_end),
                ),
            ),
    {
        self.add(
            Hittables::new_moving_sphere(
                start,
                travel,
                radius,
                mat,
                low_start,
                high_start,
                low_end,
                high_end,
            ),
        );
        assert(self.objects@.drop_last() =~= old(self).objects@);
    }

    /// Adds a quad; see `Quad::new`.
    pub fn add_quad<F: Fn(Interval) -> Scalar, G: Fn(Interval, Scalar) -> Interval>(
        &mut self,
        q: Point3,
        u: Vec3,
        v: Vec3,
        mat: Arc<Materials>,
        frame: &Frame,
        size: &F,
        widen: &G,
    )
        requires
            forall|i: Interval| call_requires(*size, (i,)),
            forall|i: Interval, d: Scalar| call_requires(*widen, (i, d)),
        ensures
            final(self).objects.len() == old(self).objects.len() + 1,
            final(self).objects@.drop_last() == old(self).objects@,
            *final(self).objects@.last() matches Hittables::Quad(quad) && quad.is_made_from(
                q,
                u,
                v,
                mat,
                *frame,
                size,
                widen,
            ) && final(self).bbox == AABB::from_boxes(&old(self).bbox, &quad.bbox),
    {
        self.add(Hittables::new_quad(q, u, v, mat, frame, size, widen));
        assert(self.objects@.drop_last() =~= old(self).objects@);
    }

    /// Adds a medium of one colour inside `boundary`; see `Medium::solid`.
    pub fn add_solid_medium(&mut self, boundary: Arc<Hittables>, neg_inv_density: Scalar, albedo: Color3)
        ensures
            final(self).objects.len() == old(self).objects.len() + 1,
            final(self).objects@.drop_last() == old(self).objects@,
            *final(self).objects@.last() matches Hittables::Medium(m) && m.is_solid_in(
                boundary,
                neg_inv_density,
                albedo,
            ),
            final(self).bbox == AABB::from_boxes(&old(self).bbox, &boundary.spec_bounding_box()),
    {
        self.add(Hittables::new_solid_medium(boundary, neg_inv_density, albedo));
        assert(self.objects@.drop_last() =~= old(self).objects@);
    }

    /// The closed box with the opposite corners `a` and `b`; see
    /// `Quad::create_box`.
    pub fn create_box<
        D: Fn(Scalar, Scalar) -> Scalar,
        N: Fn(Vec3) -> Vec3,
        R: Fn(Point3, Vec3, Vec3) -> Frame,
        F: Fn(Interval) -> Scalar,
        G: Fn(Interval, Scalar) -> Interval,
    >(
        a: Point3,
        b: Point3,
        mat: Arc<Materials>,
        extent: &D,
        flip: &N,
        frame: &R,
        size: &F,
        widen: &G,
    ) -> (sides: HittableList)
        requires
            forall|hi: Scalar, lo: Scalar| call_requires(*extent, (hi, lo)),
            forall|v: Vec3| call_requires(*flip, (v,)),
            forall|q: Point3, u: Vec3, v: Vec3| call_requires(*frame, (q, u, v)),
            forall|i: Interval| call_requires(*size, (i,)),
            forall|i: Interval, d: Scalar| call_requires(*widen, (i, d)),
        ensures
            crate::quad::box_is(a, b, mat, extent, flip, frame, size, widen, sides),
    {
        Quad::create_box(a, b, mat, extent, flip, frame, size, widen)
    }

    /// Builds the hierarchy over the objects of the list, which it puts in
    /// the order of the tree's leaves; see `BVHNode::new`.
    pub fn create_bvh<F: Fn(Interval) -> Scalar>(&mut self, size: &F) -> (h: Hittables)
        requires
            old(self).objects.len() > 0,
            forall|i: Interval| call_requires(*size, (i,)),
        ensures
            h matches Hittables::BVH(node) && node.is_built_from(old(self).objects@, size)
                && final(self).objects@ == node.leaves(),
            final(self).bbox == old(self).bbox,
    {
        Hittables::BVH(Box::new(BVHNode::from_list(self, size)))
    }

    /// The list as one object that shares the list's objects.
    pub fn into_hittable(&self) -> (h: Arc<Hittables>)
        ensures
            *h matches Hittables::List(l) && l.objects@ == self.objects@ && l.bbox == self.bbox,
    {
        let mut objects: Vec<Arc<Hittables>> = Vec::new();
        let mut k: usize = 0;
        while k < self.objects.len()
            invariant
                k <= self.objects.len(),
                objects@ == self.objects@.subrange(0, k as int),
            decreases self.objects.len() - k,
        {
            objects.push(share(&self.objects[k]));
            assert(objects@ =~= self.objects@.subrange(0, k + 1));
            k += 1;
        }
        assert(objects@ =~= self.objects@);
        Arc::new(Hittables::List(Box::new(HittableList { objects, bbox: self.bbox })))
    }

    /// The box of the list.
    pub fn bounding_box(&self) -> (b: &AABB)
        ensures
            *b == self.bbox,
    {
        &self.bbox
    }

    /// The nearest hit of a ray among the objects, within `interval`.
    ///
    /// The objects are asked in order through `prim`, each over the interval
    /// with its upper end drawn in to the last hit found, so that a later hit
    /// is never farther than an earlier one and replaces it.
    pub fn hit<H: Fn(&Hittables, &Ray, Interval) -> Option<HitRecord>>(
        &self,
        ray: &Ray,
        interval: Interval,
        prim: &H,
    ) -> (result: Option<HitRecord>)
        requires
            forall|o: &Hittables, r: &Ray, i: Interval| call_requires(*prim, (o, r, i)),
        ensures
            scan_is(self.objects@, *ray, interval, prim, result),
    {
        let mut final_hit_record: Option<HitRecord> = None;
        let mut closest_so_far = interval.max;
        let mut k: usize = 0;
        while k < self.objects.len()
            invariant
                k <= self.objects.len(),
                forall|o: &Hittables, r: &Ray, i: Interval| call_requires(*prim, (o, r, i)),
                scan_is(self.objects@.subrange(0, k as int), *ray, interval, prim, final_hit_record),
                closest_so_far == narrowed(interval, final_hit_record).max,
            decreases self.objects.len() - k,
        {
            let ghost before = final_hit_record;
            let here = prim(&*self.objects[k], ray, Interval::new(interval.min, closest_so_far));
            let ghost seen = here;
            match here {
                Some(hr) => {
                    closest_so_far = hr.t;
                    final_hit_record = Some(hr);
                },
                None => (),
            }
            proof {
                let upto = self.objects@.subrange(0, k + 1);
                assert(upto.drop_last() =~= self.objects@.subrange(0, k as int));
                assert(upto.last() == self.objects@[k as int]);
                assert(scan_is(upto.drop_last(), *ray, interval, prim, before));
                assert(call_ensures(*prim, (&*upto.last(), &*ray, narrowed(interval, before)), seen));
                assert(final_hit_record == later(before, seen));
            }
            k += 1;
        }
        assert(self.objects@.subrange(0, k as int) =~= self.objects@);
        final_hit_record
    }
}

} // verus!
