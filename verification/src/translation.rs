//! Objects moved or turned as a whole.

use vstd::prelude::*;
use std::sync::Arc;
use crate::aabb::AABB;
use crate::hit_record::HitRecord;
use crate::hittables::Hittables;
use crate::interval::Interval;
use crate::ray::Ray;
use crate::scalar::Scalar;
use crate::vec3::{Point3, Vec3};

verus! {

/// An object moved by `offset`.
pub struct Translate {
    pub object: Arc<Hittables>,
    pub offset: Vec3,
    pub bbox: AABB,
}

/// An object turned about the y axis by the angle with the given sine and
/// cosine.
pub struct RotateY {
    pub object: Arc<Hittables>,
    pub sin_theta: Scalar,
    pub cos_theta: Scalar,
    pub bbox: AABB,
}

/// `h` with its point replaced.
pub open spec fn moved(h: HitRecord, point: Point3) -> HitRecord {
    HitRecord { point, normal: h.normal, t: h.t, u: h.u, v: h.v, mat: h.mat, front_face: h.front_face }
}

/// `h` with its point and normal replaced.
pub open spec fn turned(h: HitRecord, point: Point3, normal: Vec3) -> HitRecord {
    HitRecord { point, normal, t: h.t, u: h.u, v: h.v, mat: h.mat, front_face: h.front_face }
}

/// The componentwise least and greatest of the first `n` of the eight corners
/// that `corner` gives for `bbox`, starting from `low` and `high`. The corners
/// are numbered with x slowest and z fastest, the lower bound before the upper.
pub open spec fn corners_bound<F: Fn(AABB, bool, bool, bool) -> Point3>(
    bbox: AABB,
    corner: &F,
    n: int,
    low: Point3,
    high: Point3,
) -> bool
    decreases n,
{
    if n <= 0 {
        low == (Point3 { x: Scalar::infinity(), y: Scalar::infinity(), z: Scalar::infinity() })
            && high == (Point3 {
            x: Scalar::neg_infinity(),
            y: Scalar::neg_infinity(),
            z: Scalar::neg_infinity(),
        })
    } else {
        exists|c: Point3, low0: Point3, high0: Point3|
            #![trigger lesser(low0, c), greater(high0, c)]
            corners_bound(bbox, corner, n - 1, low0, high0) && call_ensures(
                *corner,
                (bbox, upper_x(n - 1), upper_y(n - 1), upper_z(n - 1)),
                c,
            ) && low == lesser(low0, c) && high == greater(high0, c)
    }
}

/// Whether `turned` is the box of `bbox` turned about the y axis: the box of
/// the componentwise least and greatest of the eight corners that `corner`
/// gives for `bbox`.
pub open spec fn turned_box_is<F: Fn(AABB, bool, bool, bool) -> Point3>(
    bbox: AABB,
    corner: &F,
    turned: AABB,
) -> bool {
    exists|low: Point3, high: Point3| #[trigger]
        corners_bound(bbox, corner, 8, low, high) && turned == AABB::from_points(low, high)
}

/// Whether corner `n` takes the upper bound on x.
pub open spec fn upper_x(n: int) -> bool {
    n >= 4
}

/// Whether corner `n` takes the upper bound on y.
pub open spec fn upper_y(n: int) -> bool {
    n % 4 >= 2
}

/// Whether corner `n` takes the upper bound on z.
pub open spec fn upper_z(n: int) -> bool {
    n % 2 == 1
}

/// The componentwise lesser of two points.
pub open spec fn lesser(a: Point3, b: Point3) -> Point3 {
    Point3 { x: a.x.min(b.x), y: a.y.min(b.y), z: a.z.min(b.z) }
}

/// The componentwise greater of two points.
pub open spec fn greater(a: Point3, b: Point3) -> Point3 {
    Point3 { x: a.x.max(b.x), y: a.y.max(b.y), z: a.z.max(b.z) }
}

impl Translate {
    /// Whether `result` is what `hit` may answer.
    pub open spec fn hit_is<
        M: Fn(Point3, Vec3) -> Point3,
        P: Fn(Point3, Vec3) -> Point3,
        H: Fn(&Hittables, &Ray, Interval) -> Option<HitRecord>,
    >(
        &self,
        ray: Ray,
        interval: Interval,
        minus: &M,
        plus: &P,
        inner: &H,
        result: Option<HitRecord>,
    ) -> bool {
        exists|origin: Point3, found: Option<HitRecord>|
            #![trigger call_ensures(*minus, (ray.origin, self.offset), origin), call_ensures(*inner, (&*self.object, &Ray { origin, direction: ray.direction, time: ray.time }, interval), found)]
            call_ensures(*minus, (ray.origin, self.offset), origin) && call_ensures(
                *inner,
                (&*self.object, &Ray { origin, direction: ray.direction, time: ray.time }, interval),
                found,
            ) && match found {
                None => result.is_none(),
                Some(h) => exists|point: Point3| #[trigger]
                    call_ensures(*plus, (h.point, self.offset), point) && result == Some(
                        moved(h, point),
                    ),
            }
    }

    /// `object` moved by `offset`. Its box is the object's box as `shift`
    /// moves it by the offset.
    pub fn new<S: Fn(AABB, Vec3) -> AABB>(object: Arc<Hittables>, offset: Vec3, shift: &S) -> (t:
        Translate)
        requires
            forall|b: AABB| call_requires(*shift, (b, offset)),
        ensures
            t.object == object,
            t.offset == offset,
            call_ensures(*shift, (object.spec_bounding_box(), offset), t.bbox),
    {
        let bbox = shift(object.bounding_box(), offset);
        Translate { object, offset, bbox }
    }

    /// The box of the moved object.
    pub fn bounding_box(&self) -> (b: &AABB)
        ensures
            *b == self.bbox,
    {
        &self.bbox
    }

    /// Where a ray hits the moved object within `interval`.
    ///
    /// The ray is taken back by the offset (`minus` subtracts it from the
    /// origin), the object is asked through `inner` with the same interval,
    /// and the point of what it answers is brought forward again (`plus` adds
    /// the offset). Nothing else of the record changes.
    pub fn hit<
        M: Fn(Point3, Vec3) -> Point3,
        P: Fn(Point3, Vec3) -> Point3,
        H: Fn(&Hittables, &Ray, Interval) -> Option<HitRecord>,
    >(&self, ray: &Ray, interval: Interval, minus: &M, plus: &P, inner: &H) -> (result: Option<
        HitRecord,
    >)
        requires
            forall|p: Point3, o: Vec3| call_requires(*minus, (p, o)),
            forall|p: Point3, o: Vec3| call_requires(*plus, (p, o)),
            forall|o: &Hittables, r: &Ray, i: Interval| call_requires(*inner, (o, r, i)),
        ensures
            self.hit_is(*ray, interval, minus, plus, inner, result),
    {
        let origin = minus(ray.origin, self.offset);
        let offset_ray = Ray::new_time(origin, ray.direction, ray.time);
        match inner(&*self.object, &offset_ray, interval) {
            Some(mut hr) => {
                let point = plus(hr.point, self.offset);
                hr.point = point;
                Some(hr)
            },
            None => None,
        }
    }
}

impl RotateY {
    /// Whether `result` is what `hit` may answer.
    pub open spec fn hit_is<
        I: Fn(Scalar, Scalar, Vec3) -> Vec3,
        O: Fn(Scalar, Scalar, Vec3) -> Vec3,
        H: Fn(&Hittables, &Ray, Interval) -> Option<HitRecord>,
    >(
        &self,
        ray: Ray,
        interval: Interval,
        into_object: &I,
        into_world: &O,
        inner: &H,
        result: Option<HitRecord>,
    ) -> bool {
        exists|origin: Point3, direction: Vec3, found: Option<HitRecord>|
            #![trigger
                call_ensures(*into_object, (self.sin_theta, self.cos_theta, ray.origin), origin),
                call_ensures(*into_object, (self.sin_theta, self.cos_theta, ray.direction), direction),
                call_ensures(*inner, (&*self.object, &Ray { origin, direction, time: ray.time }, interval), found)]
            call_ensures(*into_object, (self.sin_theta, self.cos_theta, ray.origin), origin)
                && call_ensures(
                *into_object,
                (self.sin_theta, self.cos_theta, ray.direction),
                direction,
            ) && call_ensures(
                *inner,
                (&*self.object, &Ray { origin, direction, time: ray.time }, interval),
                found,
            ) && match found {
                None => result.is_none(),
                Some(h) => exists|point: Point3, normal: Vec3|
                    #![trigger
                        call_ensures(*into_world, (self.sin_theta, self.cos_theta, h.point), point),
                        call_ensures(*into_world, (self.sin_theta, self.cos_theta, h.normal), normal)]
                    call_ensures(*into_world, (self.sin_theta, self.cos_theta, h.point), point)
                        && call_ensures(
                        *into_world,
                        (self.sin_theta, self.cos_theta, h.normal),
                        normal,
                    ) && result == Some(turned(h, point, normal)),
            }
    }

    /// The box of `bbox` turned about the y axis.
    ///
    /// `corner(bbox, x, y, z)` is the turned corner of `bbox` that takes the
    /// upper bound on each axis whose flag is set. The turned box is the box
    /// of the componentwise least and greatest of the eight turned corners.
    pub fn turned_box<F: Fn(AABB, bool, bool, bool) -> Point3>(bbox: AABB, corner: &F) -> (turned:
        AABB)
        requires
            forall|b: AABB, x: bool, y: bool, z: bool| call_requires(*corner, (b, x, y, z)),
        ensures
            turned_box_is(bbox, corner, turned),
    {
        let mut low = Point3 { x: Scalar::infinity(), y: Scalar::infinity(), z: Scalar::infinity() };
        let mut high = Point3 {
            x: Scalar::neg_infinity(),
            y: Scalar::neg_infinity(),
            z: Scalar::neg_infinity(),
        };
        let mut n: u8 = 0;
        while n < 8
            invariant
                n <= 8,
                corners_bound(bbox, corner, n as int, low, high),
                forall|b: AABB, x: bool, y: bool, z: bool| call_requires(*corner, (b, x, y, z)),
            decreases 8 - n,
        {
            let c = corner(bbox, n >= 4, n % 4 >= 2, n % 2 == 1);
            let ghost low0 = low;
            let ghost high0 = high;
            low = Point3 { x: low.x.min(c.x), y: low.y.min(c.y), z: low.z.min(c.z) };
            high = Point3 { x: high.x.max(c.x), y: high.y.max(c.y), z: high.z.max(c.z) };
            n += 1;
            assert(corners_bound(bbox, corner, n as int, low, high)) by {
                assert(low == lesser(low0, c) && high == greater(high0, c));
            }
        }
        AABB::from_points(low, high)
    }

    /// `object` turned by the angle with the given sine and cosine. Its box is
    /// the object's box turned; see `turned_box`.
    pub fn new<F: Fn(AABB, bool, bool, bool) -> Point3>(
        object: Arc<Hittables>,
        sin_theta: Scalar,
        cos_theta: Scalar,
        corner: &F,
    ) -> (r: RotateY)
        requires
            forall|b: AABB, x: bool, y: bool, z: bool| call_requires(*corner, (b, x, y, z)),
        ensures
            r.object == object,
            r.sin_theta == sin_theta,
            r.cos_theta == cos_theta,
            turned_box_is(object.spec_bounding_box(), corner, r.bbox),
    {
        let bbox = RotateY::turned_box(object.bounding_box(), corner);
        RotateY { object, sin_theta, cos_theta, bbox }
    }

    /// The box of the turned object.
    pub fn bounding_box(&self) -> (b: &AABB)
        ensures
            *b == self.bbox,
    {
        &self.bbox
    }

    /// Where a ray hits the turned object within `interval`.
    ///
    /// The ray's origin and direction are turned into the object's frame by
    /// `into_object`, the object is asked through `inner` with the same
    /// interval, and the point and normal of what it answers are turned back
    /// by `into_world`. Nothing else of the record changes.
    pub fn hit<
        I: Fn(Scalar, Scalar, Vec3) -> Vec3,
        O: Fn(Scalar, Scalar, Vec3) -> Vec3,
        H: Fn(&Hittables, &Ray, Interval) -> Option<HitRecord>,
    >(&self, ray: &Ray, interval: Interval, into_object: &I, into_world: &O, inner: &H) -> (result:
        Option<HitRecord>)
        requires
            forall|s: Scalar, c: Scalar, v: Vec3| call_requires(*into_object, (s, c, v)),
            forall|s: Scalar, c: Scalar, v: Vec3| call_requires(*into_world, (s, c, v)),
            forall|o: &Hittables, r: &Ray, i: Interval| call_requires(*inner, (o, r, i)),
        ensures
            self.hit_is(*ray, interval, into_object, into_world, inner, result),
    {
        let origin = into_object(self.sin_theta, self.cos_theta, ray.origin);
        let direction = into_object(self.sin_theta, self.cos_theta, ray.direction);
        let new_ray = Ray::new_time(origin, direction, ray.time);
        match inner(&*self.object, &new_ray, interval) {
            Some(mut hr) => {
                let point = into_world(self.sin_theta, self.cos_theta, hr.point);
                let normal = into_world(self.sin_theta, self.cos_theta, hr.normal);
                hr.point = point;
                hr.normal = normal;
                Some(hr)
            },
            None => None,
        }
    }
}

} // verus!
