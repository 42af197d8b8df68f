//! Spheres, at rest or moving in a straight line.

use vstd::prelude::*;
use std::sync::Arc;
use crate::aabb::AABB;
use crate::hit_record::{HitRecord, Surface};
use crate::interval::Interval;
use crate::materials::Materials;
use crate::ray::Ray;
use crate::scalar::Scalar;
use crate::vec3::{Point3, Vec3};

verus! {

/// A sphere whose centre moves along the ray `center` as time goes from 0 to
/// 1. A sphere at rest has a centre with direction zero.
#[derive(Debug)]
pub struct Sphere {
    pub center: Ray,
    pub radius: Scalar,
    pub mat: Arc<Materials>,
    pub bbox: AABB,
}

/// The ray parameter at which a sphere is hit, from the two roots of its
/// quadratic: none when the discriminant is below zero; else the near root if
/// `interval` surrounds it, else the far root if `interval` surrounds that.
pub open spec fn root_in(interval: Interval, discriminant: Scalar, near: Scalar, far: Scalar)
    -> Option<Scalar> {
    if discriminant.lt(Scalar::zero()) {
        None
    } else if interval.surrounds(near) {
        Some(near)
    } else if interval.surrounds(far) {
        Some(far)
    } else {
        None
    }
}

impl Sphere {
    /// Whether the sphere is the one at rest at `center`, with the box of the
    /// corners `low` and `high`.
    pub open spec fn is_static(
        &self,
        center: Point3,
        radius: Scalar,
        mat: Arc<Materials>,
        low: Point3,
        high: Point3,
    ) -> bool {
        &&& self.center == (Ray {
            origin: center,
            direction: (Vec3 { x: Scalar::zero(), y: Scalar::zero(), z: Scalar::zero() }),
            time: Scalar::zero(),
        })
        &&& self.radius == radius
        &&& self.mat == mat
        &&& self.bbox == AABB::from_points(low, high)
    }

    /// Whether the sphere is the one that moves from `center_start` by
    /// `travel`, with the box that spans its boxes at both ends.
    pub open spec fn is_moving(
        &self,
        center_start: Point3,
        travel: Vec3,
        radius: Scalar,
        mat: Arc<Materials>,
        low_start: Point3,
        high_start: Point3,
        low_end: Point3,
        high_end: Point3,
    ) -> bool {
        &&& self.center == (Ray { origin: center_start, direction: travel, time: Scalar::zero() })
        &&& self.radius == radius
        &&& self.mat == mat
        &&& self.bbox == AABB::from_boxes(
            &AABB::from_points(low_start, high_start),
            &AABB::from_points(low_end, high_end),
        )
    }

    /// Whether `result` is what `hit` may answer, given what `surface` finds
    /// at a ray parameter.
    pub open spec fn hit_is<F: Fn(Scalar) -> Surface>(
        &self,
        interval: Interval,
        discriminant: Scalar,
        near: Scalar,
        far: Scalar,
        surface: &F,
        result: Option<HitRecord>,
    ) -> bool {
        match root_in(interval, discriminant, near, far) {
            None => result.is_none(),
            Some(t) => exists|s: Surface| #[trigger]
                call_ensures(*surface, (t,), s) && result == Some(HitRecord::spec_on(t, s, self.mat)),
        }
    }

    /// A sphere at rest. `low` and `high` are the centre less and plus the
    /// radius on every axis; the bounding box is the box of these two.
    pub fn new_static(center: Point3, radius: Scalar, mat: Arc<Materials>, low: Point3, high: Point3)
        -> (s: Sphere)
        ensures
            s.is_static(center, radius, mat, low, high),
    {
        Sphere {
            center: Ray::new(center, Vec3::zero()),
            radius,
            mat,
            bbox: AABB::from_points(low, high),
        }
    }

    /// A sphere that moves from `center_start` by `travel` while time goes
    /// from 0 to 1. `low_start` and `high_start` are the centre at time 0 less
    /// and plus the radius on every axis, `low_end` and `high_end` the same at
    /// time 1; the bounding box spans the boxes of both times.
    pub fn new_moving(
        center_start: Point3,
        travel: Vec3,
        radius: Scalar,
        mat: Arc<Materials>,
        low_start: Point3,
        high_start: Point3,
        low_end: Point3,
        high_end: Point3,
    ) -> (s: Sphere)
        ensures
            s.is_moving(
                center_start,
                travel,
                radius,
                mat,
                low_start,
                high_start,
                low_end,
                high_end,
            ),
    {
        let box1 = AABB::from_points(low_start, high_start);
        let box2 = AABB::from_points(low_end, high_end);
        Sphere {
            center: Ray::new(center_start, travel),
            radius,
            mat,
            bbox: AABB::from_boxes(&box1, &box2),
        }
    }

    /// The box that holds the sphere at every time.
    pub fn bounding_box(&self) -> (b: &AABB)
        ensures
            *b == self.bbox,
    {
        &self.bbox
    }

    /// Where a ray hits the sphere within `interval`.
    ///
    /// `discriminant`, `near` and `far` come from the quadratic in the ray
    /// parameter: its discriminant and its lesser and greater root. A
    /// discriminant below zero is a miss. Otherwise the hit is at the near
    /// root if the interval surrounds it, else at the far root if the interval
    /// surrounds that, else there is none. `surface` gives the geometry at the
    /// chosen root; the record carries the sphere's material and the normal
    /// turned against the ray.
    pub fn hit<F: Fn(Scalar) -> Surface>(
        &self,
        interval: Interval,
        discriminant: Scalar,
        near: Scalar,
        far: Scalar,
        surface: &F,
    ) -> (result: Option<HitRecord>)
        requires
            forall|t: Scalar| call_requires(*surface, (t,)),
        ensures
            self.hit_is(interval, discriminant, near, far, surface, result),
            result matches Some(h) ==> interval.surrounds(h.t) && (h.t == near || h.t == far),
    {
        if discriminant.lt(Scalar::zero()) {
            return None;
        }
        let mut root = near;
        if !interval.surrounds(root) {
            root = far;
            if !interval.surrounds(root) {
                return None;
            }
        }
        let s = surface(root);
        Some(HitRecord::on(root, &s, crate::shared::share(&self.mat)))
    }
}

/// The hit of a sphere does not depend on where the interval ends, but for
/// being cut off there: with the roots in order, the hit within an interval
/// is the hit within the interval without upper end if that lies below the
/// upper end, and else there is none.
pub proof fn lemma_sphere_hit_is_steady(
    lo: Scalar,
    hi: Scalar,
    discriminant: Scalar,
    near: Scalar,
    far: Scalar,
)
    requires
        near.le(far) || near.nan(),
    ensures
        root_in(Interval { min: lo, max: hi }, discriminant, near, far) == (match root_in(
            Interval { min: lo, max: Scalar::infinity() },
            discriminant,
            near,
            far,
        ) {
            Some(t) => if t.lt(hi) {
                Some(t)
            } else {
                None
            },
            None => None,
        }),
{
}

} // verus!
