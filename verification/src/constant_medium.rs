//! Smoke and fog: a medium of constant density inside a boundary.

use vstd::prelude::*;
use std::sync::Arc;
use crate::aabb::AABB;
use crate::hit_record::HitRecord;
use crate::hittables::Hittables;
use crate::interval::Interval;
use crate::materials::Materials;
use crate::ray::Ray;
use crate::scalar::{Scalar, ONE_BITS};
use crate::texture::is_solid;
use crate::vec3::{Color3, Point3, Vec3};

verus! {

/// A medium that fills `boundary`. `neg_inv_density` is minus one over its
/// density; `phase_function` is the material of a scattering inside it.
pub struct Medium {
    pub boundary: Arc<Hittables>,
    pub neg_inv_density: Scalar,
    pub phase_function: Arc<Materials>,
}

/// A free flight through the medium: the distance to the next scattering, as
/// drawn; the length of the ray's way inside the boundary; and the ray
/// parameter and point of the scattering.
#[derive(Clone, Copy, Debug, PartialEq, Eq, Structural)]
pub struct Flight {
    pub hit_distance: Scalar,
    pub distance_inside_boundary: Scalar,
    pub t: Scalar,
    pub point: Point3,
}

/// The part of the ray inside the boundary, from the entry at `t1` to the
/// exit at `t2`, held to `interval` and to parameters not below zero: `None`
/// unless entry lies before exit once both are held to the interval.
pub open spec fn spec_segment(interval: Interval, t1: Scalar, t2: Scalar) -> Option<(Scalar, Scalar)> {
    let entry = if t1.lt(interval.min) { interval.min } else { t1 };
    let exit = if t2.gt(interval.max) { interval.max } else { t2 };
    if entry.ge(exit) {
        None
    } else if entry.lt(Scalar::zero()) {
        Some((Scalar::zero(), exit))
    } else {
        Some((entry, exit))
    }
}

/// The record of a scattering inside a medium: an arbitrary normal, the front
/// face, the surface coordinates of entry (`u`) and exit (`v`).
pub open spec fn scattering(f: Flight, entry: HitRecord, exit: HitRecord, mat: Arc<Materials>)
    -> HitRecord {
    HitRecord {
        point: f.point,
        normal: Vec3 { x: Scalar { bits: ONE_BITS }, y: Scalar { bits: 0 }, z: Scalar { bits: 0 } },
        t: f.t,
        u: entry.u,
        v: exit.v,
        mat,
        front_face: true,
    }
}

impl Medium {
    /// Whether the medium is the one of colour `color` inside `boundary`.
    pub open spec fn is_solid_in(
        &self,
        boundary: Arc<Hittables>,
        neg_inv_density: Scalar,
        color: Color3,
    ) -> bool {
        &&& self.boundary == boundary
        &&& self.neg_inv_density == neg_inv_density
        &&& *self.phase_function matches Materials::Isotropic(i) && is_solid(i.tex, color)
    }

    /// Whether `result` is what `hit` may answer.
    pub open spec fn hit_is<
        H: Fn(&Hittables, &Ray, Interval) -> Option<HitRecord>,
        P: Fn(Scalar) -> Scalar,
        F: Fn(&Ray, Scalar, Scalar) -> Flight,
    >(
        &self,
        ray: Ray,
        interval: Interval,
        inner: &H,
        past: &P,
        flight: &F,
        result: Option<HitRecord>,
    ) -> bool {
        exists|first: Option<HitRecord>| #[trigger]
            call_ensures(*inner, (&*self.boundary, &ray, Interval::universe()), first)
                && match first {
                None => result.is_none(),
                Some(hr1) => exists|start: Scalar, second: Option<HitRecord>|
                    #![trigger
                        call_ensures(*past, (hr1.t,), start),
                        call_ensures(*inner, (&*self.boundary, &ray, Interval { min: start, max: Scalar::infinity() }), second)]
                    call_ensures(*past, (hr1.t,), start) && call_ensures(
                        *inner,
                        (&*self.boundary, &ray, Interval { min: start, max: Scalar::infinity() }),
                        second,
                    ) && match second {
                        None => result.is_none(),
                        Some(hr2) => match spec_segment(interval, hr1.t, hr2.t) {
                            None => result.is_none(),
                            Some((t1, t2)) => exists|f: Flight| #[trigger]
                                call_ensures(*flight, (&ray, t1, t2), f) && result == if f.hit_distance.gt(
                                    f.distance_inside_boundary,
                                ) {
                                    None
                                } else {
                                    Some(scattering(f, hr1, hr2, self.phase_function))
                                },
                        },
                    },
            }
    }

    /// A medium of one colour inside `boundary`, `neg_inv_density` being minus
    /// one over its density.
    pub fn solid(boundary: Arc<Hittables>, neg_inv_density: Scalar, color: Color3) -> (m: Medium)
        ensures
            m.is_solid_in(boundary, neg_inv_density, color),
    {
        Medium { boundary, neg_inv_density, phase_function: Materials::isotropic_solid(color) }
    }

    /// The box of the medium: the box of its boundary.
    pub fn bounding_box(&self) -> (b: AABB)
        ensures
            b == self.boundary.spec_bounding_box(),
    {
        self.boundary.bounding_box()
    }

    /// The part of the ray inside the boundary, held to `interval`.
    pub fn segment(interval: Interval, t1: Scalar, t2: Scalar) -> (s: Option<(Scalar, Scalar)>)
        ensures
            s == spec_segment(interval, t1, t2),
    {
        let mut entry = t1;
        let mut exit = t2;
        if entry.lt(interval.min) {
            entry = interval.min;
        }
        if exit.gt(interval.max) {
            exit = interval.max;
        }
        if entry.ge(exit) {
            None
        } else {
            if entry.lt(Scalar::zero()) {
                entry = Scalar::zero();
            }
            Some((entry, exit))
        }
    }

    /// Where a ray is scattered inside the medium, within `interval`.
    ///
    /// The boundary is asked through `inner` where the line of the ray enters
    /// it, anywhere on the line, behind the ray's origin too; and then where
    /// it leaves, from just past the entry (`past` of the entry's parameter)
    /// without upper limit. Without entry or exit there is no hit. The
    /// stretch between them is held to the interval and to parameters not
    /// below zero, so that a ray that starts inside the boundary has the
    /// stretch from where the interval begins; if nothing is left of it,
    /// there is no hit. Then `flight` draws a free flight over that stretch:
    /// if its distance exceeds the way inside the boundary the ray passes
    /// through, and otherwise it is scattered at the flight's parameter and
    /// point, by the phase function.
    pub fn hit<
        H: Fn(&Hittables, &Ray, Interval) -> Option<HitRecord>,
        P: Fn(Scalar) -> Scalar,
        F: Fn(&Ray, Scalar, Scalar) -> Flight,
    >(&self, ray: &Ray, interval: Interval, inner: &H, past: &P, flight: &F) -> (result: Option<
        HitRecord,
    >)
        requires
            forall|o: &Hittables, r: &Ray, i: Interval| call_requires(*inner, (o, r, i)),
            forall|t: Scalar| call_requires(*past, (t,)),
            forall|r: &Ray, a: Scalar, b: Scalar| call_requires(*flight, (r, a, b)),
        ensures
            self.hit_is(*ray, interval, inner, past, flight, result),
    {
        let first = inner(&*self.boundary, ray, Interval::universe());
        match first {
            None => None,
            Some(hr1) => {
                let start = past(hr1.t);
                let second = inner(&*self.boundary, ray, Interval::new(start, Scalar::infinity()));
                match second {
                    None => None,
                    Some(hr2) => {
                        match Medium::segment(interval, hr1.t, hr2.t) {
                            None => None,
                            Some((t1, t2)) => {
                                let f = flight(ray, t1, t2);
                                if f.hit_distance.gt(f.distance_inside_boundary) {
                                    None
                                } else {
                                    Some(
                                        HitRecord {
                                            point: f.point,
                                            normal: Vec3 {
                                                x: Scalar::one(),
                                                y: Scalar::zero(),
                                                z: Scalar::zero(),
                                            },
                                            t: f.t,
                                            u: hr1.u,
                                            v: hr2.v,
                                            mat: crate::shared::share(&self.phase_function),
                                            front_face: true,
                                        },
                                    )
                                }
                            },
                        }
                    },
                }
            },
        }
    }
}

} // verus!
