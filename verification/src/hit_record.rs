//! What is known of the place where a ray meets a surface.

use vstd::prelude::*;
use std::sync::Arc;
use crate::materials::Materials;
use crate::scalar::Scalar;
use crate::vec3::{Point3, Vec3};

verus! {

/// An intersection: where along the ray (`t`) and in space (`point`) it lies,
/// the surface normal turned against the ray, the surface coordinates, the
/// material, and whether the ray came from outside.
#[derive(Debug)]
pub struct HitRecord {
    pub point: Point3,
    pub normal: Vec3,
    pub t: Scalar,
    pub u: Scalar,
    pub v: Scalar,
    pub mat: Arc<Materials>,
    pub front_face: bool,
}

/// The geometry of a surface at one point of a ray: the point, the outward
/// normal and its negation, the dot product of the ray's direction with the
/// outward normal (`facing`), and the surface coordinates.
#[derive(Clone, Copy, Debug, PartialEq, Eq, Structural)]
pub struct Surface {
    pub point: Point3,
    pub outward_normal: Vec3,
    pub reversed_normal: Vec3,
    pub facing: Scalar,
    pub u: Scalar,
    pub v: Scalar,
}

impl HitRecord {
    /// The record of a hit at ray parameter `t` on a surface of material
    /// `mat`: the surface's point and coordinates, and its normal turned
    /// against the ray.
    pub open spec fn spec_on(t: Scalar, surface: Surface, mat: Arc<Materials>) -> HitRecord {
        HitRecord {
            point: surface.point,
            normal: if surface.facing.lt(Scalar::zero()) {
                surface.outward_normal
            } else {
                surface.reversed_normal
            },
            t,
            u: surface.u,
            v: surface.v,
            mat,
            front_face: surface.facing.lt(Scalar::zero()),
        }
    }

    /// The record of a hit at ray parameter `t` on `surface`.
    pub fn on(t: Scalar, surface: &Surface, mat: Arc<Materials>) -> (h: HitRecord)
        ensures
            h == HitRecord::spec_on(t, *surface, mat),
    {
        let mut h = HitRecord {
            point: surface.point,
            normal: surface.outward_normal,
            t,
            u: surface.u,
            v: surface.v,
            mat,
            front_face: false,
        };
        h.set_face_normal(surface.facing, &surface.outward_normal, &surface.reversed_normal);
        h
    }

    /// Turns the normal against the ray.
    ///
    /// `facing` is the dot product of the ray's direction with
    /// `outward_normal`, and `reversed` is `outward_normal` negated. The ray
    /// meets the front face when `facing` is below zero; the normal is then
    /// the outward one, and otherwise the reversed one.
    pub fn set_face_normal(&mut self, facing: Scalar, outward_normal: &Vec3, reversed: &Vec3)
        ensures
            final(self).front_face == facing.lt(Scalar::zero()),
            final(self).normal == (if facing.lt(Scalar::zero()) {
                *outward_normal
            } else {
                *reversed
            }),
            final(self).point == old(self).point,
            final(self).t == old(self).t,
            final(self).u == old(self).u,
            final(self).v == old(self).v,
            final(self).mat == old(self).mat,
    {
        self.front_face = facing.lt(Scalar::zero());
        self.normal = if self.front_face {
            *outward_normal
        } else {
            *reversed
        };
    }
}

} // verus!
