//! Rays: a half-line in space, stamped with the time at which it is cast.

use vstd::prelude::*;
use crate::scalar::Scalar;
use crate::vec3::{Point3, Vec3};

verus! {

/// A ray from `origin` along `direction`, cast at `time`. The time picks the
/// place of a moving object on its path.
#[derive(Clone, Copy, Debug, PartialEq, Eq, Structural)]
pub struct Ray {
    pub origin: Point3,
    pub direction: Vec3,
    pub time: Scalar,
}

impl Ray {
    /// The ray cast at time `0.0`.
    pub fn new(origin: Point3, direction: Vec3) -> (r: Ray)
        ensures
            r == (Ray { origin, direction, time: Scalar::zero() }),
    {
        Ray { origin, direction, time: Scalar::zero() }
    }

    /// The ray cast at `time`.
    pub fn new_time(origin: Point3, direction: Vec3, time: Scalar) -> (r: Ray)
        ensures
            r == (Ray { origin, direction, time }),
    {
        Ray { origin, direction, time }
    }
}

} // verus!
