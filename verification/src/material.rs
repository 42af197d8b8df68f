//! The material that takes in all light.

use vstd::prelude::*;
use crate::hit_record::HitRecord;
use crate::ray::Ray;
use crate::vec3::Color3;

verus! {

/// A perfectly absorbing surface.
#[derive(Clone, Copy, Debug)]
pub struct Matte {
    x: i32,
}

impl Matte {
    /// The one state a matte surface has.
    pub closed spec fn state(self) -> int {
        self.x as int
    }

    /// A matte surface.
    pub fn new() -> (m: Matte)
        ensures
            m.state() == 0,
    {
        Matte { x: 0 }
    }

    /// What becomes of a ray that meets the surface: it is absorbed.
    pub fn scatter(&self, ray: &Ray, hit_record: &HitRecord) -> (s: Option<(Color3, Ray)>)
        ensures
            s.is_none(),
    {
        None
    }
}

} // verus!
