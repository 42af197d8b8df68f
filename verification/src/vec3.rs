//! Triples of scalars: points, directions and colours.

use vstd::prelude::*;
use crate::interval::Interval;
use crate::scalar::{Scalar, ONE_BITS};

verus! {

/// A vector of three scalars. It serves as a point, a direction and an RGB
/// colour alike.
#[derive(Clone, Copy, Debug, PartialEq, Eq, Structural)]
pub struct Vec3 {
    pub x: Scalar,
    pub y: Scalar,
    pub z: Scalar,
}

/// A position in space.
pub type Point3 = Vec3;

/// A colour, by its red, green and blue parts.
pub type Color3 = Vec3;

/// The pattern of `1e-8`: a component of lesser absolute value counts as
/// vanished.
pub const NEAR_ZERO_BITS: u64 = 0x3e45_798e_e230_8c3a;

/// The pattern of `1e-60`: a drawn vector whose squared length is not above
/// it is too short to be normalized.
pub const SHORTEST_BITS: u64 = 0x3379_b604_aaac_a626;

/// The pattern of `0.999`, the greatest intensity of a colour channel.
pub const BRIGHTEST_BITS: u64 = 0x3fef_f7ce_d916_872b;

/// Whether a vector drawn from the cube, of squared length `norm`, is kept as
/// a direction: it lies in the unit ball and is not too short.
pub open spec fn spec_unit_candidate(norm: Scalar) -> bool {
    (Scalar { bits: SHORTEST_BITS }).lt(norm) && norm.le(Scalar { bits: ONE_BITS })
}

/// Whether a vector drawn from the square, of squared length `norm`, is kept
/// as a point of the unit disk.
pub open spec fn spec_disk_candidate(norm: Scalar) -> bool {
    norm.lt(Scalar { bits: ONE_BITS })
}

/// The gamma-2 encoding of a linear colour component, `root` being its square
/// root: the root for a component above zero, zero for every other.
pub open spec fn spec_linear_to_gamma(linear_component: Scalar, root: Scalar) -> Scalar {
    if linear_component.gt(Scalar { bits: 0 }) {
        root
    } else {
        Scalar { bits: 0 }
    }
}

/// The intensity that is written for a gamma-encoded colour component: the
/// component held to `[0, 0.999]`.
pub open spec fn spec_intensity(gamma_component: Scalar) -> Scalar {
    (Interval { min: Scalar { bits: 0 }, max: Scalar { bits: BRIGHTEST_BITS } }).clamp(
        gamma_component,
    )
}

impl Vec3 {
    /// The component on axis 0 (x), 1 (y) or 2 (z).
    pub open spec fn axis(self, n: int) -> Scalar
        recommends
            0 <= n < 3,
    {
        if n == 0 {
            self.x
        } else if n == 1 {
            self.y
        } else {
            self.z
        }
    }

    /// Whether each component lies under `1e-8` in absolute value.
    pub open spec fn spec_near_zero(&self) -> bool {
        let s = Scalar { bits: NEAR_ZERO_BITS };
        self.x.abs().lt(s) && self.y.abs().lt(s) && self.z.abs().lt(s)
    }

    /// The vector with the given components.
    pub fn new(x: Scalar, y: Scalar, z: Scalar) -> (v: Vec3)
        ensures
            v == (Vec3 { x, y, z }),
    {
        Vec3 { x, y, z }
    }

    /// The vector whose components are all `0.0`.
    pub fn zero() -> (v: Vec3)
        ensures
            v == (Vec3 { x: Scalar::zero(), y: Scalar::zero(), z: Scalar::zero() }),
    {
        Vec3 { x: Scalar::zero(), y: Scalar::zero(), z: Scalar::zero() }
    }

    /// The component on axis `n`.
    pub fn index(&self, n: usize) -> (c: Scalar)
        requires
            n < 3,
        ensures
            c == self.axis(n as int),
    {
        if n == 0 {
            self.x
        } else if n == 1 {
            self.y
        } else {
            self.z
        }
    }

    /// Whether a vector drawn from the cube `[-1, 1)^3`, of squared length
    /// `norm`, is kept as a random direction: `1e-60 < norm <= 1`.
    pub fn unit_candidate(norm: Scalar) -> (keep: bool)
        ensures
            keep == spec_unit_candidate(norm),
    {
        Scalar::from_bits(SHORTEST_BITS).lt(norm) && norm.le(Scalar::one())
    }

    /// Whether a vector drawn from the square `[-1, 1)^2`, of squared length
    /// `norm`, is kept as a random point of the unit disk: `norm < 1`.
    pub fn disk_candidate(norm: Scalar) -> (keep: bool)
        ensures
            keep == spec_disk_candidate(norm),
    {
        norm.lt(Scalar::one())
    }

    /// A random direction on the side of a surface: `on_sphere`, a random unit
    /// vector, where its dot product with the normal (`facing`) is above zero,
    /// else `reversed`, which is `on_sphere` negated.
    pub fn random_hemisphere(on_sphere: Vec3, facing: Scalar, reversed: Vec3) -> (v: Vec3)
        ensures
            v == (if facing.gt(Scalar::zero()) { on_sphere } else { reversed }),
    {
        if facing.gt(Scalar::zero()) {
            on_sphere
        } else {
            reversed
        }
    }

    /// The gamma-2 encoding of a linear colour component, `root` being its
    /// square root.
    pub fn linear_to_gamma(linear_component: Scalar, root: Scalar) -> (g: Scalar)
        ensures
            g == spec_linear_to_gamma(linear_component, root),
    {
        if linear_component.gt(Scalar::zero()) {
            root
        } else {
            Scalar::zero()
        }
    }

    /// The intensity that is written for a gamma-encoded colour component:
    /// the component held to `[0, 0.999]`. Times 256 and cut to an integer it
    /// is the channel's level, from 0 to 255.
    pub fn intensity(gamma_component: Scalar) -> (level: Scalar)
        ensures
            level == spec_intensity(gamma_component),
    {
        let range = Interval::new(Scalar::zero(), Scalar::from_bits(BRIGHTEST_BITS));
        range.clamp(gamma_component)
    }

    /// Whether the vector has all but vanished: each component is under `1e-8`
    /// in absolute value.
    #[verifier::when_used_as_spec(spec_near_zero)]
    pub fn near_zero(&self) -> (r: bool)
        ensures
            r == self.spec_near_zero(),
    {
        let s = Scalar::from_bits(NEAR_ZERO_BITS);
        self.x.abs().lt(s) && self.y.abs().lt(s) && self.z.abs().lt(s)
    }
}

/// The intensity of a colour component that is a number lies between 0 and
/// 0.999.
pub proof fn lemma_intensity_in_range(gamma_component: Scalar)
    requires
        !gamma_component.nan(),
    ensures
        (Scalar { bits: 0 }).le(spec_intensity(gamma_component)),
        spec_intensity(gamma_component).le(Scalar { bits: BRIGHTEST_BITS }),
{
}

} // verus!
