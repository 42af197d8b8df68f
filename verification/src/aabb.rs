//! Axis-aligned bounding boxes and the slab test.

use vstd::prelude::*;
use crate::interval::Interval;
use crate::ray::Ray;
use crate::scalar::Scalar;
use crate::vec3::Point3;

verus! {

/// The pattern of `1e-4`, the least thickness of a padded box.
pub const MIN_THICKNESS_BITS: u64 = 0x3f1a_36e2_eb1c_432d;

/// A box with faces parallel to the coordinate planes: one range per axis.
#[derive(Clone, Copy, Debug, PartialEq, Eq, Structural)]
pub struct AABB {
    pub x: Interval,
    pub y: Interval,
    pub z: Interval,
}

/// The ordered pair of two numbers: the lesser first when `t0 < t1`, else
/// `t1` first.
pub open spec fn ordered(t0: Scalar, t1: Scalar) -> Interval {
    if t0.lt(t1) {
        Interval { min: t0, max: t1 }
    } else {
        Interval { min: t1, max: t0 }
    }
}

/// One step of the slab test: the running range cut down to the part between
/// two crossings, or `None` once nothing with positive length is left.
pub open spec fn spec_clip(running: Interval, t0: Scalar, t1: Scalar) -> Option<Interval> {
    let slab = ordered(t0, t1);
    let min = if slab.min.gt(running.min) { slab.min } else { running.min };
    let max = if slab.max.lt(running.max) { slab.max } else { running.max };
    if max.le(min) {
        None
    } else {
        Some(Interval { min, max })
    }
}

/// The index of the greatest of three extents. Ties go to the later axis: x
/// wins only when strictly greater than both others, y only when strictly
/// greater than z.
pub open spec fn axis_of_greatest(size_x: Scalar, size_y: Scalar, size_z: Scalar) -> i32 {
    if size_x.gt(size_y) {
        if size_x.gt(size_z) {
            0
        } else {
            2
        }
    } else if size_y.gt(size_z) {
        1
    } else {
        2
    }
}

impl AABB {
    /// The range on axis 0 (x), 1 (y) or 2 (z).
    pub open spec fn axis(self, n: int) -> Interval
        recommends
            0 <= n < 3,
    {
        if n == 0 {
            self.x
        } else if n == 1 {
            self.y
        } else {
            self.z
        }
    }

    /// The box that is empty on every axis.
    pub open spec fn spec_empty() -> AABB {
        AABB { x: Interval::empty(), y: Interval::empty(), z: Interval::empty() }
    }

    /// The least box that holds the two corners `a` and `b`.
    pub open spec fn spec_from_points(a: Point3, b: Point3) -> AABB {
        AABB {
            x: if a.x.le(b.x) { Interval { min: a.x, max: b.x } } else { Interval { min: b.x, max: a.x } },
            y: if a.y.le(b.y) { Interval { min: a.y, max: b.y } } else { Interval { min: b.y, max: a.y } },
            z: if a.z.le(b.z) { Interval { min: a.z, max: b.z } } else { Interval { min: b.z, max: a.z } },
        }
    }

    /// The box that spans two boxes: the combined range on each axis.
    pub open spec fn spec_from_boxes(a: &AABB, b: &AABB) -> AABB {
        AABB {
            x: Interval::combine(a.x, b.x),
            y: Interval::combine(a.y, b.y),
            z: Interval::combine(a.z, b.z),
        }
    }

    /// Whether no bound of the box is a NaN.
    pub open spec fn numeric(self) -> bool {
        self.x.numeric() && self.y.numeric() && self.z.numeric()
    }

    /// Whether `inner` lies within the box on every axis.
    pub open spec fn encloses(self, inner: AABB) -> bool {
        self.x.encloses(inner.x) && self.y.encloses(inner.y) && self.z.encloses(inner.z)
    }

    /// Whether `axis` is what `longest_axis` may answer when `size` measures
    /// the three ranges of the box.
    pub open spec fn longest_axis_is<F: Fn(Interval) -> Scalar>(self, size: &F, axis: i32) -> bool {
        exists|sx: Scalar, sy: Scalar, sz: Scalar|
            #![trigger call_ensures(*size, (self.x,), sx), call_ensures(*size, (self.y,), sy), call_ensures(*size, (self.z,), sz)]
            call_ensures(*size, (self.x,), sx) && call_ensures(*size, (self.y,), sy)
                && call_ensures(*size, (self.z,), sz) && axis == axis_of_greatest(sx, sy, sz)
    }

    /// Whether the slab test, taken up at `axis` with the range `running` left
    /// of the earlier axes, may end in `result` when `crossing` computes the
    /// ray parameter at which the ray meets a bounding plane.
    pub open spec fn slab_from<C: Fn(Scalar, Scalar, Scalar) -> Scalar>(
        self,
        ray: Ray,
        crossing: &C,
        axis: int,
        running: Interval,
        result: Option<Interval>,
    ) -> bool
        decreases 3 - axis,
    {
        if axis >= 3 || axis < 0 {
            result == Some(running)
        } else {
            exists|t0: Scalar, t1: Scalar|
                #![trigger
                    call_ensures(*crossing, (self.axis(axis).min, ray.origin.axis(axis), ray.direction.axis(axis)), t0),
                    call_ensures(*crossing, (self.axis(axis).max, ray.origin.axis(axis), ray.direction.axis(axis)), t1)]
                call_ensures(
                    *crossing,
                    (self.axis(axis).min, ray.origin.axis(axis), ray.direction.axis(axis)),
                    t0,
                ) && call_ensures(
                    *crossing,
                    (self.axis(axis).max, ray.origin.axis(axis), ray.direction.axis(axis)),
                    t1,
                ) && match spec_clip(running, t0, t1) {
                    None => result.is_none(),
                    Some(next) => self.slab_from(ray, crossing, axis + 1, next, result),
                }
        }
    }

    /// Whether `result` is what `hit` may answer for `ray`.
    pub open spec fn hit_is<C: Fn(Scalar, Scalar, Scalar) -> Scalar>(
        self,
        ray: Ray,
        crossing: &C,
        result: Option<Interval>,
    ) -> bool {
        self.slab_from(ray, crossing, 0, Interval::universe(), result)
    }

    /// Whether `padded` is what `pad_to_minimums` may leave of the range
    /// `range`: where `size` finds it thinner than `1e-4`, the range as `widen`
    /// brings it to that thickness, else the range itself.
    pub open spec fn padded_is<F: Fn(Interval) -> Scalar, G: Fn(Interval, Scalar) -> Interval>(
        range: Interval,
        size: &F,
        widen: &G,
        padded: Interval,
    ) -> bool {
        exists|s: Scalar| #[trigger]
            call_ensures(*size, (range,), s) && if s.lt(Scalar { bits: MIN_THICKNESS_BITS }) {
                call_ensures(*widen, (range, Scalar { bits: MIN_THICKNESS_BITS }), padded)
            } else {
                padded == range
            }
    }

    /// The box with the given ranges.
    pub fn new(x: Interval, y: Interval, z: Interval) -> (b: AABB)
        ensures
            b == (AABB { x, y, z }),
    {
        AABB { x, y, z }
    }

    /// The box that holds nothing: empty on every axis.
    #[verifier::when_used_as_spec(spec_empty)]
    pub fn empty() -> (b: AABB)
        ensures
            b == AABB::spec_empty(),
    {
        AABB { x: Interval::empty(), y: Interval::empty(), z: Interval::empty() }
    }

    /// The least box that holds two opposite corners, given in either order.
    #[verifier::when_used_as_spec(spec_from_points)]
    pub fn from_points(a: Point3, b: Point3) -> (r: AABB)
        ensures
            r == AABB::spec_from_points(a, b),
    {
        let x = if a.x.le(b.x) {
            Interval::new(a.x, b.x)
        } else {
            Interval::new(b.x, a.x)
        };
        let y = if a.y.le(b.y) {
            Interval::new(a.y, b.y)
        } else {
            Interval::new(b.y, a.y)
        };
        let z = if a.z.le(b.z) {
            Interval::new(a.z, b.z)
        } else {
            Interval::new(b.z, a.z)
        };
        AABB { x, y, z }
    }

    /// The box that spans both `a` and `b`.
    #[verifier::when_used_as_spec(spec_from_boxes)]
    pub fn from_boxes(a: &AABB, b: &AABB) -> (r: AABB)
        ensures
            r == AABB::spec_from_boxes(a, b),
    {
        let x = Interval::combine(a.x, b.x);
        let y = Interval::combine(a.y, b.y);
        let z = Interval::combine(a.z, b.z);
        AABB { x, y, z }
    }

    /// The index of the axis on which the box is longest, as `size` measures
    /// its three ranges. Ties go to the later axis.
    pub fn longest_axis<F: Fn(Interval) -> Scalar>(&self, size: &F) -> (axis: i32)
        requires
            call_requires(*size, (self.x,)),
            call_requires(*size, (self.y,)),
            call_requires(*size, (self.z,)),
        ensures
            0 <= axis < 3,
            self.longest_axis_is(size, axis),
    {
        let sx = size(self.x);
        let sy = size(self.y);
        let sz = size(self.z);
        if sx.gt(sy) {
            if sx.gt(sz) {
                0
            } else {
                2
            }
        } else if sy.gt(sz) {
            1
        } else {
            2
        }
    }

    /// The range on axis `n`: 0 for x, 1 for y, 2 for z.
    pub fn axis_interval(&self, n: i32) -> (i: Interval)
        requires
            0 <= n < 3,
        ensures
            i == self.axis(n as int),
    {
        if n == 0 {
            self.x
        } else if n == 1 {
            self.y
        } else {
            self.z
        }
    }

    /// One step of the slab test: `running` cut down to the part between the
    /// crossings `t0` and `t1`, given in either order.
    pub fn clip(running: Interval, t0: Scalar, t1: Scalar) -> (r: Option<Interval>)
        ensures
            r == spec_clip(running, t0, t1),
    {
        let (lo, hi) = if t0.lt(t1) {
            (t0, t1)
        } else {
            (t1, t0)
        };
        let min = if lo.gt(running.min) {
            lo
        } else {
            running.min
        };
        let max = if hi.lt(running.max) {
            hi
        } else {
            running.max
        };
        if max.le(min) {
            None
        } else {
            Some(Interval { min, max })
        }
    }

    fn hit_from<C: Fn(Scalar, Scalar, Scalar) -> Scalar>(
        &self,
        ray: &Ray,
        crossing: &C,
        axis: usize,
        running: Interval,
    ) -> (result: Option<Interval>)
        requires
            forall|bound: Scalar, origin: Scalar, direction: Scalar|
                call_requires(*crossing, (bound, origin, direction)),
        ensures
            self.slab_from(*ray, crossing, axis as int, running, result),
        decreases 3 - axis,
    {
        if axis >= 3 {
            return Some(running);
        }
        let range = self.axis_interval(axis as i32);
        let origin = ray.origin.index(axis);
        let direction = ray.direction.index(axis);
        let t0 = crossing(range.min, origin, direction);
        let t1 = crossing(range.max, origin, direction);
        match AABB::clip(running, t0, t1) {
            None => None,
            Some(next) => self.hit_from(ray, crossing, axis + 1, next),
        }
    }

    /// The slab test: the range of ray parameters at which `ray` is inside the
    /// box, or `None` if it has no positive length.
    ///
    /// `crossing(bound, origin, direction)` is the parameter at which a ray
    /// with that origin and direction component reaches the plane at `bound`.
    /// On each axis in turn the two crossings are put in order and the running
    /// range, which starts as the whole line, is cut down to them; the test
    /// ends with `None` as soon as its upper end is at most its lower end.
    pub fn hit<C: Fn(Scalar, Scalar, Scalar) -> Scalar>(&self, ray: &Ray, crossing: &C) -> (result:
        Option<Interval>)
        requires
            forall|bound: Scalar, origin: Scalar, direction: Scalar|
                call_requires(*crossing, (bound, origin, direction)),
        ensures
            self.hit_is(*ray, crossing, result),
    {
        self.hit_from(ray, crossing, 0, Interval::universe())
    }

    fn pad_range<F: Fn(Interval) -> Scalar, G: Fn(Interval, Scalar) -> Interval>(
        range: Interval,
        size: &F,
        widen: &G,
    ) -> (padded: Interval)
        requires
            call_requires(*size, (range,)),
            call_requires(*widen, (range, Scalar { bits: MIN_THICKNESS_BITS })),
        ensures
            AABB::padded_is(range, size, widen, padded),
    {
        let delta = Scalar::from_bits(MIN_THICKNESS_BITS);
        let s = size(range);
        if s.lt(delta) {
            widen(range, delta)
        } else {
            range
        }
    }

    /// Brings each range that `size` finds thinner than `1e-4` to that
    /// thickness, so that a flat box has a volume for the slab test.
    ///
    /// `widen(range, thickness)` is handed the range and the thickness to
    /// reach, `1e-4`, and gives the range widened to it; a range that is thick
    /// enough is left as it is.
    pub fn pad_to_minimums<F: Fn(Interval) -> Scalar, G: Fn(Interval, Scalar) -> Interval>(
        &mut self,
        size: &F,
        widen: &G,
    )
        requires
            forall|i: Interval| call_requires(*size, (i,)),
            forall|i: Interval, d: Scalar| call_requires(*widen, (i, d)),
        ensures
            AABB::padded_is(old(self).x, size, widen, final(self).x),
            AABB::padded_is(old(self).y, size, widen, final(self).y),
            AABB::padded_is(old(self).z, size, widen, final(self).z),
    {
        let x = AABB::pad_range(self.x, size, widen);
        let y = AABB::pad_range(self.y, size, widen);
        let z = AABB::pad_range(self.z, size, widen);
        self.x = x;
        self.y = y;
        self.z = z;
    }
}

/// Spanning a box with itself gives the box back, bit for bit.
pub proof fn lemma_from_boxes_idempotent(a: AABB)
    ensures
        AABB::from_boxes(&a, &a) == a,
{
}

/// Spanning the empty box with a box free of NaN gives that box back.
pub proof fn lemma_from_boxes_empty(a: AABB)
    requires
        a.numeric(),
    ensures
        AABB::from_boxes(&AABB::empty(), &a) == a,
{
}

/// Among boxes free of NaN, the span holds both arguments, whatever holds
/// both holds the span, and the span is free of NaN.
pub proof fn lemma_from_boxes_encloses(a: AABB, b: AABB, c: AABB)
    requires
        a.numeric(),
        b.numeric(),
    ensures
        AABB::from_boxes(&a, &b).numeric(),
        AABB::from_boxes(&a, &b).encloses(a),
        AABB::from_boxes(&a, &b).encloses(b),
        c.encloses(a) && c.encloses(b) ==> c.encloses(AABB::from_boxes(&a, &b)),
{
}

/// The box of two corners does not depend on their order, up to the sign of a
/// zero bound, and holds both corners on every axis.
pub proof fn lemma_from_points_symmetric(a: Point3, b: Point3)
    requires
        !a.x.nan() && !a.y.nan() && !a.z.nan(),
        !b.x.nan() && !b.y.nan() && !b.z.nan(),
    ensures
        AABB::from_points(a, b).x.same_range(AABB::from_points(b, a).x),
        AABB::from_points(a, b).y.same_range(AABB::from_points(b, a).y),
        AABB::from_points(a, b).z.same_range(AABB::from_points(b, a).z),
        AABB::from_points(a, b).x.contains(a.x) && AABB::from_points(a, b).x.contains(b.x),
        AABB::from_points(a, b).y.contains(a.y) && AABB::from_points(a, b).y.contains(b.y),
        AABB::from_points(a, b).z.contains(a.z) && AABB::from_points(a, b).z.contains(b.z),
{
}

/// What the slab test returns has positive length and lies within every
/// earlier running range: a clipped range is never wider than the one it came
/// from.
pub proof fn lemma_clip_narrows(running: Interval, t0: Scalar, t1: Scalar)
    requires
        running.numeric(),
    ensures
        spec_clip(running, t0, t1) matches Some(next) ==> next.min.lt(next.max) && running.encloses(
            next,
        ),
{
}

/// Whether `crossing`, asked where a ray with the given origin and direction
/// on one axis reaches the plane at `bound`, has the one answer `t`.
pub open spec fn crosses_at<C: Fn(Scalar, Scalar, Scalar) -> Scalar>(
    crossing: &C,
    bound: Scalar,
    origin: Scalar,
    direction: Scalar,
    t: Scalar,
) -> bool {
    forall|r: Scalar| #[trigger] call_ensures(*crossing, (bound, origin, direction), r) ==> r == t
}

/// Whether a ray runs between the two planes of the box on axis `n` and
/// along them: whether it reaches the lower plane at negative and the upper
/// one at positive infinity, as a ray without a direction on that axis does
/// that starts between them.
pub open spec fn runs_inside<C: Fn(Scalar, Scalar, Scalar) -> Scalar>(
    b: AABB,
    ray: Ray,
    crossing: &C,
    n: int,
) -> bool {
    &&& crosses_at(
        crossing,
        b.axis(n).min,
        ray.origin.axis(n),
        ray.direction.axis(n),
        Scalar::neg_infinity(),
    )
    &&& crosses_at(
        crossing,
        b.axis(n).max,
        ray.origin.axis(n),
        ray.direction.axis(n),
        Scalar::infinity(),
    )
}

/// Whether a ray runs beside the two planes of the box on axis `n` and along
/// them: whether it reaches both at the same infinity, as a ray without a
/// direction on that axis does that starts outside them.
pub open spec fn runs_beside<C: Fn(Scalar, Scalar, Scalar) -> Scalar>(
    b: AABB,
    ray: Ray,
    crossing: &C,
    n: int,
) -> bool {
    exists|side: Scalar|
        (side == Scalar::infinity() || side == Scalar::neg_infinity()) && #[trigger] crosses_at(
            crossing,
            b.axis(n).min,
            ray.origin.axis(n),
            ray.direction.axis(n),
            side,
        ) && crosses_at(
            crossing,
            b.axis(n).max,
            ray.origin.axis(n),
            ray.direction.axis(n),
            side,
        )
}

/// A ray along the x axis that starts between the planes of the box on the
/// other two axes is in the box from where it reaches the near face to where
/// it reaches the far one: with `near` before `far` the parameters at which it
/// reaches the two x planes, the slab test answers the range from `near` to
/// `far`.
pub proof fn lemma_ray_along_x_goes_through<C: Fn(Scalar, Scalar, Scalar) -> Scalar>(
    b: AABB,
    ray: Ray,
    crossing: &C,
    near: Scalar,
    far: Scalar,
    result: Option<Interval>,
)
    requires
        crosses_at(crossing, b.x.min, ray.origin.x, ray.direction.x, near),
        crosses_at(crossing, b.x.max, ray.origin.x, ray.direction.x, far),
        near.lt(far),
        runs_inside(b, ray, crossing, 1),
        runs_inside(b, ray, crossing, 2),
        b.hit_is(ray, crossing, result),
    ensures
        result == Some(Interval { min: near, max: far }),
{
    reveal_with_fuel(AABB::slab_from, 4);
}

/// A ray along the x axis that starts outside the planes of the box on one of
/// the other two axes misses the box.
pub proof fn lemma_ray_along_x_goes_beside<C: Fn(Scalar, Scalar, Scalar) -> Scalar>(
    b: AABB,
    ray: Ray,
    crossing: &C,
    near: Scalar,
    far: Scalar,
    result: Option<Interval>,
)
    requires
        crosses_at(crossing, b.x.min, ray.origin.x, ray.direction.x, near),
        crosses_at(crossing, b.x.max, ray.origin.x, ray.direction.x, far),
        near.lt(far),
        runs_beside(b, ray, crossing, 1) || (runs_inside(b, ray, crossing, 1) && runs_beside(
            b,
            ray,
            crossing,
            2,
        )),
        b.hit_is(ray, crossing, result),
    ensures
        result.is_none(),
{
    reveal_with_fuel(AABB::slab_from, 4);
}

} // verus!
