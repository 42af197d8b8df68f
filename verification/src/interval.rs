//! Closed ranges of scalars.

use vstd::prelude::*;
use crate::scalar::Scalar;

verus! {

/// The closed range from `min` to `max`. A range with `min` above `max` holds
/// nothing; `empty` is the one that accumulations start from.
#[derive(Clone, Copy, Debug, PartialEq, Eq, Structural)]
pub struct Interval {
    pub min: Scalar,
    pub max: Scalar,
}

impl Interval {
    /// The range that two ranges span together: `a`'s `min` where it is at most
    /// `b`'s, else `b`'s; `a`'s `max` where it is at least `b`'s, else `b`'s.
    pub open spec fn spec_combine(a: Interval, b: Interval) -> Interval {
        Interval {
            min: if a.min.le(b.min) { a.min } else { b.min },
            max: if a.max.ge(b.max) { a.max } else { b.max },
        }
    }

    /// Whether `x` lies in the range, bounds included.
    pub open spec fn spec_contains(&self, x: Scalar) -> bool {
        self.min.le(x) && x.le(self.max)
    }

    /// Whether `x` lies in the range, bounds excluded.
    pub open spec fn spec_surrounds(&self, x: Scalar) -> bool {
        self.min.lt(x) && x.lt(self.max)
    }

    /// `x` moved to the nearest bound when it lies outside the range.
    pub open spec fn spec_clamp(&self, x: Scalar) -> Scalar {
        if x.lt(self.min) {
            self.min
        } else if x.gt(self.max) {
            self.max
        } else {
            x
        }
    }

    /// The range from negative to positive infinity.
    pub open spec fn spec_universe() -> Interval {
        Interval { min: Scalar::neg_infinity(), max: Scalar::infinity() }
    }

    /// The range from positive down to negative infinity, which holds nothing.
    pub open spec fn spec_empty() -> Interval {
        Interval { min: Scalar::infinity(), max: Scalar::neg_infinity() }
    }

    /// Whether neither bound is a NaN.
    pub open spec fn numeric(self) -> bool {
        !self.min.nan() && !self.max.nan()
    }

    /// Whether two ranges have numerically equal bounds.
    pub open spec fn same_range(self, other: Interval) -> bool {
        self.min.same_value(other.min) && self.max.same_value(other.max)
    }

    /// Whether every number of `inner` lies in `self`.
    pub open spec fn encloses(self, inner: Interval) -> bool {
        self.min.le(inner.min) && inner.max.le(self.max)
    }

    /// The range from `min` to `max`.
    pub fn new(min: Scalar, max: Scalar) -> (i: Interval)
        ensures
            i == (Interval { min, max }),
    {
        Interval { min, max }
    }

    /// The range that spans both `a` and `b`.
    #[verifier::when_used_as_spec(spec_combine)]
    pub fn combine(a: Interval, b: Interval) -> (i: Interval)
        ensures
            i == Interval::spec_combine(a, b),
    {
        let min = if a.min.le(b.min) { a.min } else { b.min };
        let max = if a.max.ge(b.max) { a.max } else { b.max };
        Interval { min, max }
    }

    /// The whole number line.
    #[verifier::when_used_as_spec(spec_universe)]
    pub fn universe() -> (i: Interval)
        ensures
            i == Interval::spec_universe(),
    {
        Interval { min: Scalar::neg_infinity(), max: Scalar::infinity() }
    }

    /// The range that holds nothing, from which a `combine` of many ranges
    /// starts.
    #[verifier::when_used_as_spec(spec_empty)]
    pub fn empty() -> (i: Interval)
        ensures
            i == Interval::spec_empty(),
    {
        Interval { min: Scalar::infinity(), max: Scalar::neg_infinity() }
    }

    /// Whether `min <= x <= max`.
    #[verifier::when_used_as_spec(spec_contains)]
    pub fn contains(&self, x: Scalar) -> (r: bool)
        ensures
            r == self.spec_contains(x),
    {
        self.min.le(x) && x.le(self.max)
    }

    /// Whether `min < x < max`.
    #[verifier::when_used_as_spec(spec_surrounds)]
    pub fn surrounds(&self, x: Scalar) -> (r: bool)
        ensures
            r == self.spec_surrounds(x),
    {
        self.min.lt(x) && x.lt(self.max)
    }

    /// `x`, or the bound that it lies beyond.
    #[verifier::when_used_as_spec(spec_clamp)]
    pub fn clamp(&self, x: Scalar) -> (r: Scalar)
        ensures
            r == self.spec_clamp(x),
    {
        if x.lt(self.min) {
            self.min
        } else if x.gt(self.max) {
            self.max
        } else {
            x
        }
    }
}

/// Combining a range with itself, or with the empty range on the left, gives it
/// back bit for bit.
pub proof fn lemma_combine_idempotent(a: Interval)
    ensures
        Interval::combine(a, a) == a,
        a.numeric() ==> Interval::combine(Interval::empty(), a) == a,
{
}

/// Among ranges without NaN bounds, `combine` is commutative: both orders give
/// numerically equal bounds (they may differ in the sign of a zero).
pub proof fn lemma_combine_commutative(a: Interval, b: Interval)
    requires
        a.numeric(),
        b.numeric(),
    ensures
        Interval::combine(a, b).same_range(Interval::combine(b, a)),
        Interval::combine(a, b).numeric(),
{
}

/// Among ranges without NaN bounds, `combine` is associative, up to the sign of
/// a zero bound.
pub proof fn lemma_combine_associative(a: Interval, b: Interval, c: Interval)
    requires
        a.numeric(),
        b.numeric(),
        c.numeric(),
    ensures
        Interval::combine(Interval::combine(a, b), c).same_range(
            Interval::combine(a, Interval::combine(b, c)),
        ),
{
}

/// The combined range encloses both arguments, and is the least such range:
/// its bounds are bounds of the arguments.
pub proof fn lemma_combine_encloses(a: Interval, b: Interval)
    requires
        a.numeric(),
        b.numeric(),
    ensures
        Interval::combine(a, b).encloses(a),
        Interval::combine(a, b).encloses(b),
        Interval::combine(a, b).min == a.min || Interval::combine(a, b).min == b.min,
        Interval::combine(a, b).max == a.max || Interval::combine(a, b).max == b.max,
{
}

/// A clamped number lies in the range, whenever the range holds anything and
/// the number is one.
pub proof fn lemma_clamp_in_range(i: Interval, x: Scalar)
    requires
        i.min.le(i.max),
        !x.nan(),
    ensures
        i.contains(i.clamp(x)),
        i.contains(x) ==> i.clamp(x) == x,
{
}

} // verus!
