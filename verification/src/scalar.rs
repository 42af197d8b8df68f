//! IEEE-754 binary64 numbers by bit pattern, with their exact order.

use vstd::prelude::*;

verus! {

/// The sign bit of a binary64 pattern.
pub const SIGN_BIT: u64 = 0x8000_0000_0000_0000;

/// The pattern of positive infinity. A larger magnitude is not a number.
pub const INFINITY_BITS: u64 = 0x7ff0_0000_0000_0000;

/// The pattern of `1.0`.
pub const ONE_BITS: u64 = 0x3ff0_0000_0000_0000;

/// A double-precision number, held as the 64 bits of its IEEE-754 encoding.
///
/// `==` on two scalars compares patterns: it tells `0.0` from `-0.0` and finds a
/// NaN equal to itself. The numeric relations are `lt`, `le`, `gt`, `ge` and
/// `same_value`.
#[derive(Clone, Copy, Debug, PartialEq, Eq, Structural)]
pub struct Scalar {
    pub bits: u64,
}

impl Scalar {
    /// The pattern with the sign bit cleared.
    pub open spec fn magnitude(self) -> int {
        if self.bits >= SIGN_BIT {
            self.bits - SIGN_BIT
        } else {
            self.bits as int
        }
    }

    /// Whether the sign bit is set (true of `-0.0` too).
    pub open spec fn negative(self) -> bool {
        self.bits >= SIGN_BIT
    }

    /// Whether the pattern encodes no number.
    pub open spec fn nan(self) -> bool {
        self.magnitude() > INFINITY_BITS
    }

    /// The exponent field of the pattern: bits 52 to 62.
    pub open spec fn exponent(self) -> int {
        self.magnitude() / 0x10_0000_0000_0000
    }

    /// The fraction field of the pattern: bits 0 to 51.
    pub open spec fn fraction(self) -> int {
        self.magnitude() % 0x10_0000_0000_0000
    }

    /// The place of a number in the order of the doubles: numbers compare as
    /// their keys do. Both zeros have key 0; the infinities have the two
    /// extreme keys. Meaningless for a NaN.
    pub open spec fn key(self) -> int {
        if self.negative() {
            -self.magnitude()
        } else {
            self.magnitude()
        }
    }

    /// `self < other` as IEEE-754 defines it: false when either is a NaN.
    pub open spec fn spec_lt(self, other: Scalar) -> bool {
        !self.nan() && !other.nan() && self.key() < other.key()
    }

    /// `self <= other` as IEEE-754 defines it: false when either is a NaN.
    pub open spec fn spec_le(self, other: Scalar) -> bool {
        !self.nan() && !other.nan() && self.key() <= other.key()
    }

    /// `self > other` as IEEE-754 defines it.
    pub open spec fn spec_gt(self, other: Scalar) -> bool {
        other.spec_lt(self)
    }

    /// `self >= other` as IEEE-754 defines it.
    pub open spec fn spec_ge(self, other: Scalar) -> bool {
        other.spec_le(self)
    }

    /// Numeric equality: the zeros are equal, a NaN equals nothing.
    pub open spec fn spec_same_value(self, other: Scalar) -> bool {
        !self.nan() && !other.nan() && self.key() == other.key()
    }

    /// The number with the sign bit cleared.
    pub open spec fn spec_abs(self) -> Scalar {
        Scalar { bits: self.magnitude() as u64 }
    }

    /// The lesser of two numbers. A NaN gives way to the other argument; of
    /// two equal numbers, the first is taken.
    pub open spec fn spec_min(self, other: Scalar) -> Scalar {
        if self.nan() {
            other
        } else if other.lt(self) {
            other
        } else {
            self
        }
    }

    /// The greater of two numbers. A NaN gives way to the other argument; of
    /// two equal numbers, the first is taken.
    pub open spec fn spec_max(self, other: Scalar) -> Scalar {
        if self.nan() {
            other
        } else if other.gt(self) {
            other
        } else {
            self
        }
    }

    /// `0.0`: the pattern without a set bit.
    pub open spec fn spec_zero() -> Scalar {
        Scalar { bits: 0 }
    }

    /// `1.0`.
    pub open spec fn spec_one() -> Scalar {
        Scalar { bits: ONE_BITS }
    }

    /// Positive infinity: all exponent bits set, no other.
    pub open spec fn spec_infinity() -> Scalar {
        Scalar { bits: INFINITY_BITS }
    }

    /// Negative infinity: positive infinity with the sign bit set.
    pub open spec fn spec_neg_infinity() -> Scalar {
        Scalar { bits: 0xfff0_0000_0000_0000 }
    }

    /// The scalar with the given bit pattern.
    pub fn from_bits(bits: u64) -> (s: Scalar)
        ensures
            s.bits == bits,
    {
        Scalar { bits }
    }

    /// The bit pattern.
    pub fn to_bits(self) -> (bits: u64)
        ensures
            bits == self.bits,
    {
        self.bits
    }

    /// `0.0`.
    #[verifier::when_used_as_spec(spec_zero)]
    pub fn zero() -> (s: Scalar)
        ensures
            s == Scalar::spec_zero(),
    {
        Scalar { bits: 0 }
    }

    /// `1.0`.
    #[verifier::when_used_as_spec(spec_one)]
    pub fn one() -> (s: Scalar)
        ensures
            s == Scalar::spec_one(),
    {
        Scalar { bits: ONE_BITS }
    }

    /// Positive infinity.
    #[verifier::when_used_as_spec(spec_infinity)]
    pub fn infinity() -> (s: Scalar)
        ensures
            s == Scalar::spec_infinity(),
    {
        Scalar { bits: INFINITY_BITS }
    }

    /// Negative infinity.
    #[verifier::when_used_as_spec(spec_neg_infinity)]
    pub fn neg_infinity() -> (s: Scalar)
        ensures
            s == Scalar::spec_neg_infinity(),
    {
        Scalar { bits: 0xfff0_0000_0000_0000 }
    }

    fn magnitude_bits(self) -> (m: u64)
        ensures
            m == self.magnitude(),
    {
        if self.bits >= SIGN_BIT {
            self.bits - SIGN_BIT
        } else {
            self.bits
        }
    }

    /// Whether the scalar is a NaN.
    pub fn is_nan(self) -> (r: bool)
        ensures
            r == self.nan(),
    {
        self.magnitude_bits() > INFINITY_BITS
    }

    /// `self < other`.
    #[verifier::when_used_as_spec(spec_lt)]
    pub fn lt(self, other: Scalar) -> (r: bool)
        ensures
            r == self.spec_lt(other),
    {
        if self.is_nan() || other.is_nan() {
            return false;
        }
        let a: u64 = self.magnitude_bits();
        let b: u64 = other.magnitude_bits();
        if self.bits >= SIGN_BIT {
            if other.bits >= SIGN_BIT {
                a > b
            } else {
                a != 0 || b != 0
            }
        } else {
            other.bits < SIGN_BIT && a < b
        }
    }

    /// `self <= other`.
    #[verifier::when_used_as_spec(spec_le)]
    pub fn le(self, other: Scalar) -> (r: bool)
        ensures
            r == self.spec_le(other),
    {
        if self.is_nan() || other.is_nan() {
            return false;
        }
        !other.lt(self)
    }

    /// `self > other`.
    #[verifier::when_used_as_spec(spec_gt)]
    pub fn gt(self, other: Scalar) -> (r: bool)
        ensures
            r == self.spec_gt(other),
    {
        other.lt(self)
    }

    /// `self >= other`.
    #[verifier::when_used_as_spec(spec_ge)]
    pub fn ge(self, other: Scalar) -> (r: bool)
        ensures
            r == self.spec_ge(other),
    {
        other.le(self)
    }

    /// Numeric equality.
    #[verifier::when_used_as_spec(spec_same_value)]
    pub fn same_value(self, other: Scalar) -> (r: bool)
        ensures
            r == self.spec_same_value(other),
    {
        self.le(other) && other.le(self)
    }

    /// The lesser of `self` and `other`, ignoring a NaN.
    #[verifier::when_used_as_spec(spec_min)]
    pub fn min(self, other: Scalar) -> (r: Scalar)
        ensures
            r == self.spec_min(other),
    {
        if self.is_nan() {
            other
        } else if other.lt(self) {
            other
        } else {
            self
        }
    }

    /// The greater of `self` and `other`, ignoring a NaN.
    #[verifier::when_used_as_spec(spec_max)]
    pub fn max(self, other: Scalar) -> (r: Scalar)
        ensures
            r == self.spec_max(other),
    {
        if self.is_nan() {
            other
        } else if other.gt(self) {
            other
        } else {
            self
        }
    }

    /// The absolute value: the same pattern with the sign bit cleared.
    #[verifier::when_used_as_spec(spec_abs)]
    pub fn abs(self) -> (r: Scalar)
        ensures
            r == self.spec_abs(),
            r.magnitude() == self.magnitude(),
            !r.negative(),
    {
        Scalar { bits: self.magnitude_bits() }
    }
}

/// The order of the keys is the order of the numbers that the patterns
/// encode. A pattern with all exponent bits set is an infinity if its fraction
/// is zero and a NaN if not. Of two patterns without sign, the one with the
/// lesser exponent field, or with the same exponent and the lesser fraction,
/// has the lesser key, as it encodes the lesser number; a set sign bit mirrors
/// the order.
pub proof fn lemma_key_follows_the_encoding(a: Scalar, b: Scalar)
    ensures
        0 <= a.exponent() <= 0x7ff,
        0 <= a.fraction() < 0x10_0000_0000_0000,
        a.nan() <==> a.exponent() == 0x7ff && a.fraction() != 0,
        a.magnitude() == INFINITY_BITS <==> a.exponent() == 0x7ff && a.fraction() == 0,
        a.magnitude() < b.magnitude() <==> a.exponent() < b.exponent() || (a.exponent()
            == b.exponent() && a.fraction() < b.fraction()),
        !a.negative() && !b.negative() ==> (a.key() < b.key() <==> a.magnitude() < b.magnitude()),
        a.negative() && b.negative() ==> (a.key() < b.key() <==> a.magnitude() > b.magnitude()),
        a.negative() && !b.negative() ==> (a.key() < b.key() <==> a.magnitude() > 0 || b.magnitude()
            > 0),
        !a.negative() && b.negative() ==> !(a.key() < b.key()),
{
}

/// Among numbers, exactly one of `a < b`, `a` equal to `b`, `a > b` holds, and
/// `<` is transitive; a NaN stands in none of the relations.
pub proof fn lemma_order_of_numbers(a: Scalar, b: Scalar, c: Scalar)
    ensures
        !a.nan() && !b.nan() ==> (a.lt(b) || a.same_value(b) || b.lt(a)),
        !(a.lt(b) && b.lt(a)),
        !(a.lt(b) && a.same_value(b)),
        a.lt(b) && b.lt(c) ==> a.lt(c),
        a.le(b) <==> (a.lt(b) || a.same_value(b)),
        a.nan() ==> !a.lt(b) && !b.lt(a) && !a.le(b) && !b.le(a) && !a.same_value(b),
        !a.nan() ==> Scalar::neg_infinity().le(a) && a.le(Scalar::infinity()),
{
}

} // verus!
