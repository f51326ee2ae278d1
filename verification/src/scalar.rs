//! Double-precision numbers held by their bit patterns.
//!
//! The verified core never does arithmetic on a number. It compares numbers,
//! selects between them and flips their signs, and each of these is an exact
//! operation on the IEEE-754 binary64 encoding: the sign is bit 63, the
//! remaining 63 bits are the magnitude, magnitudes grow with the encoded
//! value, and every magnitude above that of infinity is a NaN.

use vstd::prelude::*;

verus! {

/// The sign bit of a binary64 pattern.
pub const SIGN_BIT: u64 = 0x8000_0000_0000_0000;

/// The pattern of positive infinity. A larger magnitude encodes a NaN.
pub const INFINITY_BITS: u64 = 0x7FF0_0000_0000_0000;

/// The pattern of the number one.
pub const ONE_BITS: u64 = 0x3FF0_0000_0000_0000;

/// The pattern of the largest finite number.
pub const MAX_FINITE_BITS: u64 = 0x7FEF_FFFF_FFFF_FFFF;

/// A binary64 number, by its bits.
#[derive(Clone, Copy, Debug)]
pub struct Scalar {
    pub bits: u64,
}

impl Scalar {
    /// Whether the sign bit is set.
    pub open spec fn is_negative(self) -> bool {
        self.bits >= SIGN_BIT
    }

    /// The pattern without its sign bit.
    pub open spec fn magnitude(self) -> int {
        if self.bits >= SIGN_BIT {
            self.bits - SIGN_BIT
        } else {
            self.bits as int
        }
    }

    /// Whether the pattern encodes a NaN.
    pub open spec fn nan(self) -> bool {
        self.magnitude() > INFINITY_BITS
    }

    /// The place of a number on the number line: an integer that grows exactly
    /// as the encoded value does. Both zeros have rank 0. Meaningless for a NaN.
    pub open spec fn rank(self) -> int {
        if self.is_negative() {
            -self.magnitude()
        } else {
            self.magnitude()
        }
    }

    /// `self < other` as IEEE-754 defines it: false when either is a NaN.
    pub open spec fn spec_lt(self, other: Scalar) -> bool {
        !self.nan() && !other.nan() && self.rank() < other.rank()
    }

    /// `self <= other` as IEEE-754 defines it: false when either is a NaN.
    pub open spec fn spec_le(self, other: Scalar) -> bool {
        !self.nan() && !other.nan() && self.rank() <= other.rank()
    }

    /// Whether the number lies outside `[lo, hi]`: below `lo` or above
    /// `hi`. A NaN lies on neither side.
    pub open spec fn spec_outside(self, lo: Scalar, hi: Scalar) -> bool {
        self.spec_lt(lo) || hi.spec_lt(self)
    }

    /// The smaller of two numbers. A NaN yields to the other operand; of two
    /// numbers that compare equal, `self` is taken.
    pub open spec fn spec_min(self, other: Scalar) -> Scalar {
        if self.nan() {
            other
        } else if other.nan() {
            self
        } else if other.rank() < self.rank() {
            other
        } else {
            self
        }
    }

    /// The larger of two numbers. A NaN yields to the other operand; of two
    /// numbers that compare equal, `self` is taken.
    pub open spec fn spec_max(self, other: Scalar) -> Scalar {
        if self.nan() {
            other
        } else if other.nan() {
            self
        } else if other.rank() > self.rank() {
            other
        } else {
            self
        }
    }

    /// The number with its sign bit flipped.
    pub open spec fn spec_neg(self) -> Scalar {
        if self.bits >= SIGN_BIT {
            Scalar { bits: (self.bits - SIGN_BIT) as u64 }
        } else {
            Scalar { bits: (self.bits + SIGN_BIT) as u64 }
        }
    }

    /// The number with its sign bit cleared.
    pub open spec fn spec_abs(self) -> Scalar {
        if self.bits >= SIGN_BIT {
            Scalar { bits: (self.bits - SIGN_BIT) as u64 }
        } else {
            self
        }
    }

    /// Positive zero.
    pub open spec fn spec_zero() -> Scalar {
        Scalar { bits: 0 }
    }

    /// Positive infinity.
    pub open spec fn spec_infinity() -> Scalar {
        Scalar { bits: INFINITY_BITS }
    }

    /// Negative infinity.
    pub open spec fn spec_neg_infinity() -> Scalar {
        Scalar { bits: 0xFFF0_0000_0000_0000 }
    }

    /// The number with the given pattern.
    pub fn from_bits(bits: u64) -> (s: Scalar)
        ensures
            s.bits == bits,
    {
        Scalar { bits }
    }

    /// The pattern of the number.
    pub fn to_bits(self) -> (bits: u64)
        ensures
            bits == self.bits,
    {
        self.bits
    }

    /// Positive zero.
    pub fn zero() -> (s: Scalar)
        ensures
            s == Scalar::spec_zero(),
    {
        Scalar { bits: 0 }
    }

    /// The number one.
    pub fn one() -> (s: Scalar)
        ensures
            s.bits == ONE_BITS,
    {
        Scalar { bits: ONE_BITS }
    }

    /// Positive infinity.
    pub fn infinity() -> (s: Scalar)
        ensures
            s == Scalar::spec_infinity(),
    {
        Scalar { bits: INFINITY_BITS }
    }

    /// Negative infinity.
    pub fn neg_infinity() -> (s: Scalar)
        ensures
            s == Scalar::spec_neg_infinity(),
    {
        Scalar { bits: 0xFFF0_0000_0000_0000 }
    }

    /// The largest finite number.
    pub fn max_finite() -> (s: Scalar)
        ensures
            s.bits == MAX_FINITE_BITS,
    {
        Scalar { bits: MAX_FINITE_BITS }
    }

    /// The smallest finite number, the negative of the largest.
    pub fn min_finite() -> (s: Scalar)
        ensures
            s == (Scalar { bits: MAX_FINITE_BITS }).spec_neg(),
    {
        Scalar { bits: 0xFFEF_FFFF_FFFF_FFFF }
    }

    fn magnitude_bits(self) -> (m: u64)
        ensures
            m == self.magnitude(),
            m < SIGN_BIT,
    {
        if self.bits >= SIGN_BIT {
            self.bits - SIGN_BIT
        } else {
            self.bits
        }
    }

    /// The rank as a machine integer.
    pub fn key(self) -> (k: i64)
        ensures
            k == self.rank(),
    {
        let m: u64 = self.magnitude_bits();
        let k: i64 = m as i64;
        if self.bits >= SIGN_BIT {
            -k
        } else {
            k
        }
    }

    /// Whether the number is a NaN.
    pub fn is_nan(self) -> (b: bool)
        ensures
            b == self.nan(),
    {
        self.magnitude_bits() > INFINITY_BITS
    }

    /// `self < other`; false when either is a NaN.
    pub fn lt(self, other: Scalar) -> (b: bool)
        ensures
            b == self.spec_lt(other),
    {
        !self.is_nan() && !other.is_nan() && self.key() < other.key()
    }

    /// `self <= other`; false when either is a NaN.
    pub fn le(self, other: Scalar) -> (b: bool)
        ensures
            b == self.spec_le(other),
    {
        !self.is_nan() && !other.is_nan() && self.key() <= other.key()
    }

    /// `self > other`; false when either is a NaN.
    pub fn gt(self, other: Scalar) -> (b: bool)
        ensures
            b == other.spec_lt(self),
    {
        other.lt(self)
    }

    /// `self >= other`; false when either is a NaN.
    pub fn ge(self, other: Scalar) -> (b: bool)
        ensures
            b == other.spec_le(self),
    {
        other.le(self)
    }

    /// Whether the number lies below `lo` or above `hi`.
    pub fn outside(self, lo: Scalar, hi: Scalar) -> (b: bool)
        ensures
            b == self.spec_outside(lo, hi),
    {
        self.lt(lo) || self.gt(hi)
    }

    /// The smaller of the two, ignoring a NaN.
    pub fn min(self, other: Scalar) -> (m: Scalar)
        ensures
            m == self.spec_min(other),
    {
        if self.is_nan() {
            other
        } else if other.is_nan() {
            self
        } else if other.key() < self.key() {
            other
        } else {
            self
        }
    }

    /// The larger of the two, ignoring a NaN.
    pub fn max(self, other: Scalar) -> (m: Scalar)
        ensures
            m == self.spec_max(other),
    {
        if self.is_nan() {
            other
        } else if other.is_nan() {
            self
        } else if other.key() > self.key() {
            other
        } else {
            self
        }
    }

    /// The negated number.
    pub fn neg(self) -> (n: Scalar)
        ensures
            n == self.spec_neg(),
    {
        if self.bits >= SIGN_BIT {
            Scalar { bits: self.bits - SIGN_BIT }
        } else {
            Scalar { bits: self.bits + SIGN_BIT }
        }
    }

    /// The absolute value.
    pub fn abs(self) -> (a: Scalar)
        ensures
            a == self.spec_abs(),
    {
        if self.bits >= SIGN_BIT {
            Scalar { bits: self.bits - SIGN_BIT }
        } else {
            self
        }
    }
}

/// Negation mirrors the number line: it keeps the magnitude, turns the rank
/// into its opposite and keeps a NaN a NaN, and negating twice gives the
/// number back.
pub proof fn lemma_neg_mirrors(a: Scalar)
    ensures
        a.spec_neg().magnitude() == a.magnitude(),
        a.spec_neg().rank() == -a.rank(),
        a.spec_neg().nan() == a.nan(),
        a.spec_neg().spec_neg() == a,
{
}

/// Negation reverses the order: `a < b` exactly when `-b < -a`.
pub proof fn lemma_neg_reverses(a: Scalar, b: Scalar)
    ensures
        a.spec_lt(b) == b.spec_neg().spec_lt(a.spec_neg()),
        a.spec_le(b) == b.spec_neg().spec_le(a.spec_neg()),
{
    lemma_neg_mirrors(a);
    lemma_neg_mirrors(b);
}

/// On numbers that are not NaNs, `<=` is a total preorder and `<` is its
/// strict part.
pub proof fn lemma_order_total(a: Scalar, b: Scalar, c: Scalar)
    requires
        !a.nan(),
        !b.nan(),
        !c.nan(),
    ensures
        a.spec_le(a),
        a.spec_le(b) || b.spec_le(a),
        a.spec_le(b) && b.spec_le(c) ==> a.spec_le(c),
        a.spec_lt(b) == !b.spec_le(a),
{
}

/// The minimum and maximum of two numbers that are not NaNs are one of the
/// two each, and they bound both.
pub proof fn lemma_min_max_bound(a: Scalar, b: Scalar)
    requires
        !a.nan(),
        !b.nan(),
    ensures
        a.spec_min(b) == a || a.spec_min(b) == b,
        a.spec_max(b) == a || a.spec_max(b) == b,
        a.spec_min(b).spec_le(a),
        a.spec_min(b).spec_le(b),
        a.spec_le(a.spec_max(b)),
        b.spec_le(a.spec_max(b)),
        !a.spec_min(b).nan(),
        !a.spec_max(b).nan(),
{
}

} // verus!
