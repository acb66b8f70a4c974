//! Real-valued quantities as the core stores them.
//!
//! A [`Scalar`] is the bit pattern of an IEEE 754 binary32 number. The core
//! stores, copies and classifies such patterns; it never does arithmetic on
//! them. Equality on these types is identity of bit patterns, which is finer
//! than numeric equality: the two zeros differ, and a NaN equals itself.

use vstd::prelude::*;

verus! {

/// Bit pattern of positive infinity; every finite non-negative number lies strictly below it.
pub const INFINITY_BITS: u32 = 0x7F80_0000;

/// One real number, held as an IEEE 754 binary32 bit pattern.
#[derive(Clone, Copy, Debug, PartialEq, Eq, Structural)]
pub struct Scalar {
    pub bits: u32,
}

impl Scalar {
    /// The sign bit: 1 for negative numbers (and negative zero), else 0.
    pub open spec fn sign(self) -> u32 {
        self.bits >> 31
    }

    /// The eight exponent bits.
    pub open spec fn exponent(self) -> u32 {
        (self.bits >> 23) & 0xFF
    }

    /// The twenty-three fraction bits.
    pub open spec fn fraction(self) -> u32 {
        self.bits & 0x7F_FFFF
    }

    /// Whether the pattern denotes a number (not an infinity and not a NaN)
    /// that is greater than zero.
    pub open spec fn positive_finite(self) -> bool {
        &&& self.sign() == 0
        &&& self.exponent() != 0xFF
        &&& !(self.exponent() == 0 && self.fraction() == 0)
    }

    /// Wraps a bit pattern.
    pub fn from_bits(bits: u32) -> (s: Scalar)
        ensures
            s.bits == bits,
    {
        Scalar { bits }
    }

    /// The bit pattern.
    pub fn to_bits(self) -> (bits: u32)
        ensures
            bits == self.bits,
    {
        self.bits
    }

    /// Positive zero.
    pub fn zero() -> (s: Scalar)
        ensures
            s == Scalar::spec_zero(),
    {
        Scalar { bits: 0 }
    }

    /// Positive zero, the all-clear pattern.
    pub open spec fn spec_zero() -> Scalar {
        Scalar { bits: 0 }
    }

    /// Decides [`Scalar::positive_finite`].
    pub fn is_positive_finite(self) -> (b: bool)
        ensures
            b == self.positive_finite(),
    {
        let bits: u32 = self.bits;
        assert((0 < bits && bits < 0x7F80_0000u32) <==> ((bits >> 31) == 0 && ((bits >> 23) & 0xFF)
            != 0xFF && !(((bits >> 23) & 0xFF) == 0 && (bits & 0x7F_FFFF) == 0))) by (bit_vector);
        0 < bits && bits < INFINITY_BITS
    }
}

/// A vector in the plane.
#[derive(Clone, Copy, Debug, PartialEq, Eq, Structural)]
pub struct Vector2 {
    pub x: Scalar,
    pub y: Scalar,
}

impl Vector2 {
    /// The vector with the given components.
    pub fn new(x: Scalar, y: Scalar) -> (v: Vector2)
        ensures
            v == (Vector2 { x, y }),
    {
        Vector2 { x, y }
    }

    /// The zero vector.
    pub open spec fn spec_zero() -> Vector2 {
        Vector2 { x: Scalar::spec_zero(), y: Scalar::spec_zero() }
    }

    /// The zero vector.
    pub fn zero() -> (v: Vector2)
        ensures
            v == Vector2::spec_zero(),
    {
        Vector2 { x: Scalar::zero(), y: Scalar::zero() }
    }

    /// The same vector in space, lying in the plane `z = 0`.
    pub open spec fn spec_lift(self) -> Vector3 {
        Vector3 { x: self.x, y: self.y, z: Scalar::spec_zero() }
    }

    /// Lifts the vector into space with `z = 0`.
    pub fn lift(self) -> (v: Vector3)
        ensures
            v == self.spec_lift(),
    {
        Vector3 { x: self.x, y: self.y, z: Scalar::zero() }
    }
}

/// A vector in space, the form in which steering forces arrive.
#[derive(Clone, Copy, Debug, PartialEq, Eq, Structural)]
pub struct Vector3 {
    pub x: Scalar,
    pub y: Scalar,
    pub z: Scalar,
}

impl Vector3 {
    /// The vector with the given components.
    pub fn new(x: Scalar, y: Scalar, z: Scalar) -> (v: Vector3)
        ensures
            v == (Vector3 { x, y, z }),
    {
        Vector3 { x, y, z }
    }

    /// The projection onto the plane: `z` is dropped.
    pub open spec fn spec_xy(self) -> Vector2 {
        Vector2 { x: self.x, y: self.y }
    }

    /// Projects onto the plane by dropping `z`.
    pub fn xy(self) -> (v: Vector2)
        ensures
            v == self.spec_xy(),
    {
        Vector2 { x: self.x, y: self.y }
    }
}

/// Projection ignores the third component: two forces that agree in `x` and
/// `y` project to the same planar vector, whatever their `z`.
pub proof fn lemma_projection_ignores_z(a: Vector3, b: Vector3)
    requires
        a.x == b.x,
        a.y == b.y,
    ensures
        a.spec_xy() == b.spec_xy(),
{
}

} // verus!
