//! Plain numeric values that events and settings carry.
//!
//! A scalar is held by the 32 bits of its IEEE 754 single-precision encoding,
//! so that it can be copied, stored and compared without any arithmetic on it.
use vstd::prelude::*;
use vstd::std_specs::cmp::PartialEqSpecImpl;

verus! {

/// A signed single-precision scalar, held by its IEEE 754 bit pattern.
///
/// Bit 31 is the sign, bits 30 to 23 the exponent, bits 22 to 0 the fraction.
#[derive(Debug, Clone, Copy)]
pub struct Scalar {
    /// The encoding of the value.
    pub bits: u32,
}

/// The encoding with the sign bit alone set.
pub const SIGN_BIT: u32 = 0x8000_0000;

/// The encoding of positive infinity: every encoding whose magnitude lies
/// above it is not a number.
pub const INFINITY_BITS: u32 = 0x7f80_0000;

impl Scalar {
    /// The encoding without its sign bit.
    pub open spec fn spec_magnitude(self) -> u32 {
        if self.bits >= SIGN_BIT {
            (self.bits - SIGN_BIT) as u32
        } else {
            self.bits
        }
    }

    /// Whether the encoding stands for no number at all.
    pub open spec fn spec_is_nan(self) -> bool {
        self.spec_magnitude() > INFINITY_BITS
    }

    /// Whether the value is zero, of either sign.
    pub open spec fn spec_is_zero(self) -> bool {
        self.spec_magnitude() == 0
    }

    /// What `==` means on scalars: the comparison of IEEE 754. Nothing equals
    /// a value that is not a number, the two zeros are equal, and any other
    /// two values are equal exactly when their encodings are.
    pub open spec fn same_number(self, other: Scalar) -> bool {
        &&& !self.spec_is_nan()
        &&& !other.spec_is_nan()
        &&& (self.bits == other.bits || (self.spec_is_zero() && other.spec_is_zero()))
    }

    /// The scalar with the given encoding.
    pub fn from_bits(bits: u32) -> (r: Scalar)
        ensures
            r.bits == bits,
    {
        Scalar { bits }
    }

    /// The encoding of the scalar.
    pub fn to_bits(self) -> (r: u32)
        ensures
            r == self.bits,
    {
        self.bits
    }

    /// The encoding without its sign bit.
    #[verifier::when_used_as_spec(spec_magnitude)]
    pub fn magnitude(self) -> (r: u32)
        ensures
            r == self.spec_magnitude(),
    {
        if self.bits >= SIGN_BIT {
            self.bits - SIGN_BIT
        } else {
            self.bits
        }
    }

    /// Whether the encoding stands for no number at all.
    #[verifier::when_used_as_spec(spec_is_nan)]
    pub fn is_nan(self) -> (r: bool)
        ensures
            r == self.spec_is_nan(),
    {
        self.magnitude() > INFINITY_BITS
    }

    /// Whether the value is zero, of either sign.
    #[verifier::when_used_as_spec(spec_is_zero)]
    pub fn is_zero(self) -> (r: bool)
        ensures
            r == self.spec_is_zero(),
    {
        self.magnitude() == 0
    }
}

impl PartialEq for Scalar {
    fn eq(&self, other: &Self) -> (r: bool) {
        !self.is_nan() && !other.is_nan() && (self.bits == other.bits || (self.is_zero()
            && other.is_zero()))
    }
}

impl PartialEqSpecImpl for Scalar {
    open spec fn obeys_eq_spec() -> bool {
        true
    }

    open spec fn eq_spec(&self, other: &Self) -> bool {
        self.same_number(*other)
    }
}

/// A 2D offset, in the coordinate space of the pointer.
#[derive(Debug, Clone, Copy)]
pub struct Point {
    /// The horizontal coordinate.
    pub x: Scalar,
    /// The vertical coordinate.
    pub y: Scalar,
}

impl Point {
    /// What `==` means on points: both coordinates are the same number.
    pub open spec fn same_point(self, other: Point) -> bool {
        self.x.same_number(other.x) && self.y.same_number(other.y)
    }

    /// The point with the given coordinates.
    pub fn new(x: Scalar, y: Scalar) -> (r: Point)
        ensures
            r.x == x,
            r.y == y,
    {
        Point { x, y }
    }
}

impl PartialEq for Point {
    fn eq(&self, other: &Self) -> (r: bool) {
        self.x == other.x && self.y == other.y
    }
}

impl PartialEqSpecImpl for Point {
    open spec fn obeys_eq_spec() -> bool {
        true
    }

    open spec fn eq_spec(&self, other: &Self) -> bool {
        self.same_point(*other)
    }
}

/// An amount of logical pixels.
#[derive(Debug, Clone, Copy, PartialEq)]
pub struct Pixels(pub Scalar);

} // verus!
