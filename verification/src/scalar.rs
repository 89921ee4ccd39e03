//! Floating point numbers by their IEEE 754 bits.
//!
//! The library never computes with these numbers. It carries them, compares
//! them by value and hashes their bits.

use vstd::prelude::*;

verus! {

/// A single precision number by its bits.
#[derive(Clone, Copy, Debug)]
pub struct Scalar32 {
    pub bits: u32,
}

/// A double precision number by its bits.
#[derive(Clone, Copy, Debug)]
pub struct Scalar64 {
    pub bits: u64,
}

impl Scalar32 {
    /// The bits without the sign.
    pub open spec fn magnitude(self) -> int {
        if self.bits >= 0x8000_0000 {
            self.bits - 0x8000_0000
        } else {
            self.bits as int
        }
    }

    /// Whether the bits encode no number.
    pub open spec fn is_nan(self) -> bool {
        self.magnitude() > 0x7f80_0000
    }

    /// The position on the number line. Both zeros stand at the same place.
    pub open spec fn rank(self) -> int {
        if self.bits >= 0x8000_0000 {
            -self.magnitude()
        } else {
            self.magnitude()
        }
    }

    /// Numeric equality: nothing equals what is no number.
    pub open spec fn same_number(self, other: Scalar32) -> bool {
        !self.is_nan() && !other.is_nan() && self.rank() == other.rank()
    }

    /// Numeric order: nothing is below what is no number.
    pub open spec fn below(self, other: Scalar32) -> bool {
        !self.is_nan() && !other.is_nan() && self.rank() < other.rank()
    }

    fn signed_magnitude(self) -> (r: i64)
        ensures
            r == self.rank(),
    {
        if self.bits >= 0x8000_0000 {
            -((self.bits - 0x8000_0000) as i64)
        } else {
            self.bits as i64
        }
    }

    fn encodes_no_number(self) -> (r: bool)
        ensures
            r == self.is_nan(),
    {
        let rank: i64 = self.signed_magnitude();
        rank > 0x7f80_0000 || rank < -0x7f80_0000
    }

    /// Numeric equality.
    pub fn equals(self, other: Scalar32) -> (r: bool)
        ensures
            r == self.same_number(other),
    {
        !self.encodes_no_number() && !other.encodes_no_number() && self.signed_magnitude()
            == other.signed_magnitude()
    }

    /// Numeric order.
    pub fn is_below(self, other: Scalar32) -> (r: bool)
        ensures
            r == self.below(other),
    {
        !self.encodes_no_number() && !other.encodes_no_number() && self.signed_magnitude()
            < other.signed_magnitude()
    }

    /// Numeric order or equality.
    pub fn is_at_most(self, other: Scalar32) -> (r: bool)
        ensures
            r == (self.below(other) || self.same_number(other)),
    {
        self.is_below(other) || self.equals(other)
    }
}

impl PartialEq for Scalar32 {
    fn eq(&self, other: &Self) -> (r: bool) {
        self.equals(*other)
    }
}

impl vstd::std_specs::cmp::PartialEqSpecImpl for Scalar32 {
    open spec fn obeys_eq_spec() -> bool {
        true
    }

    open spec fn eq_spec(&self, other: &Self) -> bool {
        self.same_number(*other)
    }
}

impl Scalar64 {
    /// The bits without the sign.
    pub open spec fn magnitude(self) -> int {
        if self.bits >= 0x8000_0000_0000_0000 {
            self.bits - 0x8000_0000_0000_0000
        } else {
            self.bits as int
        }
    }

    /// Whether the bits encode no number.
    pub open spec fn is_nan(self) -> bool {
        self.magnitude() > 0x7ff0_0000_0000_0000
    }

    /// The position on the number line. Both zeros stand at the same place.
    pub open spec fn rank(self) -> int {
        if self.bits >= 0x8000_0000_0000_0000 {
            -self.magnitude()
        } else {
            self.magnitude()
        }
    }

    /// Numeric equality: nothing equals what is no number.
    pub open spec fn same_number(self, other: Scalar64) -> bool {
        !self.is_nan() && !other.is_nan() && self.rank() == other.rank()
    }

    fn signed_magnitude(self) -> (r: i128)
        ensures
            r == self.rank(),
    {
        if self.bits >= 0x8000_0000_0000_0000 {
            -((self.bits - 0x8000_0000_0000_0000) as i128)
        } else {
            self.bits as i128
        }
    }

    fn encodes_no_number(self) -> (r: bool)
        ensures
            r == self.is_nan(),
    {
        let rank: i128 = self.signed_magnitude();
        rank > 0x7ff0_0000_0000_0000 || rank < -0x7ff0_0000_0000_0000
    }

    /// Numeric equality.
    pub fn equals(self, other: Scalar64) -> (r: bool)
        ensures
            r == self.same_number(other),
    {
        !self.encodes_no_number() && !other.encodes_no_number() && self.signed_magnitude()
            == other.signed_magnitude()
    }
}

impl PartialEq for Scalar64 {
    fn eq(&self, other: &Self) -> (r: bool) {
        self.equals(*other)
    }
}

impl vstd::std_specs::cmp::PartialEqSpecImpl for Scalar64 {
    open spec fn obeys_eq_spec() -> bool {
        true
    }

    open spec fn eq_spec(&self, other: &Self) -> bool {
        self.same_number(*other)
    }
}

/// Two single precision numbers are equal exactly where neither is a NaN pattern
/// and their bits agree, or where both are zeros of either sign.
pub proof fn law_single_equality(a: Scalar32, b: Scalar32)
    ensures
        a.is_nan() <==> (a.bits & 0x7fff_ffff) > 0x7f80_0000,
        a.same_number(b) <==> {
            &&& (a.bits & 0x7fff_ffff) <= 0x7f80_0000
            &&& (b.bits & 0x7fff_ffff) <= 0x7f80_0000
            &&& a.bits == b.bits || ((a.bits & 0x7fff_ffff) == 0 && (b.bits & 0x7fff_ffff) == 0)
        },
{
    let (x, y) = (a.bits, b.bits);
    assert(x >= 0x8000_0000 ==> x & 0x7fff_ffff == x - 0x8000_0000) by (bit_vector);
    assert(x < 0x8000_0000 ==> x & 0x7fff_ffff == x) by (bit_vector);
    assert(y >= 0x8000_0000 ==> y & 0x7fff_ffff == y - 0x8000_0000) by (bit_vector);
    assert(y < 0x8000_0000 ==> y & 0x7fff_ffff == y) by (bit_vector);
}

/// Single precision numbers are ordered by their bits where they are positive,
/// the other way round where they are negative, and the negative ones come
/// first. Of two numbers exactly one is below the other, or they are equal.
pub proof fn law_single_order(a: Scalar32, b: Scalar32)
    requires
        !a.is_nan(),
        !b.is_nan(),
    ensures
        a.bits < 0x8000_0000 && b.bits < 0x8000_0000 ==> (a.below(b) <==> a.bits < b.bits),
        a.bits >= 0x8000_0000 && b.bits >= 0x8000_0000 ==> (a.below(b) <==> a.bits > b.bits),
        a.bits > 0x8000_0000 && b.bits < 0x8000_0000 ==> a.below(b) && !b.below(a),
        a.same_number(b) ==> !a.below(b) && !b.below(a),
        !a.same_number(b) ==> (a.below(b) <==> !b.below(a)),
{
}

/// What is no number is neither equal to, below nor above anything.
pub proof fn law_single_nan_compares_to_nothing(a: Scalar32, b: Scalar32)
    requires
        a.is_nan(),
    ensures
        !a.same_number(b) && !b.same_number(a),
        !a.below(b) && !b.below(a),
{
}

/// Two double precision numbers are equal exactly where neither is a NaN pattern
/// and their bits agree, or where both are zeros of either sign.
pub proof fn law_double_equality(a: Scalar64, b: Scalar64)
    ensures
        a.same_number(b) <==> {
            &&& (a.bits & 0x7fff_ffff_ffff_ffff) <= 0x7ff0_0000_0000_0000
            &&& (b.bits & 0x7fff_ffff_ffff_ffff) <= 0x7ff0_0000_0000_0000
            &&& a.bits == b.bits || ((a.bits & 0x7fff_ffff_ffff_ffff) == 0 && (b.bits
                & 0x7fff_ffff_ffff_ffff) == 0)
        },
{
    let (x, y) = (a.bits, b.bits);
    assert(x >= 0x8000_0000_0000_0000 ==> x & 0x7fff_ffff_ffff_ffff == x - 0x8000_0000_0000_0000)
        by (bit_vector);
    assert(x < 0x8000_0000_0000_0000 ==> x & 0x7fff_ffff_ffff_ffff == x) by (bit_vector);
    assert(y >= 0x8000_0000_0000_0000 ==> y & 0x7fff_ffff_ffff_ffff == y - 0x8000_0000_0000_0000)
        by (bit_vector);
    assert(y < 0x8000_0000_0000_0000 ==> y & 0x7fff_ffff_ffff_ffff == y) by (bit_vector);
}

} // verus!
