//! Comparing 64-bit floating-point numbers that are kept as bit patterns.

use vstd::prelude::*;

verus! {

/// A 64-bit floating-point number in the binary format of IEEE 754, as its
/// bits: the sign, eleven bits of exponent, and the fraction.
#[derive(Clone, Copy, Debug)]
pub struct FloatBits {
    pub bits: u64,
}

impl FloatBits {
    /// The bits without the sign.
    pub open spec fn magnitude(self) -> int {
        self.bits as int % 0x8000_0000_0000_0000
    }

    /// Positive or negative zero.
    pub open spec fn zero(self) -> bool {
        self.magnitude() == 0
    }

    /// Not a number: all bits of the exponent are set, and one of the fraction.
    pub open spec fn nan(self) -> bool {
        self.magnitude() > 0x7ff0_0000_0000_0000
    }

    /// The numbers are equal: the zeros are, and what is not a number equals
    /// nothing.
    pub open spec fn same(self, other: FloatBits) -> bool {
        &&& !self.nan()
        &&& !other.nan()
        &&& self.bits == other.bits || (self.zero() && other.zero())
    }

    pub fn is_zero(&self) -> (r: bool)
        ensures
            r == self.zero(),
    {
        self.bits % 0x8000_0000_0000_0000 == 0
    }

    pub fn is_nan(&self) -> (r: bool)
        ensures
            r == self.nan(),
    {
        self.bits % 0x8000_0000_0000_0000 > 0x7ff0_0000_0000_0000
    }

    /// Whether the numbers are equal.
    pub fn equals(&self, other: &FloatBits) -> (r: bool)
        ensures
            r == self.same(*other),
    {
        !self.is_nan() && !other.is_nan() && (self.bits == other.bits || (self.is_zero()
            && other.is_zero()))
    }
}

/// A size in floating-point numbers.
#[derive(Clone, Copy, Debug)]
pub struct FloatSize {
    pub w: FloatBits,
    pub h: FloatBits,
}

impl FloatSize {
    pub open spec fn empty(self) -> bool {
        self.w.zero() || self.h.zero()
    }

    pub open spec fn same(self, other: FloatSize) -> bool {
        self.w.same(other.w) && self.h.same(other.h)
    }

    /// Both dimensions are numbers.
    pub open spec fn numeric(self) -> bool {
        !self.w.nan() && !self.h.nan()
    }

    /// One of the dimensions is zero.
    pub fn is_empty(&self) -> (r: bool)
        ensures
            r == self.empty(),
    {
        self.w.is_zero() || self.h.is_zero()
    }

    /// Whether both dimensions are equal.
    pub fn equals(&self, other: &FloatSize) -> (r: bool)
        ensures
            r == self.same(*other),
    {
        self.w.equals(&other.w) && self.h.equals(&other.h)
    }
}

/// The bits without the sign are zero only in the two zeros. What is not a
/// number has all eleven bits of the exponent set, and one of the fraction.
pub proof fn lemma_float_format(float: FloatBits)
    ensures
        float.zero() <==> float.bits == 0 || float.bits == 0x8000_0000_0000_0000,
        float.nan() <==> (float.bits as int / 0x10_0000_0000_0000) % 0x800 == 0x7ff
            && float.bits as int % 0x10_0000_0000_0000 != 0,
{
}

/// Numbers are equal to themselves only, but for the two zeros, which equal
/// each other. What is not a number equals nothing, not even itself.
pub proof fn lemma_float_equality(a: FloatBits, b: FloatBits)
    ensures
        a.same(b) <==> b.same(a),
        a.same(a) <==> !a.nan(),
        a.same(b) ==> a.same(a) && b.same(b),
        a.same(b) && a.bits != b.bits ==> a.zero() && b.zero(),
        a.zero() && b.zero() ==> a.same(b),
{
}

/// A size is empty if one of its dimensions is zero, and sizes are equal if
/// both dimensions are.
pub proof fn lemma_float_sizes(a: FloatSize, b: FloatSize)
    ensures
        a.empty() <==> a.w.zero() || a.h.zero(),
        a.same(b) <==> a.w.same(b.w) && a.h.same(b.h),
        a.numeric() <==> !a.w.nan() && !a.h.nan(),
        a.same(a) <==> a.numeric(),
{
}

} // verus!
