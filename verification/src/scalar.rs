//! Scalar values as IEEE-754 binary64 bit patterns.
//!
//! The solver's numeric layer works in double precision; this crate never
//! performs floating-point arithmetic itself. It receives and returns each
//! scalar as its 64-bit pattern, and the only structure it reads out of a
//! pattern is its classification: an exponent field of all ones marks a NaN
//! (non-zero fraction) or an infinity (zero fraction); everything else is a
//! finite value.

use vstd::prelude::*;

verus! {

/// Exponent-field mask of a binary64 pattern (bits 52..63).
pub const EXPONENT_MASK: u64 = 0x7ff0_0000_0000_0000;

/// Fraction-field mask of a binary64 pattern (bits 0..52).
pub const FRACTION_MASK: u64 = 0x000f_ffff_ffff_ffff;

/// One scalar of the solver, held as the bit pattern of an IEEE-754
/// binary64 value. Equality of `Scalar`s is equality of patterns.
#[derive(Clone, Copy, Debug, PartialEq, Eq, Structural)]
pub struct Scalar {
    pub bits: u64,
}

impl Scalar {
    /// The pattern is a NaN: exponent all ones, fraction non-zero.
    pub open spec fn spec_is_nan(self) -> bool {
        self.bits & EXPONENT_MASK == EXPONENT_MASK && self.bits & FRACTION_MASK != 0
    }

    /// The pattern is a positive or negative infinity.
    pub open spec fn spec_is_infinite(self) -> bool {
        self.bits & EXPONENT_MASK == EXPONENT_MASK && self.bits & FRACTION_MASK == 0
    }

    /// The pattern is neither a NaN nor an infinity.
    pub open spec fn spec_is_finite(self) -> bool {
        self.bits & EXPONENT_MASK != EXPONENT_MASK
    }

    pub fn new(bits: u64) -> (r: Scalar)
        ensures
            r.bits == bits,
    {
        Scalar { bits }
    }

    pub fn is_nan(&self) -> (r: bool)
        ensures
            r == self.spec_is_nan(),
    {
        self.bits & EXPONENT_MASK == EXPONENT_MASK && self.bits & FRACTION_MASK != 0
    }

    pub fn is_infinite(&self) -> (r: bool)
        ensures
            r == self.spec_is_infinite(),
    {
        self.bits & EXPONENT_MASK == EXPONENT_MASK && self.bits & FRACTION_MASK == 0
    }

    pub fn is_finite(&self) -> (r: bool)
        ensures
            r == self.spec_is_finite(),
    {
        self.bits & EXPONENT_MASK != EXPONENT_MASK
    }

    /// The bit pattern of the value 0.0.
    pub fn zero() -> (r: Scalar)
        ensures
            r.bits == 0,
            r.spec_is_finite(),
    {
        proof {
            assert(0u64 & EXPONENT_MASK != EXPONENT_MASK) by (bit_vector);
        }
        Scalar { bits: 0 }
    }
}

/// Every entry of the sequence is a finite pattern.
pub open spec fn all_finite(s: Seq<Scalar>) -> bool {
    forall|i: int| 0 <= i < s.len() ==> (#[trigger] s[i]).spec_is_finite()
}

/// Whether every entry of `v` is finite, decided entry by entry.
pub fn vec_all_finite(v: &Vec<Scalar>) -> (r: bool)
    ensures
        r == all_finite(v@),
{
    let mut i: usize = 0;
    while i < v.len()
        invariant
            0 <= i <= v@.len(),
            forall|j: int| 0 <= j < i ==> (#[trigger] v@[j]).spec_is_finite(),
        decreases v@.len() - i,
    {
        if !v[i].is_finite() {
            return false;
        }
        i = i + 1;
    }
    true
}

} // verus!
