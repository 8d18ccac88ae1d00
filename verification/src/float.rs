//! Floating-point values as the machine carries them.
//!
//! The machine moves floating-point values between registers and maps but
//! never computes with them: arithmetic, comparison and conversion are the
//! driver's work. A value is therefore held as the 64 bits of its IEEE-754
//! binary64 form.

use vstd::prelude::*;

verus! {

/// An IEEE-754 binary64 value, as its bits.
#[derive(Clone, Copy, Debug)]
pub struct Float {
    pub bits: u64,
}

/// The sign bit of a binary64 value.
pub const SIGN_BIT: u64 = 0x8000_0000_0000_0000;

impl Float {
    /// Positive zero: every bit clear.
    pub open spec fn spec_zero() -> Float {
        Float { bits: 0 }
    }

    /// The negation of the value: the same bits with the sign bit flipped.
    pub open spec fn spec_neg(self) -> Float {
        Float { bits: self.bits ^ SIGN_BIT }
    }

    /// The value with the given bits.
    pub fn from_bits(bits: u64) -> (f: Float)
        ensures
            f.bits == bits,
    {
        Float { bits }
    }

    /// Positive zero.
    pub fn zero() -> (f: Float)
        ensures
            f == Float::spec_zero(),
    {
        Float { bits: 0 }
    }

    /// The negation of the value. Negation never rounds and never traps: it
    /// flips the sign, of zeros, infinities and NaNs too.
    pub fn neg(self) -> (f: Float)
        ensures
            f == self.spec_neg(),
    {
        Float { bits: self.bits ^ SIGN_BIT }
    }
}

} // verus!
