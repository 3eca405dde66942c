//! Floating-point literals as data.
use vstd::prelude::*;

verus! {

/// A floating-point literal, kept as the 64 bits of its IEEE-754 double.
/// Two literals are equal when their bits are, so a literal can stand in a
/// value that is compared and hashed.
#[derive(Clone, Copy, Debug, PartialEq, Eq, Hash, Structural)]
pub struct Float {
    pub bits: u64,
}

impl Float {
    /// The literal with the given bits.
    pub fn from_bits(bits: u64) -> (value: Float)
        ensures
            value.bits == bits,
    {
        Float { bits }
    }

    /// The bits of the literal.
    pub fn to_bits(&self) -> (bits: u64)
        ensures
            bits == self.bits,
    {
        self.bits
    }
}

} // verus!
