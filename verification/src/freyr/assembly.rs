//! Instructions as the assembler hands them to the encoder.
use vstd::prelude::*;

verus! {

/// An instruction in assembly form.
#[derive(Clone, Copy, Debug, PartialEq, Eq)]
pub enum AssemblyInstruction {
    /// Moves the stack pointer by `bytes`.
    StackOffset { bytes: u32 },
    /// Does nothing.
    Noop,
    /// Returns to the caller.
    Return,
}

} // verus!
