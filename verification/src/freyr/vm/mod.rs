//! The instruction set of the stack machine.
pub mod bits;
pub mod instructions;
