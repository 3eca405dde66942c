//! The bytecode format of the stack machine: instruction layouts, the
//! encoder and the decoder.
pub mod assembly;
pub mod encoder;
pub mod roundtrip;
pub mod vm;
