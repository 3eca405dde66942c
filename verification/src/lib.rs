//! Semantic analysis for a small statically typed language, and the
//! fixed-width bytecode codec of its stack machine.
pub mod ast;
pub mod commons;
pub mod freyr;
pub mod semantic;
pub mod text;
pub mod types;
