//! The errors that the analysis reports.
pub mod type_errors;
