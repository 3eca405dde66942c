//! Small types shared by the front end and the analysis.
pub mod float;
