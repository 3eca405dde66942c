//! The semantic passes: lowering to the intermediate representation,
//! name collection, first-assignment promotion, the scope check and type
//! inference.
pub mod analysis;
pub mod first_assignments;
pub mod hir;
pub mod lowering;
pub mod lowering_check;
pub mod lowering_laws;
pub mod lowering_rules;
pub mod name_registry;
pub mod names;
pub mod search;
pub mod type_db;
pub mod type_inference;
pub mod type_inference_laws;
pub mod type_inference_rules;
pub mod undeclared_vars;
