//! Assembles SQL statement text from a table model and a chain of clauses.
//!
//! `factory` starts a statement from a table model, `chain` appends clauses
//! and compiles the chain into one string, `laws` states what the result is
//! for common statement shapes and how appends compose.
pub mod text;
pub mod chain;
pub mod factory;
pub mod laws;
