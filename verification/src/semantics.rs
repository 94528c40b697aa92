//! Semantic analysis of a derivation trace.

pub mod language;
pub mod semantic_errors;
pub mod types;
pub mod validation;
