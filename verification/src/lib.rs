//! Front end of the glim compiler: a lexer, a table-driven pushdown parser
//! that records a flat derivation trace, and a semantic analyzer that checks
//! the trace.

pub mod compiler;
pub mod lexer;
pub mod parser;
pub mod semantics;
