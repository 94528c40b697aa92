//! The lexer and its vocabulary: reserved words, operators, separators and
//! tokens.

pub mod numerals;
pub mod reserved;
pub mod strings;
pub mod tokenization;
pub mod tokens;
