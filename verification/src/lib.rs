//! Lexical analysis for a small C-like language.
//!
//! The crate turns raw source text into a stream of classified tokens:
//! keywords, identifiers, numeric and string literals, operators and
//! punctuation. Comments (line, hash, and arbitrarily nested block
//! comments) and whitespace are skipped before each token boundary.

pub mod decode;
pub mod laws;
pub mod lexer;
pub mod model;
pub mod token;
