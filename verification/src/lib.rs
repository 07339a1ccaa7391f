//! A lexical scanner for a small C-like scripting language.
//!
//! The scanner turns raw source text into a stream of classified tokens:
//! keywords, identifiers, integer and string literals, operators,
//! punctuation, and a marker token for single illegal characters.

pub mod lexer;
pub mod tokens;
