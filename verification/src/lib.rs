//! A verified lexical scanner for a small programming language.
//!
//! The crate converts raw source text into a sequence of classified tokens.
//! [`tokens`] holds the token model: the closed set of lexical categories and
//! the keyword/identifier/number classification rule. [`scan`] holds the
//! mathematical model of scanning: where a token starts, what text it covers,
//! and where the cursor lands, together with the proved laws of the scanner.
//! [`lexer`] holds the executable scanner, verified against that model.

pub mod lexer;
pub mod scan;
pub mod tokens;
