//! Lexical scanner for a small declarative schema language.
//!
//! The scanner turns a source text, held as a sequence of characters, into a
//! stream of tokens: keywords (`plugin`, `prop`, `model`, `type`, `enum`,
//! `use`), identifiers, attribute identifiers introduced by `@`, string,
//! integer and float literals, the bracket symbols, the markers `?` and `!`,
//! and an end-of-input token. Each token carries its kind, its half-open span
//! in character offsets, and the raw text it was derived from.

pub mod chars;
pub mod laws;
pub mod lexer;
pub mod scan;
pub mod token;
