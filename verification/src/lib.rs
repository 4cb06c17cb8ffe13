//! Lexical scanner for a small interpreted language.
//!
//! Source text goes in as a `String`; classified `Token` values come out of
//! a pull-based `next_token` operation, one per call, ending in a
//! self-repeating end-of-input token.

pub mod lexer;
pub mod token;
