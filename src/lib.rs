//! Front end of a small expression language: a character-level scanner that
//! turns source text into tokens, and a precedence-climbing parser that turns
//! tokens into an arena-indexed syntax tree.

pub mod ast;
pub mod chars;
pub mod interner;
pub mod pretty;
pub mod token;
