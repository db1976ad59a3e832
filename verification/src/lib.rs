//! A scanner for a small Lox-family scripting language.
//!
//! The scanner walks a source text once and turns it into a sequence of
//! classified, positioned tokens that always ends in an end-of-file token.
//! Malformed input never stops the walk: every problem is recorded as a
//! diagnostic and scanning goes on behind it.
//!
//! What the scanner produces is defined mathematically in [`grammar`], over
//! the source as a sequence of characters; [`tokenizer`] holds the executable
//! scanner, proved to produce exactly that; [`laws`] states what follows for
//! every source text.

pub mod chars;
pub mod error;
pub mod grammar;
pub mod keywords;
pub mod laws;
pub mod position;
pub mod token;
pub mod tokenizer;
