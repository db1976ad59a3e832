//! Diagnostics: what the scanner reports about malformed input.

use vstd::prelude::*;

verus! {

/// A malformed piece of source text. None of these stops the scan.
#[derive(Debug, Clone, Copy, PartialEq, Eq, Hash, Structural)]
pub enum LexError {
    /// A character that starts no token and is no whitespace.
    UnexpectedCharacter { line: u32, column: u32, character: char },
    /// A string literal that is still open where the source ends; the position
    /// is that of the opening quote.
    UnterminatedString { line: u32, column: u32 },
    /// A decimal point in a number that already has one; the position is that
    /// of the surplus point.
    MalformedNumber { line: u32, column: u32 },
}

impl LexError {
    /// The line the diagnostic points at.
    pub open spec fn spec_line(self) -> u32 {
        match self {
            LexError::UnexpectedCharacter { line, .. } => line,
            LexError::UnterminatedString { line, .. } => line,
            LexError::MalformedNumber { line, .. } => line,
        }
    }

    /// The column the diagnostic points at.
    pub open spec fn spec_column(self) -> u32 {
        match self {
            LexError::UnexpectedCharacter { column, .. } => column,
            LexError::UnterminatedString { column, .. } => column,
            LexError::MalformedNumber { column, .. } => column,
        }
    }

    /// The line the diagnostic points at, counted from 1.
    #[verifier::when_used_as_spec(spec_line)]
    pub fn line(self) -> (r: u32)
        ensures
            r == self.spec_line(),
    {
        match self {
            LexError::UnexpectedCharacter { line, .. } => line,
            LexError::UnterminatedString { line, .. } => line,
            LexError::MalformedNumber { line, .. } => line,
        }
    }

    /// The column the diagnostic points at, counted from 1.
    #[verifier::when_used_as_spec(spec_column)]
    pub fn column(self) -> (r: u32)
        ensures
            r == self.spec_column(),
    {
        match self {
            LexError::UnexpectedCharacter { column, .. } => column,
            LexError::UnterminatedString { column, .. } => column,
            LexError::MalformedNumber { column, .. } => column,
        }
    }
}

} // verus!
