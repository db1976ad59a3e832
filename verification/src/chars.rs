//! Character classes: what a character may start, and what may follow it.

use vstd::prelude::*;
use crate::token::TokenType;

verus! {

/// What `char::is_alphabetic` answers for `c`: whether `c` has the Unicode
/// property Alphabetic.
pub uninterp spec fn alphabetic(c: char) -> bool;

/// What `char::is_alphanumeric` answers for `c`: whether `c` is alphabetic or
/// numeric in Unicode's sense.
pub uninterp spec fn alphanumeric(c: char) -> bool;

/// `char::is_alphabetic` depends on the character alone; its answer is named
/// [`alphabetic`]. Nothing more is claimed of it.
pub assume_specification[ char::is_alphabetic ](c: char) -> (r: bool)
    ensures
        r == alphabetic(c),
;

/// `char::is_alphanumeric` depends on the character alone; its answer is named
/// [`alphanumeric`]. Nothing more is claimed of it.
pub assume_specification[ char::is_alphanumeric ](c: char) -> (r: bool)
    ensures
        r == alphanumeric(c),
;

/// A decimal digit, `0` to `9`.
pub open spec fn is_digit(c: char) -> bool {
    '0' <= c <= '9'
}

/// A character that goes on a number: a decimal digit or a decimal point.
pub open spec fn number_char(c: char) -> bool {
    is_digit(c) || c == '.'
}

/// A character that goes on an identifier: alphanumeric, or an underscore.
pub open spec fn word_char(c: char) -> bool {
    alphanumeric(c) || c == '_'
}

/// A character that is skipped between tokens: space, tab or newline.
pub open spec fn is_blank(c: char) -> bool {
    c == ' ' || c == '\t' || c == '\n'
}

/// What the character at the head of a scan step starts.
#[derive(Debug, Clone, Copy, PartialEq, Eq, Structural)]
pub enum Lead {
    /// A token of this kind, made of the one character.
    Single(TokenType),
    /// A token of the first kind, or, where `=` follows, one of the second
    /// kind made of both characters.
    Paired(TokenType, TokenType),
    /// A comment, where another `/` follows; else a slash token.
    Slash,
    /// A string literal.
    Quote,
    /// Nothing: whitespace or a newline.
    Blank,
    /// A number.
    Digit,
    /// An identifier or a keyword.
    Letter,
    /// Nothing the language knows.
    Stray,
}

/// What `c` starts, where `letter` tells whether `c` is alphabetic.
/// Punctuation, whitespace and digits are told by the character itself and
/// come first.
pub open spec fn lead(c: char, letter: bool) -> Lead {
    if c == '[' || c == '{' {
        Lead::Single(TokenType::LeftBrace)
    } else if c == ']' || c == '}' {
        Lead::Single(TokenType::RightBrace)
    } else if c == '(' {
        Lead::Single(TokenType::LeftParen)
    } else if c == ')' {
        Lead::Single(TokenType::RightParen)
    } else if c == ',' {
        Lead::Single(TokenType::Comma)
    } else if c == '.' {
        Lead::Single(TokenType::Dot)
    } else if c == '+' {
        Lead::Single(TokenType::Plus)
    } else if c == '-' {
        Lead::Single(TokenType::Minus)
    } else if c == ';' {
        Lead::Single(TokenType::Semicolon)
    } else if c == '*' {
        Lead::Single(TokenType::Star)
    } else if c == '!' {
        Lead::Paired(TokenType::Bang, TokenType::BangEqual)
    } else if c == '=' {
        Lead::Paired(TokenType::Equal, TokenType::EqualEqual)
    } else if c == '<' {
        Lead::Paired(TokenType::Less, TokenType::LessEqual)
    } else if c == '>' {
        Lead::Paired(TokenType::Greater, TokenType::GreaterEqual)
    } else if c == '/' {
        Lead::Slash
    } else if c == '"' {
        Lead::Quote
    } else if is_blank(c) {
        Lead::Blank
    } else if is_digit(c) {
        Lead::Digit
    } else if letter {
        Lead::Letter
    } else {
        Lead::Stray
    }
}

/// What `c` starts in a source text.
pub open spec fn lead_at(c: char) -> Lead {
    lead(c, alphabetic(c))
}

/// Tells what `c` starts, given whether it is alphabetic.
pub fn lead_of(c: char, letter: bool) -> (r: Lead)
    ensures
        r == lead(c, letter),
{
    match c {
        '[' | '{' => Lead::Single(TokenType::LeftBrace),
        ']' | '}' => Lead::Single(TokenType::RightBrace),
        '(' => Lead::Single(TokenType::LeftParen),
        ')' => Lead::Single(TokenType::RightParen),
        ',' => Lead::Single(TokenType::Comma),
        '.' => Lead::Single(TokenType::Dot),
        '+' => Lead::Single(TokenType::Plus),
        '-' => Lead::Single(TokenType::Minus),
        ';' => Lead::Single(TokenType::Semicolon),
        '*' => Lead::Single(TokenType::Star),
        '!' => Lead::Paired(TokenType::Bang, TokenType::BangEqual),
        '=' => Lead::Paired(TokenType::Equal, TokenType::EqualEqual),
        '<' => Lead::Paired(TokenType::Less, TokenType::LessEqual),
        '>' => Lead::Paired(TokenType::Greater, TokenType::GreaterEqual),
        '/' => Lead::Slash,
        '"' => Lead::Quote,
        ' ' | '\t' | '\n' => Lead::Blank,
        _ => {
            if is_decimal_digit(c) {
                Lead::Digit
            } else if letter {
                Lead::Letter
            } else {
                Lead::Stray
            }
        },
    }
}

/// Tells what `c` starts in a source text.
pub fn classify(c: char) -> (r: Lead)
    ensures
        r == lead_at(c),
{
    lead_of(c, c.is_alphabetic())
}

/// Tells whether `c` is a decimal digit.
pub fn is_decimal_digit(c: char) -> (r: bool)
    ensures
        r == is_digit(c),
{
    '0' <= c && c <= '9'
}

/// Tells whether `c` goes on a number.
pub fn is_number_char(c: char) -> (r: bool)
    ensures
        r == number_char(c),
{
    is_decimal_digit(c) || c == '.'
}

/// Tells whether `c` goes on an identifier.
pub fn is_word_char(c: char) -> (r: bool)
    ensures
        r == word_char(c),
{
    c.is_alphanumeric() || c == '_'
}

} // verus!
