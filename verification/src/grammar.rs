//! What scanning a source text yields, as mathematics.
//!
//! A source is a sequence of characters. Scanning it is a walk in steps:
//! each step looks at the character under the cursor, takes a run of
//! characters, and makes of it at most one token and any number of
//! diagnostics. Behind the last character stands the end-of-file token.

use vstd::prelude::*;
use crate::chars::{lead_at, number_char, word_char, Lead};
use crate::error::LexError;
use crate::keywords::{lemma_word_kind_not_eof, word_kind};
use crate::position::{column_at, line_at};
use crate::token::{TokenType, TokenView};

verus! {

/// How many characters from `from` on meet `p` without a break.
pub open spec fn run_len(s: Seq<char>, from: int, p: spec_fn(char) -> bool) -> nat
    decreases s.len() - from,
{
    if 0 <= from < s.len() && p(s[from]) {
        1 + run_len(s, from + 1, p)
    } else {
        0
    }
}

/// The length of the run of identifier characters that starts at `from`.
pub open spec fn word_len(s: Seq<char>, from: int) -> nat {
    run_len(s, from, |c: char| word_char(c))
}

/// The length of the run of digits and decimal points that starts at `from`.
pub open spec fn number_len(s: Seq<char>, from: int) -> nat {
    run_len(s, from, |c: char| number_char(c))
}

/// The number of characters from `from` to the next double quote, or to the
/// end of the source.
pub open spec fn unquoted_len(s: Seq<char>, from: int) -> nat {
    run_len(s, from, |c: char| c != '"')
}

/// The number of characters from `from` to the next newline, or to the end of
/// the source.
pub open spec fn rest_of_line(s: Seq<char>, from: int) -> nat {
    run_len(s, from, |c: char| c != '\n')
}

/// The offsets of the decimal points in `s` from `from` up to `to`, ascending.
pub open spec fn points(s: Seq<char>, from: int, to: int) -> Seq<int>
    decreases to - from,
{
    if to <= from {
        Seq::empty()
    } else if s[to - 1] == '.' {
        points(s, from, to - 1).push(to - 1)
    } else {
        points(s, from, to - 1)
    }
}

/// The diagnostic for the character at `at`, which starts nothing.
pub open spec fn stray_at(s: Seq<char>, at: int) -> LexError {
    LexError::UnexpectedCharacter {
        line: line_at(s, at) as u32,
        column: column_at(s, at) as u32,
        character: s[at],
    }
}

/// The diagnostic for the string that opens at `at` and never closes.
pub open spec fn unterminated_at(s: Seq<char>, at: int) -> LexError {
    LexError::UnterminatedString { line: line_at(s, at) as u32, column: column_at(s, at) as u32 }
}

/// The diagnostic for the surplus decimal point at `at`.
pub open spec fn malformed_at(s: Seq<char>, at: int) -> LexError {
    LexError::MalformedNumber { line: line_at(s, at) as u32, column: column_at(s, at) as u32 }
}

/// The diagnostics of the number text from `from` up to `to`: one for each
/// decimal point but the first, in order.
pub open spec fn surplus_points(s: Seq<char>, from: int, to: int) -> Seq<LexError> {
    let dots = points(s, from, to);
    if dots.len() <= 1 {
        Seq::empty()
    } else {
        dots.subrange(1, dots.len() as int).map_values(|at: int| malformed_at(s, at))
    }
}

/// A stretch of the source that makes one token.
pub struct Span {
    /// The kind of the token.
    pub kind: TokenType,
    /// The offset of its first character.
    pub start: int,
    /// The offset behind its last character.
    pub end: int,
}

/// The token that a span of `s` makes: its text, and the line and column of
/// its first character.
pub open spec fn token_of(s: Seq<char>, span: Span) -> TokenView {
    TokenView {
        kind: span.kind,
        lexeme: s.subrange(span.start, span.end),
        line: line_at(s, span.start),
        column: column_at(s, span.start),
    }
}

/// The span of the end-of-file token: empty, behind the last character.
pub open spec fn eof_span(s: Seq<char>) -> Span {
    Span { kind: TokenType::Eof, start: s.len() as int, end: s.len() as int }
}

/// What one step of the scan does.
pub struct Step {
    /// The kind of the token the step makes, if it makes one. The token starts
    /// where the step starts and ends where the step ends.
    pub kind: Option<TokenType>,
    /// The offset behind the last character the step takes.
    pub end: int,
    /// The diagnostics the step records, in order.
    pub faults: Seq<LexError>,
}

/// The step that starts at `at`, an offset inside `s`.
pub open spec fn step(s: Seq<char>, at: int) -> Step {
    let followed_by = |c: char| at + 1 < s.len() && s[at + 1] == c;
    match lead_at(s[at]) {
        Lead::Single(kind) => Step { kind: Some(kind), end: at + 1, faults: Seq::empty() },
        Lead::Paired(alone, with_equal) => if followed_by('=') {
            Step { kind: Some(with_equal), end: at + 2, faults: Seq::empty() }
        } else {
            Step { kind: Some(alone), end: at + 1, faults: Seq::empty() }
        },
        Lead::Slash => if followed_by('/') {
            Step {
                kind: Some(TokenType::Comments),
                end: at + rest_of_line(s, at),
                faults: Seq::empty(),
            }
        } else {
            Step { kind: Some(TokenType::Slash), end: at + 1, faults: Seq::empty() }
        },
        Lead::Quote => {
            let close = at + 1 + unquoted_len(s, at + 1);
            if close < s.len() {
                Step { kind: Some(TokenType::String), end: close + 1, faults: Seq::empty() }
            } else {
                Step { kind: None, end: close, faults: seq![unterminated_at(s, at)] }
            }
        },
        Lead::Blank => Step { kind: None, end: at + 1, faults: Seq::empty() },
        Lead::Digit => {
            let end = at + 1 + number_len(s, at + 1);
            Step { kind: Some(TokenType::Number), end, faults: surplus_points(s, at + 1, end) }
        },
        Lead::Letter => {
            let end = at + 1 + word_len(s, at + 1);
            Step { kind: Some(word_kind(s.subrange(at, end))), end, faults: Seq::empty() }
        },
        Lead::Stray => Step { kind: None, end: at + 1, faults: seq![stray_at(s, at)] },
    }
}

/// The spans of the tokens that scanning `s` from `at` on yields, in order.
pub open spec fn spans_from(s: Seq<char>, at: int) -> Seq<Span>
    decreases s.len() - at,
    when 0 <= at
    via spans_from_decreases
{
    if at >= s.len() {
        seq![eof_span(s)]
    } else {
        let taken = step(s, at);
        match taken.kind {
            Some(kind) => seq![Span { kind, start: at, end: taken.end }] + spans_from(
                s,
                taken.end,
            ),
            None => spans_from(s, taken.end),
        }
    }
}

#[via_fn]
proof fn spans_from_decreases(s: Seq<char>, at: int) {
    if at < s.len() {
        lemma_step_advances(s, at);
    }
}

/// The diagnostics that scanning `s` from `at` on yields, in order.
pub open spec fn faults_from(s: Seq<char>, at: int) -> Seq<LexError>
    decreases s.len() - at,
    when 0 <= at
    via faults_from_decreases
{
    if at >= s.len() {
        Seq::empty()
    } else {
        step(s, at).faults + faults_from(s, step(s, at).end)
    }
}

#[via_fn]
proof fn faults_from_decreases(s: Seq<char>, at: int) {
    if at < s.len() {
        lemma_step_advances(s, at);
    }
}

/// The tokens that scanning `s` from `at` on yields, in order.
pub open spec fn tokens_from(s: Seq<char>, at: int) -> Seq<TokenView> {
    spans_from(s, at).map_values(|span: Span| token_of(s, span))
}

/// The tokens of the source `s`.
pub open spec fn tokens_of(s: Seq<char>) -> Seq<TokenView> {
    tokens_from(s, 0)
}

/// The diagnostics of the source `s`.
pub open spec fn faults_of(s: Seq<char>) -> Seq<LexError> {
    faults_from(s, 0)
}

/// Scanning from `at` on is one step and then scanning from where it ends;
/// behind the source it is the end-of-file token alone.
pub proof fn lemma_scan_unfolds(s: Seq<char>, at: int)
    requires
        0 <= at,
    ensures
        at >= s.len() ==> tokens_from(s, at) == seq![token_of(s, eof_span(s))] && faults_from(
            s,
            at,
        ) == Seq::<LexError>::empty(),
        at < s.len() ==> tokens_from(s, at) == match step(s, at).kind {
            Some(kind) => seq![token_of(s, Span { kind, start: at, end: step(s, at).end })]
                + tokens_from(s, step(s, at).end),
            None => tokens_from(s, step(s, at).end),
        },
        at < s.len() ==> faults_from(s, at) == step(s, at).faults + faults_from(
            s,
            step(s, at).end,
        ),
{
    if at >= s.len() {
        assert(tokens_from(s, at) =~= seq![token_of(s, eof_span(s))]);
    } else {
        let taken = step(s, at);
        match taken.kind {
            Some(kind) => {
                assert(tokens_from(s, at) =~= seq![
                    token_of(s, Span { kind, start: at, end: taken.end }),
                ] + tokens_from(s, taken.end));
            },
            None => {},
        }
    }
}

/// A step never makes an end-of-file token.
pub proof fn lemma_step_not_eof(s: Seq<char>, at: int)
    ensures
        step(s, at).kind != Some(TokenType::Eof),
{
    if lead_at(s[at]) == Lead::Letter {
        lemma_word_kind_not_eof(s.subrange(at, at + 1 + word_len(s, at + 1)));
    }
}

/// A run ends inside the source, or at its end.
pub proof fn lemma_run_len_bound(s: Seq<char>, from: int, p: spec_fn(char) -> bool)
    requires
        0 <= from <= s.len(),
    ensures
        from + run_len(s, from, p) <= s.len(),
    decreases s.len() - from,
{
    if from < s.len() && p(s[from]) {
        lemma_run_len_bound(s, from + 1, p);
    }
}

/// Every step takes at least one character and none behind the source's end.
pub proof fn lemma_step_advances(s: Seq<char>, at: int)
    requires
        0 <= at < s.len(),
    ensures
        at < step(s, at).end <= s.len(),
{
    lemma_run_len_bound(s, at + 1, |c: char| c != '"');
    lemma_run_len_bound(s, at + 1, |c: char| number_char(c));
    lemma_run_len_bound(s, at + 1, |c: char| word_char(c));
    lemma_run_len_bound(s, at, |c: char| c != '\n');
}

} // verus!
