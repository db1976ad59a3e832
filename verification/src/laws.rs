//! What holds of the scan of every source text.

use vstd::prelude::*;
use crate::chars::{is_blank, lead_at, Lead};
use crate::error::LexError;
use crate::grammar::{
    eof_span, faults_from, lemma_scan_unfolds, lemma_step_advances, lemma_step_not_eof,
    spans_from, step, stray_at, token_of, tokens_from, unterminated_at, Span,
};
use crate::position::{lemma_located_unique, located};
use crate::token::{views, Token, TokenType};
use crate::tokenizer::Tokenizer;

verus! {

/// From the offset `at` on, the source reads `text`.
pub open spec fn reads_at(s: Seq<char>, at: int, text: Seq<char>) -> bool {
    &&& 0 <= at
    &&& at + text.len() <= s.len()
    &&& s.subrange(at, at + text.len()) == text
}

/// The tokens scanned from any offset end in the end-of-file token, and hold
/// no other.
pub proof fn lemma_eof_closes(s: Seq<char>, at: int)
    requires
        0 <= at,
    ensures
        tokens_from(s, at).len() >= 1,
        tokens_from(s, at).last().kind == TokenType::Eof,
        forall|i: int|
            0 <= i < tokens_from(s, at).len() - 1 ==> (#[trigger] tokens_from(s, at)[i]).kind
                != TokenType::Eof,
    decreases s.len() - at,
{
    lemma_scan_unfolds(s, at);
    if at < s.len() {
        lemma_step_advances(s, at);
        lemma_step_not_eof(s, at);
        lemma_eof_closes(s, step(s, at).end);
    }
}

/// A source of nothing but spaces, tabs and newlines scans to the end-of-file
/// token alone, without a diagnostic. So does the empty source.
pub proof fn lemma_blank_source(s: Seq<char>, at: int)
    requires
        0 <= at,
        forall|i: int| 0 <= i < s.len() ==> is_blank(#[trigger] s[i]),
    ensures
        tokens_from(s, at) == seq![token_of(s, eof_span(s))],
        tokens_from(s, at).len() == 1,
        tokens_from(s, at)[0].kind == TokenType::Eof,
        faults_from(s, at) == Seq::<LexError>::empty(),
    decreases s.len() - at,
{
    lemma_scan_unfolds(s, at);
    if at < s.len() {
        assert(is_blank(s[at]));
        assert(lead_at(s[at]) == Lead::Blank);
        lemma_blank_source(s, at + 1);
        assert(faults_from(s, at) =~= Seq::<LexError>::empty());
    }
}

/// The spans scanned from `at` on lie in the source behind `at`, each with
/// its start before its end or on it, and come in the order of the source
/// without overlap.
pub proof fn lemma_spans_ordered(s: Seq<char>, at: int)
    requires
        0 <= at <= s.len(),
    ensures
        forall|i: int|
            0 <= i < spans_from(s, at).len() ==> at <= (#[trigger] spans_from(s, at)[i]).start
                <= spans_from(s, at)[i].end <= s.len(),
        forall|i: int, j: int|
            0 <= i < j < spans_from(s, at).len() ==> (#[trigger] spans_from(s, at)[i]).end <= (
            #[trigger] spans_from(s, at)[j]).start,
    decreases s.len() - at,
{
    if at < s.len() {
        lemma_step_advances(s, at);
        lemma_spans_ordered(s, step(s, at).end);
    }
}

/// The offset `p` lies in one of the spans.
pub open spec fn in_some_span(spans: Seq<Span>, p: int) -> bool {
    exists|i: int| 0 <= i < spans.len() && (#[trigger] spans[i]).start <= p < spans[i].end
}

/// No character is dropped in silence: every character that is scanned is
/// part of a token, or is whitespace, or is reported, either as an unexpected
/// character or as part of a string that opens before it and never closes.
pub proof fn lemma_nothing_dropped(s: Seq<char>, at: int, p: int)
    requires
        0 <= at <= p < s.len(),
    ensures
        in_some_span(spans_from(s, at), p) || is_blank(s[p]) || faults_from(s, at).contains(
            stray_at(s, p),
        ) || exists|q: int|
            at <= q <= p && #[trigger] faults_from(s, at).contains(unterminated_at(s, q)),
    decreases s.len() - at,
{
    let taken = step(s, at);
    let spans = spans_from(s, at);
    let faults = faults_from(s, at);
    let rest = spans_from(s, taken.end);
    let later = faults_from(s, taken.end);
    lemma_step_advances(s, at);
    assert(faults == taken.faults + later);
    if p < taken.end {
        match taken.kind {
            Some(kind) => {
                assert(spans == seq![Span { kind, start: at, end: taken.end }] + rest);
                assert(spans[0].start <= p < spans[0].end);
                assert(in_some_span(spans, p));
            },
            None => {
                if lead_at(s[at]) == Lead::Quote {
                    assert(faults[0] == unterminated_at(s, at));
                    assert(faults.contains(unterminated_at(s, at)));
                } else if lead_at(s[at]) == Lead::Stray {
                    assert(faults[0] == stray_at(s, at));
                    assert(faults.contains(stray_at(s, p)));
                } else {
                    assert(is_blank(s[p]));
                }
            },
        }
    } else {
        lemma_nothing_dropped(s, taken.end, p);
        if in_some_span(rest, p) {
            let i = choose|i: int|
                0 <= i < rest.len() && (#[trigger] rest[i]).start <= p < rest[i].end;
            match taken.kind {
                Some(kind) => {
                    assert(spans == seq![Span { kind, start: at, end: taken.end }] + rest);
                    assert(spans[i + 1] == rest[i]);
                },
                None => {
                    assert(spans == rest);
                },
            }
            assert(in_some_span(spans, p));
        } else if later.contains(stray_at(s, p)) {
            let k = choose|k: int| 0 <= k < later.len() && later[k] == stray_at(s, p);
            assert(faults[taken.faults.len() + k] == stray_at(s, p));
            assert(faults.contains(stray_at(s, p)));
        } else if !is_blank(s[p]) {
            let q = choose|q: int|
                taken.end <= q <= p && #[trigger] later.contains(unterminated_at(s, q));
            let k = choose|k: int| 0 <= k < later.len() && later[k] == unterminated_at(s, q);
            assert(faults[taken.faults.len() + k] == unterminated_at(s, q));
            assert(at <= q <= p && faults.contains(unterminated_at(s, q)));
        }
    }
}

/// Round trip: every token scanned from a source lies where its line and
/// column say. Some offset of the source has that line and column, only one
/// has, and from it on the source reads the token's text. This holds of
/// comments and of the end-of-file token too, whose text is empty.
pub proof fn lemma_round_trip(s: Seq<char>, at: int, i: int)
    requires
        0 <= at <= s.len(),
        0 <= i < tokens_from(s, at).len(),
    ensures
        exists|offset: int| #[trigger]
            located(s, offset, tokens_from(s, at)[i].line, tokens_from(s, at)[i].column),
        forall|offset: int| #[trigger]
            located(s, offset, tokens_from(s, at)[i].line, tokens_from(s, at)[i].column)
                ==> reads_at(s, offset, tokens_from(s, at)[i].lexeme),
{
    let span = spans_from(s, at)[i];
    let token = tokens_from(s, at)[i];
    lemma_spans_ordered(s, at);
    assert(token == token_of(s, span));
    assert(located(s, span.start, token.line, token.column));
    assert(reads_at(s, span.start, token.lexeme));
    assert forall|offset: int| #[trigger]
        located(s, offset, token.line, token.column) implies reads_at(s, offset, token.lexeme) by {
        lemma_located_unique(s, offset, span.start, token.line, token.column);
    }
}

/// Scanning is repeatable: two tokenizers that hold the same source and
/// stand at the same offset yield the same tokens and the same diagnostics,
/// whatever else either has scanned or reported before.
pub proof fn lemma_scan_repeatable(
    one: Tokenizer,
    other: Tokenizer,
    first: Seq<Token>,
    second: Seq<Token>,
    found_first: Seq<LexError>,
    found_second: Seq<LexError>,
)
    requires
        one@.source == other@.source,
        one@.position == other@.position,
        views(first) == tokens_from(one@.source, one@.position as int),
        views(second) == tokens_from(other@.source, other@.position as int),
        found_first == faults_from(one@.source, one@.position as int),
        found_second == faults_from(other@.source, other@.position as int),
    ensures
        views(first) == views(second),
        found_first == found_second,
{
}

} // verus!
