//! The scanner: a cursor over the source, and the walk that makes tokens.

use vstd::prelude::*;
use vstd::hash_map::StringHashMap;
use crate::chars::{classify, is_number_char, is_word_char, Lead};
use crate::error::LexError;
use crate::grammar::{
    eof_span, faults_from, lemma_scan_unfolds, number_len, points, rest_of_line, step,
    surplus_points, token_of, tokens_from, unquoted_len, unterminated_at, word_len, Span,
};
use crate::laws::lemma_eof_closes;
use crate::keywords::{keyword_set, keyword_table, lookup, word_kind};
use crate::position::{column_at, lemma_position_bounds, line_at};
use crate::token::{extended_by, lemma_views_extended, views, Token, TokenType, TokenView};

verus! {

/// A tokenizer as a mathematical value.
pub struct TokenizerView {
    /// The source text.
    pub source: Seq<char>,
    /// The cursor: the offset of the character that is read next.
    pub position: nat,
    /// The diagnostics recorded so far, in order.
    pub reported: Seq<LexError>,
}

/// A cursor over a source text. It knows its line and column, and keeps the
/// diagnostics of what it has scanned.
pub struct Tokenizer {
    source: Vec<char>,
    current: usize,
    line: u32,
    column: u32,
    keywords: StringHashMap<TokenType>,
    errors: Vec<LexError>,
}

impl View for Tokenizer {
    type V = TokenizerView;

    closed spec fn view(&self) -> TokenizerView {
        TokenizerView {
            source: self.source@,
            position: self.current as nat,
            reported: self.errors@,
        }
    }
}

impl Tokenizer {
    /// The line the tokenizer holds for its cursor.
    pub closed spec fn held_line(&self) -> nat {
        self.line as nat
    }

    /// The column the tokenizer holds for its cursor.
    pub closed spec fn held_column(&self) -> nat {
        self.column as nat
    }

    /// The keyword table the tokenizer holds.
    pub closed spec fn held_keywords(&self) -> Map<Seq<char>, TokenType> {
        self.keywords@
    }

    /// The tokenizer is well formed: its cursor lies in the source or just
    /// behind it, its line and column are those of the cursor, every line and
    /// column of the source fits the 32 bits that positions have, and its
    /// keyword table is the language's.
    pub open spec fn wf(&self) -> bool {
        &&& self@.position <= self@.source.len() < u32::MAX
        &&& self.held_line() == line_at(self@.source, self@.position as int)
        &&& self.held_column() == column_at(self@.source, self@.position as int)
        &&& self.held_keywords() == keyword_table()
    }

    /// A tokenizer at the start of `src`, with nothing reported. The source
    /// has fewer than `u32::MAX` characters, so that every line and column in
    /// it fits the 32 bits that positions have.
    pub fn new(src: String) -> (t: Self)
        requires
            src@.len() < u32::MAX,
        ensures
            t.wf(),
            t@ == (TokenizerView { source: src@, position: 0, reported: Seq::empty() }),
    {
        let mut source: Vec<char> = Vec::new();
        for character in it: src.as_str().chars()
            invariant
                source@ == it.seq().take(it.index() as int),
        {
            source.push(character);
        }
        assert(source@ == src@);
        Tokenizer {
            source,
            current: 0,
            line: 1,
            column: 1,
            keywords: keyword_set(),
            errors: Vec::new(),
        }
    }

    /// The character under the cursor, or `None` behind the end of the source.
    pub fn current(&self) -> (r: Option<char>)
        requires
            self.wf(),
        ensures
            r == if self@.position < self@.source.len() {
                Some(self@.source[self@.position as int])
            } else {
                None
            },
    {
        if self.current < self.source.len() {
            Some(self.source[self.current])
        } else {
            None
        }
    }

    /// The character behind the one under the cursor, or `None` where the
    /// source has none there.
    pub fn peek(&self) -> (r: Option<char>)
        requires
            self.wf(),
        ensures
            r == if self@.position + 1 < self@.source.len() {
                Some(self@.source[self@.position as int + 1])
            } else {
                None
            },
    {
        if self.current < self.source.len() && self.current + 1 < self.source.len() {
            Some(self.source[self.current + 1])
        } else {
            None
        }
    }

    /// Moves the cursor over one character, if there is one. Behind a newline
    /// the line grows by one and the column is 1 again; behind any other
    /// character the column grows by one.
    pub fn advance(&mut self)
        requires
            old(self).wf(),
        ensures
            final(self).wf(),
            final(self)@ == (TokenizerView {
                position: if old(self)@.position < old(self)@.source.len() {
                    old(self)@.position + 1
                } else {
                    old(self)@.position
                },
                ..old(self)@
            }),
    {
        if self.current < self.source.len() {
            proof {
                lemma_position_bounds(self.source@, self.current as int);
            }
            let character = self.source[self.current];
            self.current += 1;
            if character == '\n' {
                self.line += 1;
                self.column = 1;
            } else {
                self.column += 1;
            }
        }
    }

    /// The offset of the cursor into the source, in characters.
    pub fn position(&self) -> (r: usize)
        ensures
            r == self@.position,
    {
        self.current
    }

    /// The line of the cursor, counted from 1.
    pub fn line(&self) -> (r: u32)
        requires
            self.wf(),
        ensures
            r == line_at(self@.source, self@.position as int),
    {
        self.line
    }

    /// The column of the cursor, counted from 1 on each line.
    pub fn column(&self) -> (r: u32)
        requires
            self.wf(),
        ensures
            r == column_at(self@.source, self@.position as int),
    {
        self.column
    }

    /// The diagnostics recorded so far, in the order of the source.
    pub fn diagnostics(&self) -> (r: &Vec<LexError>)
        ensures
            r@ == self@.reported,
    {
        &self.errors
    }

    /// Puts a token of the given kind, position and text behind `tokens`.
    fn push_tokens(
        &self,
        tokens: &mut Vec<Token>,
        token_type: TokenType,
        column: u32,
        literal: String,
        line: u32,
    )
        ensures
            extended_by(
                final(tokens)@,
                old(tokens)@,
                TokenView {
                    kind: token_type,
                    lexeme: literal@,
                    line: line as nat,
                    column: column as nat,
                },
            ),
    {
        let token = Token::new(token_type, line, literal, column);
        tokens.push(token);
        assert(tokens@.drop_last() =~= old(tokens)@);
    }

    /// Scans an operator that `=` may follow: takes the character under the
    /// cursor, and the `=` behind it where there is one, and adds the token
    /// of the kind `alone` or `with_equal`.
    fn check_if_other_and_add(
        &mut self,
        tokens: &mut Vec<Token>,
        alone: TokenType,
        with_equal: TokenType,
    )
        requires
            old(self).wf(),
            old(self)@.position < old(self)@.source.len(),
        ensures
            final(self).wf(),
            ({
                let s = old(self)@.source;
                let at = old(self)@.position as int;
                let paired = at + 1 < s.len() && s[at + 1] == '=';
                let end = if paired {
                    at + 2
                } else {
                    at + 1
                };
                let kind = if paired {
                    with_equal
                } else {
                    alone
                };
                &&& final(self)@ == (TokenizerView { position: end as nat, ..old(self)@ })
                &&& extended_by(
                    final(tokens)@,
                    old(tokens)@,
                    token_of(s, Span { kind, start: at, end }),
                )
            }),
    {
        let ghost s = self@.source;
        let ghost at = self@.position as int;
        let line = self.line;
        let column = self.column;
        let mut literal = String::new();
        literal.push(self.source[self.current]);
        let mut token_type = alone;
        let next = self.peek();
        self.advance();
        if next == Some('=') {
            literal.push('=');
            token_type = with_equal;
            self.advance();
            assert(literal@ =~= s.subrange(at, at + 2));
        } else {
            assert(literal@ =~= s.subrange(at, at + 1));
        }
        self.push_tokens(tokens, token_type, column, literal, line);
    }

    /// Scans a string literal whose opening quote is under the cursor: takes
    /// everything up to the closing quote and adds a string token with the
    /// quotes in its text. Where the source ends before the string closes,
    /// takes the rest of the source, adds no token, and records a diagnostic
    /// at the opening quote.
    fn string_literal(&mut self, tokens: &mut Vec<Token>)
        requires
            old(self).wf(),
            old(self)@.position < old(self)@.source.len(),
        ensures
            final(self).wf(),
            final(self)@.source == old(self)@.source,
            ({
                let s = old(self)@.source;
                let at = old(self)@.position as int;
                let close = at + 1 + unquoted_len(s, at + 1);
                if close < s.len() {
                    &&& final(self)@.position == close + 1
                    &&& final(self)@.reported == old(self)@.reported
                    &&& extended_by(
                        final(tokens)@,
                        old(tokens)@,
                        token_of(s, Span { kind: TokenType::String, start: at, end: close + 1 }),
                    )
                } else {
                    &&& final(self)@.position == close
                    &&& final(self)@.reported == old(self)@.reported.push(unterminated_at(s, at))
                    &&& final(tokens)@ == old(tokens)@
                }
            }),
    {
        let ghost s = self@.source;
        let ghost at = self@.position as int;
        let line = self.line;
        let column = self.column;
        let mut literal = String::new();
        literal.push(self.source[self.current]);
        self.advance();
        assert(literal@ =~= s.subrange(at, at + 1));
        let mut closed = false;
        loop
            invariant_except_break
                !closed,
                self@.position + unquoted_len(s, self@.position as int) == at + 1 + unquoted_len(
                    s,
                    at + 1,
                ),
            invariant
                self.wf(),
                self@.source == s,
                self@.reported == old(self)@.reported,
                0 <= at < self@.position <= s.len(),
                literal@ == s.subrange(at, self@.position as int),
            ensures
                closed ==> self@.position == at + 1 + unquoted_len(s, at + 1) + 1,
                !closed ==> self@.position == at + 1 + unquoted_len(s, at + 1) == s.len(),
            decreases s.len() - self@.position,
        {
            match self.current() {
                Some(character) => {
                    literal.push(character);
                    self.advance();
                    assert(literal@ =~= s.subrange(at, self@.position as int));
                    if character == '"' {
                        closed = true;
                        break ;
                    }
                },
                None => {
                    break ;
                },
            }
        }
        if closed {
            self.push_tokens(tokens, TokenType::String, column, literal, line);
        } else {
            self.errors.push(LexError::UnterminatedString { line, column });
        }
    }

    /// Scans a number whose first digit is under the cursor: takes the digit
    /// and the run of digits and decimal points behind it, and adds a number
    /// token with that text. Records a diagnostic at each decimal point of the
    /// run but the first.
    fn number(&mut self, tokens: &mut Vec<Token>)
        requires
            old(self).wf(),
            old(self)@.position < old(self)@.source.len(),
        ensures
            final(self).wf(),
            ({
                let s = old(self)@.source;
                let at = old(self)@.position as int;
                let end = at + 1 + number_len(s, at + 1);
                &&& final(self)@ == (TokenizerView {
                    position: end as nat,
                    reported: old(self)@.reported + surplus_points(s, at + 1, end),
                    ..old(self)@
                })
                &&& extended_by(
                    final(tokens)@,
                    old(tokens)@,
                    token_of(s, Span { kind: TokenType::Number, start: at, end }),
                )
            }),
    {
        let ghost s = self@.source;
        let ghost at = self@.position as int;
        let line = self.line;
        let column = self.column;
        let mut literal = String::new();
        literal.push(self.source[self.current]);
        self.advance();
        assert(literal@ =~= s.subrange(at, at + 1));
        assert(self@.reported =~= old(self)@.reported + surplus_points(s, at + 1, at + 1));
        let mut is_float = false;
        loop
            invariant
                self.wf(),
                self@.source == s,
                0 <= at < self@.position <= s.len(),
                literal@ == s.subrange(at, self@.position as int),
                self@.position + number_len(s, self@.position as int) == at + 1 + number_len(
                    s,
                    at + 1,
                ),
                is_float == (points(s, at + 1, self@.position as int).len() > 0),
                self@.reported == old(self)@.reported + surplus_points(
                    s,
                    at + 1,
                    self@.position as int,
                ),
            ensures
                number_len(s, self@.position as int) == 0,
            decreases s.len() - self@.position,
        {
            match self.current() {
                Some(character) => {
                    if is_number_char(character) {
                        let ghost here = self@.position as int;
                        let ghost dots = points(s, at + 1, here);
                        if character == '.' {
                            if is_float {
                                self.errors.push(
                                    LexError::MalformedNumber {
                                        line: self.line,
                                        column: self.column,
                                    },
                                );
                                assert(dots.push(here).subrange(1, dots.len() as int + 1) =~= dots.subrange(
                                    1,
                                    dots.len() as int,
                                ).push(here));
                            } else {
                                is_float = true;
                            }
                        }
                        literal.push(character);
                        self.advance();
                        assert(literal@ =~= s.subrange(at, self@.position as int));
                        assert(self@.reported =~= old(self)@.reported + surplus_points(
                            s,
                            at + 1,
                            self@.position as int,
                        ));
                    } else {
                        break ;
                    }
                },
                None => {
                    break ;
                },
            }
        }
        self.push_tokens(tokens, TokenType::Number, column, literal, line);
    }

    /// Scans an identifier or a keyword whose first character is under the
    /// cursor: takes the character and the run of identifier characters
    /// behind it, and adds the token of the keyword that the text spells, or
    /// an identifier token.
    pub fn literals(&mut self, tokens: &mut Vec<Token>)
        requires
            old(self).wf(),
            old(self)@.position < old(self)@.source.len(),
        ensures
            final(self).wf(),
            ({
                let s = old(self)@.source;
                let at = old(self)@.position as int;
                let end = at + 1 + word_len(s, at + 1);
                &&& final(self)@ == (TokenizerView { position: end as nat, ..old(self)@ })
                &&& extended_by(
                    final(tokens)@,
                    old(tokens)@,
                    token_of(s, Span { kind: word_kind(s.subrange(at, end)), start: at, end }),
                )
            }),
    {
        let ghost s = self@.source;
        let ghost at = self@.position as int;
        let line = self.line;
        let column = self.column;
        let mut literal = String::new();
        literal.push(self.source[self.current]);
        self.advance();
        assert(literal@ =~= s.subrange(at, at + 1));
        loop
            invariant
                self.wf(),
                self@.source == s,
                self@.reported == old(self)@.reported,
                0 <= at < self@.position <= s.len(),
                literal@ == s.subrange(at, self@.position as int),
                self@.position + word_len(s, self@.position as int) == at + 1 + word_len(
                    s,
                    at + 1,
                ),
            ensures
                word_len(s, self@.position as int) == 0,
            decreases s.len() - self@.position,
        {
            match self.current() {
                Some(character) => {
                    if is_word_char(character) {
                        literal.push(character);
                        self.advance();
                        assert(literal@ =~= s.subrange(at, self@.position as int));
                    } else {
                        break ;
                    }
                },
                None => {
                    break ;
                },
            }
        }
        let token_type = lookup(&self.keywords, literal.as_str());
        self.push_tokens(tokens, token_type, column, literal, line);
    }

    /// Scans a comment: takes everything from the cursor up to the next
    /// newline, or to the end of the source, and adds a comment token with
    /// that text. The newline stays under the cursor.
    pub fn comments(&mut self, tokens: &mut Vec<Token>)
        requires
            old(self).wf(),
        ensures
            final(self).wf(),
            ({
                let s = old(self)@.source;
                let at = old(self)@.position as int;
                let end = at + rest_of_line(s, at);
                &&& final(self)@ == (TokenizerView { position: end as nat, ..old(self)@ })
                &&& extended_by(
                    final(tokens)@,
                    old(tokens)@,
                    token_of(s, Span { kind: TokenType::Comments, start: at, end }),
                )
            }),
    {
        let ghost s = self@.source;
        let ghost at = self@.position as int;
        let line = self.line;
        let column = self.column;
        let mut literal = String::new();
        assert(literal@ =~= s.subrange(at, at));
        loop
            invariant
                self.wf(),
                self@.source == s,
                self@.reported == old(self)@.reported,
                0 <= at <= self@.position <= s.len(),
                literal@ == s.subrange(at, self@.position as int),
                self@.position + rest_of_line(s, self@.position as int) == at + rest_of_line(s, at),
            ensures
                rest_of_line(s, self@.position as int) == 0,
            decreases s.len() - self@.position,
        {
            match self.current() {
                Some(character) => {
                    if character != '\n' {
                        literal.push(character);
                        self.advance();
                        assert(literal@ =~= s.subrange(at, self@.position as int));
                    } else {
                        break ;
                    }
                },
                None => {
                    break ;
                },
            }
        }
        self.push_tokens(tokens, TokenType::Comments, column, literal, line);
    }

    /// Scans the source from the cursor to its end and returns the tokens, in
    /// the order of the source, with the end-of-file token behind them. The
    /// diagnostics of what was scanned are added to those the tokenizer
    /// holds. Nothing stops the scan: the result is always `Some`.
    pub fn generate_tokens(&mut self) -> (r: Option<Vec<Token>>)
        requires
            old(self).wf(),
        ensures
            final(self).wf(),
            final(self)@ == (TokenizerView {
                position: old(self)@.source.len(),
                reported: old(self)@.reported + faults_from(
                    old(self)@.source,
                    old(self)@.position as int,
                ),
                ..old(self)@
            }),
            r is Some,
            views(r.unwrap()@) == tokens_from(old(self)@.source, old(self)@.position as int),
            views(r.unwrap()@).last().kind == TokenType::Eof,
            forall|i: int|
                0 <= i < r.unwrap()@.len() - 1 ==> (#[trigger] views(r.unwrap()@)[i]).kind
                    != TokenType::Eof,
    {
        let ghost s = self@.source;
        let ghost start = self@.position as int;
        let mut tokens: Vec<Token> = Vec::new();
        assert(views(tokens@) + tokens_from(s, start) =~= tokens_from(s, start));
        assert(self@.reported + faults_from(s, start) =~= old(self)@.reported + faults_from(
            s,
            start,
        ));
        while self.current < self.source.len()
            invariant
                self.wf(),
                self@.source == s,
                0 <= start <= self@.position <= s.len(),
                views(tokens@) + tokens_from(s, self@.position as int) == tokens_from(s, start),
                self@.reported + faults_from(s, self@.position as int) == old(self)@.reported
                    + faults_from(s, start),
            decreases s.len() - self@.position,
        {
            let ghost at = self@.position as int;
            let ghost taken = step(s, at);
            let ghost before = tokens@;
            let ghost reported = self@.reported;
            proof {
                lemma_scan_unfolds(s, at);
            }
            let character = self.source[self.current];
            match classify(character) {
                Lead::Single(kind) => {
                    let line = self.line;
                    let column = self.column;
                    let mut literal = String::new();
                    literal.push(character);
                    assert(literal@ =~= s.subrange(at, at + 1));
                    self.advance();
                    self.push_tokens(&mut tokens, kind, column, literal, line);
                },
                Lead::Paired(alone, with_equal) => {
                    self.check_if_other_and_add(&mut tokens, alone, with_equal);
                },
                Lead::Slash => {
                    if self.peek() == Some('/') {
                        self.comments(&mut tokens);
                    } else {
                        let line = self.line;
                        let column = self.column;
                        let mut literal = String::new();
                        literal.push(character);
                        assert(literal@ =~= s.subrange(at, at + 1));
                        self.advance();
                        self.push_tokens(&mut tokens, TokenType::Slash, column, literal, line);
                    }
                },
                Lead::Quote => {
                    self.string_literal(&mut tokens);
                },
                Lead::Blank => {
                    self.advance();
                },
                Lead::Digit => {
                    self.number(&mut tokens);
                },
                Lead::Letter => {
                    self.literals(&mut tokens);
                },
                Lead::Stray => {
                    self.errors.push(
                        LexError::UnexpectedCharacter {
                            line: self.line,
                            column: self.column,
                            character,
                        },
                    );
                    self.advance();
                },
            }
            proof {
                assert(self@.position == taken.end);
                assert(self@.reported =~= reported + taken.faults);
                match taken.kind {
                    Some(kind) => {
                        let made = token_of(s, Span { kind, start: at, end: taken.end });
                        lemma_views_extended(tokens@, before, made);
                        assert(views(tokens@) + tokens_from(s, taken.end) =~= views(before) + (
                        seq![made] + tokens_from(s, taken.end)));
                    },
                    None => {
                        assert(tokens@ == before);
                    },
                }
                assert(self@.reported + faults_from(s, taken.end) =~= reported + (taken.faults
                    + faults_from(s, taken.end)));
            }
        }
        proof {
            lemma_scan_unfolds(s, s.len() as int);
            lemma_eof_closes(s, start);
        }
        let ghost before = tokens@;
        self.push_tokens(&mut tokens, TokenType::Eof, self.column, String::new(), self.line);
        proof {
            let made = token_of(s, eof_span(s));
            assert(tokens@.last()@.lexeme =~= made.lexeme);
            lemma_views_extended(tokens@, before, made);
            assert(views(before) + seq![made] =~= views(before).push(made));
            assert(self@.reported + Seq::<LexError>::empty() =~= self@.reported);
        }
        Some(tokens)
    }
}

} // verus!
