//! Token kinds, tokens, and how a token is rendered for logging.

use vstd::prelude::*;
use vstd::string::*;

verus! {

/// The closed set of token kinds.
#[derive(Debug, Clone, Copy, PartialEq, Eq, Hash, Structural)]
pub enum TokenType {
    // single-character tokens
    LeftBrace,
    RightBrace,
    LeftParen,
    RightParen,
    Comma,
    Dot,
    Minus,
    Plus,
    Semicolon,
    Slash,
    Star,
    // one- or two-character tokens
    Bang,
    BangEqual,
    Equal,
    EqualEqual,
    Greater,
    GreaterEqual,
    Less,
    LessEqual,
    // literals
    Number,
    String,
    Identifier,
    Comments,
    // keywords
    And,
    Class,
    Else,
    False,
    Fun,
    For,
    If,
    Nil,
    Or,
    Print,
    Return,
    Super,
    This,
    True,
    Var,
    While,
    Eof,
}

/// The name of a token kind, as it is written in a rendered token.
pub open spec fn kind_name(kind: TokenType) -> Seq<char> {
    match kind {
        TokenType::LeftBrace => "LeftBrace"@,
        TokenType::RightBrace => "RightBrace"@,
        TokenType::LeftParen => "LeftParen"@,
        TokenType::RightParen => "RightParen"@,
        TokenType::Comma => "Comma"@,
        TokenType::Dot => "Dot"@,
        TokenType::Minus => "Minus"@,
        TokenType::Plus => "Plus"@,
        TokenType::Semicolon => "Semicolon"@,
        TokenType::Slash => "Slash"@,
        TokenType::Star => "Star"@,
        TokenType::Bang => "Bang"@,
        TokenType::BangEqual => "BangEqual"@,
        TokenType::Equal => "Equal"@,
        TokenType::EqualEqual => "EqualEqual"@,
        TokenType::Greater => "Greater"@,
        TokenType::GreaterEqual => "GreaterEqual"@,
        TokenType::Less => "Less"@,
        TokenType::LessEqual => "LessEqual"@,
        TokenType::Number => "Number"@,
        TokenType::String => "String"@,
        TokenType::Identifier => "Identifier"@,
        TokenType::Comments => "Comments"@,
        TokenType::And => "And"@,
        TokenType::Class => "Class"@,
        TokenType::Else => "Else"@,
        TokenType::False => "False"@,
        TokenType::Fun => "Fun"@,
        TokenType::For => "For"@,
        TokenType::If => "If"@,
        TokenType::Nil => "Nil"@,
        TokenType::Or => "Or"@,
        TokenType::Print => "Print"@,
        TokenType::Return => "Return"@,
        TokenType::Super => "Super"@,
        TokenType::This => "This"@,
        TokenType::True => "True"@,
        TokenType::Var => "Var"@,
        TokenType::While => "While"@,
        TokenType::Eof => "Eof"@,
    }
}

impl TokenType {
    /// The kind's name.
    pub fn name(&self) -> (r: &'static str)
        ensures
            r@ == kind_name(*self),
    {
        match self {
            TokenType::LeftBrace => "LeftBrace",
            TokenType::RightBrace => "RightBrace",
            TokenType::LeftParen => "LeftParen",
            TokenType::RightParen => "RightParen",
            TokenType::Comma => "Comma",
            TokenType::Dot => "Dot",
            TokenType::Minus => "Minus",
            TokenType::Plus => "Plus",
            TokenType::Semicolon => "Semicolon",
            TokenType::Slash => "Slash",
            TokenType::Star => "Star",
            TokenType::Bang => "Bang",
            TokenType::BangEqual => "BangEqual",
            TokenType::Equal => "Equal",
            TokenType::EqualEqual => "EqualEqual",
            TokenType::Greater => "Greater",
            TokenType::GreaterEqual => "GreaterEqual",
            TokenType::Less => "Less",
            TokenType::LessEqual => "LessEqual",
            TokenType::Number => "Number",
            TokenType::String => "String",
            TokenType::Identifier => "Identifier",
            TokenType::Comments => "Comments",
            TokenType::And => "And",
            TokenType::Class => "Class",
            TokenType::Else => "Else",
            TokenType::False => "False",
            TokenType::Fun => "Fun",
            TokenType::For => "For",
            TokenType::If => "If",
            TokenType::Nil => "Nil",
            TokenType::Or => "Or",
            TokenType::Print => "Print",
            TokenType::Return => "Return",
            TokenType::Super => "Super",
            TokenType::This => "This",
            TokenType::True => "True",
            TokenType::Var => "Var",
            TokenType::While => "While",
            TokenType::Eof => "Eof",
        }
    }
}

/// A token as a mathematical value.
pub struct TokenView {
    /// The token's kind.
    pub kind: TokenType,
    /// The exact source text the token was made from.
    pub lexeme: Seq<char>,
    /// The line on which the token starts, counted from 1.
    pub line: nat,
    /// The column at which the token starts, counted from 1 on each line.
    pub column: nat,
}

/// A classified, positioned unit of source text.
#[derive(Debug, Clone, PartialEq, Eq)]
pub struct Token {
    token_type: TokenType,
    line_number: u32,
    literal: String,
    column_number: u32,
}

impl View for Token {
    type V = TokenView;

    closed spec fn view(&self) -> TokenView {
        TokenView {
            kind: self.token_type,
            lexeme: self.literal@,
            line: self.line_number as nat,
            column: self.column_number as nat,
        }
    }
}

/// The views of a sequence of tokens, in order.
pub open spec fn views(tokens: Seq<Token>) -> Seq<TokenView> {
    tokens.map_values(|t: Token| t@)
}

/// `after` is `before` and one more token behind it, whose view is `t`.
pub open spec fn extended_by(after: Seq<Token>, before: Seq<Token>, t: TokenView) -> bool {
    &&& after.len() == before.len() + 1
    &&& after.drop_last() == before
    &&& after.last()@ == t
}

/// The views of a sequence that grew by one token are the views it had, and
/// that token's view behind them.
pub proof fn lemma_views_extended(after: Seq<Token>, before: Seq<Token>, t: TokenView)
    requires
        extended_by(after, before, t),
    ensures
        views(after) == views(before).push(t),
{
    assert(views(after) =~= views(before).push(t));
}

/// The character that stands for a digit below ten.
pub open spec fn digit_char(d: nat) -> char {
    if d == 0 {
        '0'
    } else if d == 1 {
        '1'
    } else if d == 2 {
        '2'
    } else if d == 3 {
        '3'
    } else if d == 4 {
        '4'
    } else if d == 5 {
        '5'
    } else if d == 6 {
        '6'
    } else if d == 7 {
        '7'
    } else if d == 8 {
        '8'
    } else {
        '9'
    }
}

/// A number written in decimal, without sign or leading zeros.
pub open spec fn decimal(n: nat) -> Seq<char>
    decreases n,
{
    if n < 10 {
        seq![digit_char(n)]
    } else {
        decimal(n / 10).push(digit_char(n % 10))
    }
}

/// The text a token is rendered to: `< KIND => [ value: LEXEME, line: N ] >`.
pub open spec fn rendering(t: TokenView) -> Seq<char> {
    "< "@ + kind_name(t.kind) + " => [ value: "@ + t.lexeme + ", line: "@ + decimal(t.line)
        + " ] >"@
}

/// `String::push` appends the one character to the string, as std documents it.
pub assume_specification[ std::string::String::push ](s: &mut std::string::String, c: char)
    ensures
        final(s)@ == old(s)@.push(c),
;

fn digit_of(d: u32) -> (c: char)
    requires
        d < 10,
    ensures
        c == digit_char(d as nat),
{
    if d == 0 {
        '0'
    } else if d == 1 {
        '1'
    } else if d == 2 {
        '2'
    } else if d == 3 {
        '3'
    } else if d == 4 {
        '4'
    } else if d == 5 {
        '5'
    } else if d == 6 {
        '6'
    } else if d == 7 {
        '7'
    } else if d == 8 {
        '8'
    } else {
        '9'
    }
}

fn push_decimal(out: &mut String, n: u32)
    ensures
        final(out)@ == old(out)@ + decimal(n as nat),
    decreases n,
{
    if n >= 10 {
        push_decimal(out, n / 10);
    }
    out.push(digit_of(n % 10));
    assert(out@ =~= old(out)@ + decimal(n as nat));
}

impl Token {
    /// A token of the given kind and text that starts at the given line and column.
    pub fn new(token_type: TokenType, line_number: u32, literal: String, column_number: u32) -> (t:
        Self)
        ensures
            t@ == (TokenView {
                kind: token_type,
                lexeme: literal@,
                line: line_number as nat,
                column: column_number as nat,
            }),
    {
        Token { token_type, line_number, literal, column_number }
    }

    /// The token's kind.
    pub fn token_type(&self) -> (r: TokenType)
        ensures
            r == self@.kind,
    {
        self.token_type
    }

    /// The source text the token was made from.
    pub fn literal(&self) -> (r: &str)
        ensures
            r@ == self@.lexeme,
    {
        self.literal.as_str()
    }

    /// The line on which the token starts.
    pub fn line_number(&self) -> (r: u32)
        ensures
            r == self@.line,
    {
        self.line_number
    }

    /// The column at which the token starts.
    pub fn column_number(&self) -> (r: u32)
        ensures
            r == self@.column,
    {
        self.column_number
    }

    /// Renders the token for logging. The text is for people to read; programs
    /// read the token's fields.
    pub fn to_string(&self) -> (r: String)
        ensures
            r@ == rendering(self@),
    {
        let mut out = String::new();
        out.append("< ");
        out.append(self.token_type.name());
        out.append(" => [ value: ");
        out.append(self.literal.as_str());
        out.append(", line: ");
        push_decimal(&mut out, self.line_number);
        out.append(" ] >");
        assert(out@ =~= rendering(self@));
        out
    }
}

} // verus!
