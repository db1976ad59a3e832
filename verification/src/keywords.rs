//! The keyword table: the reserved words and the token kind of each.

use vstd::prelude::*;
use vstd::hash_map::StringHashMap;
use crate::token::TokenType;

verus! {

/// The reserved words, each with its token kind. Words are matched whole and
/// with their case.
pub open spec fn keyword_table() -> Map<Seq<char>, TokenType> {
    Map::<Seq<char>, TokenType>::empty().insert("and"@, TokenType::And).insert(
        "class"@,
        TokenType::Class,
    ).insert("else"@, TokenType::Else).insert("false"@, TokenType::False).insert(
        "fun"@,
        TokenType::Fun,
    ).insert("for"@, TokenType::For).insert("if"@, TokenType::If).insert(
        "nil"@,
        TokenType::Nil,
    ).insert("or"@, TokenType::Or).insert("print"@, TokenType::Print).insert(
        "return"@,
        TokenType::Return,
    ).insert("super"@, TokenType::Super).insert("this"@, TokenType::This).insert(
        "true"@,
        TokenType::True,
    ).insert("var"@, TokenType::Var).insert("while"@, TokenType::While)
}

/// The kind of the token that the word `w` makes: its keyword where it is
/// reserved, else an identifier.
pub open spec fn word_kind(w: Seq<char>) -> TokenType {
    if keyword_table().contains_key(w) {
        keyword_table()[w]
    } else {
        TokenType::Identifier
    }
}

/// A word never makes an end-of-file token.
pub proof fn lemma_word_kind_not_eof(w: Seq<char>)
    ensures
        word_kind(w) != TokenType::Eof,
{
}

/// Builds the keyword table.
pub fn keyword_set() -> (table: StringHashMap<TokenType>)
    ensures
        table@ == keyword_table(),
{
    let mut table: StringHashMap<TokenType> = StringHashMap::new();
    table.insert("and".to_owned(), TokenType::And);
    table.insert("class".to_owned(), TokenType::Class);
    table.insert("else".to_owned(), TokenType::Else);
    table.insert("false".to_owned(), TokenType::False);
    table.insert("fun".to_owned(), TokenType::Fun);
    table.insert("for".to_owned(), TokenType::For);
    table.insert("if".to_owned(), TokenType::If);
    table.insert("nil".to_owned(), TokenType::Nil);
    table.insert("or".to_owned(), TokenType::Or);
    table.insert("print".to_owned(), TokenType::Print);
    table.insert("return".to_owned(), TokenType::Return);
    table.insert("super".to_owned(), TokenType::Super);
    table.insert("this".to_owned(), TokenType::This);
    table.insert("true".to_owned(), TokenType::True);
    table.insert("var".to_owned(), TokenType::Var);
    table.insert("while".to_owned(), TokenType::While);
    table
}

/// Looks a word up in the table.
pub fn lookup(table: &StringHashMap<TokenType>, word: &str) -> (kind: TokenType)
    requires
        table@ == keyword_table(),
    ensures
        kind == word_kind(word@),
{
    match table.get(word) {
        Some(kind) => *kind,
        None => TokenType::Identifier,
    }
}

} // verus!
