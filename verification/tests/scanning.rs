use rlox_tokenizer::error::LexError;
use rlox_tokenizer::token::{Token, TokenType};
use rlox_tokenizer::tokenizer::Tokenizer;

fn scan(src: &str) -> (Vec<Token>, Vec<LexError>) {
    let mut tokenizer = Tokenizer::new(src.to_string());
    let tokens = tokenizer.generate_tokens().expect("scanning always yields tokens");
    (tokens, tokenizer.diagnostics().clone())
}

fn kinds(tokens: &[Token]) -> Vec<TokenType> {
    tokens.iter().map(|t| t.token_type()).collect()
}

fn texts(tokens: &[Token]) -> Vec<String> {
    tokens.iter().map(|t| t.literal().to_string()).collect()
}

fn places(tokens: &[Token]) -> Vec<(u32, u32)> {
    tokens.iter().map(|t| (t.line_number(), t.column_number())).collect()
}

#[test]
fn empty_source_is_eof_alone() {
    let (tokens, errors) = scan("");
    assert_eq!(kinds(&tokens), vec![TokenType::Eof]);
    assert_eq!(texts(&tokens), vec![""]);
    assert_eq!(places(&tokens), vec![(1, 1)]);
    assert!(errors.is_empty());
}

#[test]
fn last_token_is_the_only_eof() {
    for src in ["", "var x = 10;", "\"open", "@ # $", "// c", "a\n\nb", "1.2.3", "/"] {
        let (tokens, _) = scan(src);
        assert_eq!(tokens.last().unwrap().token_type(), TokenType::Eof);
        let eofs = tokens.iter().filter(|t| t.token_type() == TokenType::Eof).count();
        assert_eq!(eofs, 1, "source {:?}", src);
    }
}

#[test]
fn whitespace_only_is_eof_alone() {
    let (tokens, errors) = scan(" \t\n  \n\t ");
    assert_eq!(kinds(&tokens), vec![TokenType::Eof]);
    assert_eq!(places(&tokens), vec![(3, 3)]);
    assert!(errors.is_empty());
}

#[test]
fn lexemes_are_found_at_their_line_and_column() {
    let src = "var answer = 42;\n  print \"hi\nthere\" // done\nif (a >= b) { a = a - 1.5; }\n@";
    let lines: Vec<Vec<char>> = src.split('\n').map(|l| l.chars().collect()).collect();
    let all: Vec<char> = src.chars().collect();
    let (tokens, _) = scan(src);
    assert!(tokens.len() > 20);
    for token in &tokens {
        let line = token.line_number() as usize;
        let column = token.column_number() as usize;
        let mut offset = column - 1;
        for earlier in &lines[..line - 1] {
            offset += earlier.len() + 1;
        }
        let text: Vec<char> = token.literal().chars().collect();
        assert_eq!(&all[offset..offset + text.len()], &text[..], "token {:?}", token);
    }
}

#[test]
fn scanning_twice_gives_the_same() {
    let src = "fun f(a, b) { return a <= b; } // end\n\"x\" 1.2.3 #";
    let (first, first_errors) = scan(src);
    let (second, second_errors) = scan(src);
    assert_eq!(first, second);
    assert_eq!(first_errors, second_errors);
    assert_eq!(first.len(), 18);
}

#[test]
fn number_with_one_point() {
    let (tokens, errors) = scan("3.14");
    assert_eq!(kinds(&tokens), vec![TokenType::Number, TokenType::Eof]);
    assert_eq!(tokens[0].literal(), "3.14");
    assert_eq!(places(&tokens), vec![(1, 1), (1, 5)]);
    assert!(errors.is_empty());
}

#[test]
fn number_with_two_points() {
    let (tokens, errors) = scan("3.1.4");
    assert_eq!(kinds(&tokens), vec![TokenType::Number, TokenType::Eof]);
    assert_eq!(tokens[0].literal(), "3.1.4");
    assert_eq!(errors, vec![LexError::MalformedNumber { line: 1, column: 4 }]);
}

#[test]
fn number_with_many_points() {
    let (tokens, errors) = scan("x = 1..2.3.;");
    assert_eq!(
        kinds(&tokens),
        vec![
            TokenType::Identifier,
            TokenType::Equal,
            TokenType::Number,
            TokenType::Semicolon,
            TokenType::Eof
        ]
    );
    assert_eq!(tokens[2].literal(), "1..2.3.");
    assert_eq!(
        errors,
        vec![
            LexError::MalformedNumber { line: 1, column: 7 },
            LexError::MalformedNumber { line: 1, column: 9 },
            LexError::MalformedNumber { line: 1, column: 11 },
        ]
    );
}

#[test]
fn number_ends_at_a_letter() {
    let (tokens, errors) = scan("12ab 7.");
    assert_eq!(
        kinds(&tokens),
        vec![TokenType::Number, TokenType::Identifier, TokenType::Number, TokenType::Eof]
    );
    assert_eq!(texts(&tokens), vec!["12", "ab", "7.", ""]);
    assert!(errors.is_empty());
}

#[test]
fn leading_point_is_a_dot() {
    let (tokens, errors) = scan(".5");
    assert_eq!(kinds(&tokens), vec![TokenType::Dot, TokenType::Number, TokenType::Eof]);
    assert_eq!(texts(&tokens), vec![".", "5", ""]);
    assert!(errors.is_empty());
}

#[test]
fn variable_declaration() {
    let (tokens, errors) = scan("var x = 10;");
    assert_eq!(
        kinds(&tokens),
        vec![
            TokenType::Var,
            TokenType::Identifier,
            TokenType::Equal,
            TokenType::Number,
            TokenType::Semicolon,
            TokenType::Eof
        ]
    );
    assert_eq!(texts(&tokens), vec!["var", "x", "=", "10", ";", ""]);
    assert_eq!(places(&tokens), vec![(1, 1), (1, 5), (1, 7), (1, 9), (1, 11), (1, 12)]);
    assert!(errors.is_empty());
}

#[test]
fn unterminated_string() {
    let (tokens, errors) = scan("\"hello");
    assert_eq!(kinds(&tokens), vec![TokenType::Eof]);
    assert_eq!(errors, vec![LexError::UnterminatedString { line: 1, column: 1 }]);
    assert_eq!(places(&tokens), vec![(1, 7)]);
}

#[test]
fn unterminated_string_is_reported_at_its_opening_quote() {
    let (tokens, errors) = scan("a\n  \"b\nc");
    assert_eq!(kinds(&tokens), vec![TokenType::Identifier, TokenType::Eof]);
    assert_eq!(errors, vec![LexError::UnterminatedString { line: 2, column: 3 }]);
    assert_eq!(places(&tokens), vec![(1, 1), (3, 2)]);
}

#[test]
fn lone_quote_at_the_end() {
    let (tokens, errors) = scan("x \"");
    assert_eq!(kinds(&tokens), vec![TokenType::Identifier, TokenType::Eof]);
    assert_eq!(errors, vec![LexError::UnterminatedString { line: 1, column: 3 }]);
}

#[test]
fn string_keeps_its_quotes_and_its_text() {
    let (tokens, errors) = scan("\"a\\n // b\" \"\"");
    assert_eq!(kinds(&tokens), vec![TokenType::String, TokenType::String, TokenType::Eof]);
    assert_eq!(texts(&tokens), vec!["\"a\\n // b\"", "\"\"", ""]);
    assert_eq!(places(&tokens), vec![(1, 1), (1, 12), (1, 14)]);
    assert!(errors.is_empty());
}

#[test]
fn string_over_lines_counts_the_lines() {
    let (tokens, errors) = scan("\"a\nb\" c");
    assert_eq!(kinds(&tokens), vec![TokenType::String, TokenType::Identifier, TokenType::Eof]);
    assert_eq!(tokens[0].literal(), "\"a\nb\"");
    assert_eq!(places(&tokens), vec![(1, 1), (2, 4), (2, 5)]);
    assert!(errors.is_empty());
}

#[test]
fn comment_then_statement() {
    let (tokens, errors) = scan("// a comment\nprint 1;");
    assert_eq!(
        kinds(&tokens),
        vec![
            TokenType::Comments,
            TokenType::Print,
            TokenType::Number,
            TokenType::Semicolon,
            TokenType::Eof
        ]
    );
    assert_eq!(texts(&tokens), vec!["// a comment", "print", "1", ";", ""]);
    assert_eq!(places(&tokens), vec![(1, 1), (2, 1), (2, 7), (2, 8), (2, 9)]);
    assert!(errors.is_empty());
}

#[test]
fn comment_at_the_end_of_the_source() {
    let (tokens, errors) = scan("x //");
    assert_eq!(kinds(&tokens), vec![TokenType::Identifier, TokenType::Comments, TokenType::Eof]);
    assert_eq!(texts(&tokens), vec!["x", "//", ""]);
    assert!(errors.is_empty());
}

#[test]
fn slash_alone() {
    let (tokens, errors) = scan("a / b /");
    assert_eq!(
        kinds(&tokens),
        vec![
            TokenType::Identifier,
            TokenType::Slash,
            TokenType::Identifier,
            TokenType::Slash,
            TokenType::Eof
        ]
    );
    assert_eq!(texts(&tokens), vec!["a", "/", "b", "/", ""]);
    assert!(errors.is_empty());
}

#[test]
fn bang_equal() {
    let (tokens, errors) = scan("!=");
    assert_eq!(kinds(&tokens), vec![TokenType::BangEqual, TokenType::Eof]);
    assert_eq!(tokens[0].literal(), "!=");
    assert!(errors.is_empty());
}

#[test]
fn bang_then_plus() {
    let (tokens, errors) = scan("!+");
    assert_eq!(kinds(&tokens), vec![TokenType::Bang, TokenType::Plus, TokenType::Eof]);
    assert_eq!(texts(&tokens), vec!["!", "+", ""]);
    assert!(errors.is_empty());
}

#[test]
fn operators_of_one_and_two_characters() {
    let (tokens, errors) = scan("! != = == < <= > >= =>");
    assert_eq!(
        kinds(&tokens),
        vec![
            TokenType::Bang,
            TokenType::BangEqual,
            TokenType::Equal,
            TokenType::EqualEqual,
            TokenType::Less,
            TokenType::LessEqual,
            TokenType::Greater,
            TokenType::GreaterEqual,
            TokenType::Equal,
            TokenType::Greater,
            TokenType::Eof
        ]
    );
    assert_eq!(texts(&tokens), vec!["!", "!=", "=", "==", "<", "<=", ">", ">=", "=", ">", ""]);
    assert!(errors.is_empty());
}

#[test]
fn three_equals() {
    let (tokens, _) = scan("===");
    assert_eq!(kinds(&tokens), vec![TokenType::EqualEqual, TokenType::Equal, TokenType::Eof]);
    assert_eq!(places(&tokens), vec![(1, 1), (1, 3), (1, 4)]);
}

#[test]
fn punctuation() {
    let (tokens, errors) = scan("(),.+-;*");
    assert_eq!(
        kinds(&tokens),
        vec![
            TokenType::LeftParen,
            TokenType::RightParen,
            TokenType::Comma,
            TokenType::Dot,
            TokenType::Plus,
            TokenType::Minus,
            TokenType::Semicolon,
            TokenType::Star,
            TokenType::Eof
        ]
    );
    assert_eq!(texts(&tokens), vec!["(", ")", ",", ".", "+", "-", ";", "*", ""]);
    assert!(errors.is_empty());
}

#[test]
fn brackets_fold_into_braces() {
    let (tokens, errors) = scan("[{]}");
    assert_eq!(
        kinds(&tokens),
        vec![
            TokenType::LeftBrace,
            TokenType::LeftBrace,
            TokenType::RightBrace,
            TokenType::RightBrace,
            TokenType::Eof
        ]
    );
    assert_eq!(texts(&tokens), vec!["[", "{", "]", "}", ""]);
    assert!(errors.is_empty());
}

#[test]
fn every_keyword() {
    let (tokens, errors) = scan(
        "and class else false fun for if nil or print return super this true var while",
    );
    assert_eq!(
        kinds(&tokens),
        vec![
            TokenType::And,
            TokenType::Class,
            TokenType::Else,
            TokenType::False,
            TokenType::Fun,
            TokenType::For,
            TokenType::If,
            TokenType::Nil,
            TokenType::Or,
            TokenType::Print,
            TokenType::Return,
            TokenType::Super,
            TokenType::This,
            TokenType::True,
            TokenType::Var,
            TokenType::While,
            TokenType::Eof
        ]
    );
    assert!(errors.is_empty());
}

#[test]
fn keywords_match_whole_and_with_case() {
    let (tokens, errors) = scan("Var VAR va vars var_ _var");
    assert_eq!(
        kinds(&tokens),
        vec![
            TokenType::Identifier,
            TokenType::Identifier,
            TokenType::Identifier,
            TokenType::Identifier,
            TokenType::Identifier,
            TokenType::Var,
            TokenType::Eof
        ]
    );
    assert_eq!(texts(&tokens), vec!["Var", "VAR", "va", "vars", "var_", "var", ""]);
    assert_eq!(errors, vec![LexError::UnexpectedCharacter { line: 1, column: 22, character: '_' }]);
}

#[test]
fn identifier_at_the_end_of_the_source() {
    let (tokens, errors) = scan("count");
    assert_eq!(kinds(&tokens), vec![TokenType::Identifier, TokenType::Eof]);
    assert_eq!(tokens[0].literal(), "count");
    assert!(errors.is_empty());
}

#[test]
fn keyword_at_the_end_of_the_source() {
    let (tokens, _) = scan("x or");
    assert_eq!(kinds(&tokens), vec![TokenType::Identifier, TokenType::Or, TokenType::Eof]);
}

#[test]
fn identifier_with_digits_and_underscores() {
    let (tokens, errors) = scan("a1_b2 x_");
    assert_eq!(kinds(&tokens), vec![TokenType::Identifier, TokenType::Identifier, TokenType::Eof]);
    assert_eq!(texts(&tokens), vec!["a1_b2", "x_", ""]);
    assert!(errors.is_empty());
}

#[test]
fn hyphen_is_minus_not_part_of_an_identifier() {
    let (tokens, errors) = scan("a-b");
    assert_eq!(
        kinds(&tokens),
        vec![TokenType::Identifier, TokenType::Minus, TokenType::Identifier, TokenType::Eof]
    );
    assert_eq!(texts(&tokens), vec!["a", "-", "b", ""]);
    assert!(errors.is_empty());
}

#[test]
fn identifier_of_letters_beyond_ascii() {
    let (tokens, errors) = scan("été = 1;");
    assert_eq!(
        kinds(&tokens),
        vec![
            TokenType::Identifier,
            TokenType::Equal,
            TokenType::Number,
            TokenType::Semicolon,
            TokenType::Eof
        ]
    );
    assert_eq!(tokens[0].literal(), "été");
    assert_eq!(places(&tokens), vec![(1, 1), (1, 5), (1, 7), (1, 8), (1, 9)]);
    assert!(errors.is_empty());
}

#[test]
fn unexpected_characters_are_all_reported() {
    let (tokens, errors) = scan("a @ b\n#\r$");
    assert_eq!(kinds(&tokens), vec![TokenType::Identifier, TokenType::Identifier, TokenType::Eof]);
    assert_eq!(
        errors,
        vec![
            LexError::UnexpectedCharacter { line: 1, column: 3, character: '@' },
            LexError::UnexpectedCharacter { line: 2, column: 1, character: '#' },
            LexError::UnexpectedCharacter { line: 2, column: 2, character: '\r' },
            LexError::UnexpectedCharacter { line: 2, column: 3, character: '$' },
        ]
    );
}

#[test]
fn digit_that_is_not_decimal_is_unexpected() {
    let (tokens, errors) = scan("½");
    assert_eq!(kinds(&tokens), vec![TokenType::Eof]);
    assert_eq!(errors, vec![LexError::UnexpectedCharacter { line: 1, column: 1, character: '½' }]);
}

#[test]
fn diagnostics_come_in_source_order() {
    let (_, errors) = scan("1.2.3 @ \"x");
    assert_eq!(
        errors,
        vec![
            LexError::MalformedNumber { line: 1, column: 4 },
            LexError::UnexpectedCharacter { line: 1, column: 7, character: '@' },
            LexError::UnterminatedString { line: 1, column: 9 },
        ]
    );
}

#[test]
fn a_small_program() {
    let src = "fun add(a, b) {\n\treturn a + b;\n}\nprint add(1, 2.5) >= 3;\n";
    let (tokens, errors) = scan(src);
    assert_eq!(
        kinds(&tokens),
        vec![
            TokenType::Fun,
            TokenType::Identifier,
            TokenType::LeftParen,
            TokenType::Identifier,
            TokenType::Comma,
            TokenType::Identifier,
            TokenType::RightParen,
            TokenType::LeftBrace,
            TokenType::Return,
            TokenType::Identifier,
            TokenType::Plus,
            TokenType::Identifier,
            TokenType::Semicolon,
            TokenType::RightBrace,
            TokenType::Print,
            TokenType::Identifier,
            TokenType::LeftParen,
            TokenType::Number,
            TokenType::Comma,
            TokenType::Number,
            TokenType::RightParen,
            TokenType::GreaterEqual,
            TokenType::Number,
            TokenType::Semicolon,
            TokenType::Eof
        ]
    );
    assert_eq!(tokens[8].line_number(), 2);
    assert_eq!(tokens[8].column_number(), 2);
    assert_eq!(tokens[13].line_number(), 3);
    assert_eq!(tokens[21].literal(), ">=");
    assert_eq!(tokens[21].column_number(), 19);
    assert_eq!(tokens[24].line_number(), 5);
    assert_eq!(tokens[24].column_number(), 1);
    assert!(errors.is_empty());
}

#[test]
fn scanning_again_from_the_end_gives_eof_alone() {
    let mut tokenizer = Tokenizer::new("a @".to_string());
    let first = tokenizer.generate_tokens().unwrap();
    assert_eq!(first.len(), 2);
    let second = tokenizer.generate_tokens().unwrap();
    assert_eq!(kinds(&second), vec![TokenType::Eof]);
    assert_eq!(tokenizer.diagnostics().len(), 1);
}

#[test]
fn scanning_starts_at_the_cursor() {
    let mut tokenizer = Tokenizer::new("ab\ncd e".to_string());
    tokenizer.advance();
    tokenizer.advance();
    tokenizer.advance();
    tokenizer.advance();
    let tokens = tokenizer.generate_tokens().unwrap();
    assert_eq!(kinds(&tokens), vec![TokenType::Identifier, TokenType::Identifier, TokenType::Eof]);
    assert_eq!(texts(&tokens), vec!["d", "e", ""]);
    assert_eq!(places(&tokens), vec![(2, 2), (2, 4), (2, 5)]);
}
