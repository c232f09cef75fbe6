use teal::syntax::lex;
use teal::syntax::error::SyntaxError;
use teal::syntax::token::{Position, Token, TokenType};
use teal::syntax::token::TokenType::{
    Bang, BangEqual, Comma, Dot, Equal, EqualEqual, GreaterThan, GreaterThanEqual, Identifier,
    LeftBrace, LeftBracket, LeftParen, LessThan, LessThanEqual, Minus, Number, Plus, RightBrace,
    RightBracket, RightParen, Semicolon, Slash, Star, Str, EOF,
};
use teal::syntax::token::TokenType::{Else, False, Fun, If, Let, Print, True};

#[test]
fn lex_numbers() {
    let expect = vec![
        Token::new(Number, "2".to_string(), Position::new(0, 1, 1)),
        Token::new(Number, "10".to_string(), Position::new(2, 4, 1)),
        Token::new(Number, "3.33".to_string(), Position::new(5, 9, 1)),
        Token::new(EOF, "".to_string(), Position::new(9, 9, 1)),
    ];

    let source = r#"2 10 3.33"#;

    let actual = lex(source).unwrap();
    assert_eq!(expect, actual);
}

#[test]
fn lex_strings() {
    let expect = vec![
        Token::new(Str, "Hello".to_string(), Position::new(1, 6, 1)),
        Token::new(Str, ",".to_string(), Position::new(9, 10, 1)),
        Token::new(Str, "World!".to_string(), Position::new(13, 19, 1)),
        Token::new(EOF, "".to_string(), Position::new(20, 20, 1)),
    ];

    let source = r#""Hello" "," "World!""#;

    let actual = lex(source).unwrap();
    assert_eq!(expect, actual);
}

#[test]
fn lex_comments() {
    let expect = vec![
        Token::new(Number, "2".to_string(), Position::new(0, 1, 1)),
        Token::new(EOF, "".to_string(), Position::new(34, 34, 1)),
    ];

    let source = r#"2 // This comment will be ignored."#;

    let actual = lex(source).unwrap();
    assert_eq!(expect, actual);
}

#[test]
fn lex_keywords_and_identifiers() {
    let toks = lex("fun let print if else true false foo").unwrap();
    let kinds: Vec<TokenType> = toks.iter().map(|t| t.token_type).collect();
    assert_eq!(
        kinds,
        vec![Fun, Let, Print, If, Else, True, False, Identifier, EOF]
    );
    assert_eq!(toks[7].source, "foo");
}

#[test]
fn lex_unicode_identifier() {
    let toks = lex("café").unwrap();
    assert_eq!(toks[0].token_type, Identifier);
    assert_eq!(toks[0].source, "café");
}

#[test]
fn lex_operators() {
    let toks = lex("! != = == < <= > >= + - * / ; , . ( ) [ ] { }").unwrap();
    let kinds: Vec<TokenType> = toks.iter().map(|t| t.token_type).collect();
    assert_eq!(
        kinds,
        vec![
            Bang,
            BangEqual,
            Equal,
            EqualEqual,
            LessThan,
            LessThanEqual,
            GreaterThan,
            GreaterThanEqual,
            Plus,
            Minus,
            Star,
            Slash,
            Semicolon,
            Comma,
            Dot,
            LeftParen,
            RightParen,
            LeftBracket,
            RightBracket,
            LeftBrace,
            RightBrace,
            EOF,
        ]
    );
}

#[test]
fn lex_operator_at_end_is_single() {
    // One character of lookahead: with no second character, the
    // one-character operator is produced.
    let toks = lex("=").unwrap();
    assert_eq!(toks[0].token_type, Equal);
    let toks = lex("1<").unwrap();
    assert_eq!(toks[1].token_type, LessThan);
}

#[test]
fn lex_number_dot_without_digit() {
    // `3.` is the number 3 followed by a separate `.` token.
    let toks = lex("3.").unwrap();
    let kinds: Vec<TokenType> = toks.iter().map(|t| t.token_type).collect();
    assert_eq!(kinds, vec![Number, Dot, EOF]);
    assert_eq!(toks[0].source, "3");
}

#[test]
fn lex_unterminated_string() {
    // An unterminated string fails with the distinct error tag.
    assert_eq!(lex("\"abc"), Err(SyntaxError::UnterminatedString));
}

#[test]
fn lex_unexpected_char() {
    assert_eq!(lex("@"), Err(SyntaxError::UnexpectedChar));
}

#[test]
fn lex_last_token_is_eof() {
    // The token sequence always ends with the end-of-input token, with a
    // zero-length span at the source length.
    for source in ["", "   ", "let x = 1;", "// only a comment", "2 10 3.33"] {
        let toks = lex(source).unwrap();
        let last = toks.last().unwrap();
        assert_eq!(last.token_type, EOF);
        let n = source.chars().count();
        assert_eq!(last.position.start, n);
        assert_eq!(last.position.end, n);
        assert_eq!(last.source, "");
    }
}

#[test]
fn lex_line_numbers() {
    let toks = lex("1\n2\n3").unwrap();
    assert_eq!(toks[0].position.line, 1);
    assert_eq!(toks[1].position.line, 2);
    assert_eq!(toks[2].position.line, 3);
}

#[test]
fn relex_of_lexeme_concatenation_is_stable() {
    // Re-concatenating the lexemes (original whitespace discarded) and
    // lexing again reconstructs an equivalent token stream.
    for source in ["let x = 10; x * x + 2;", "fun sum(a, b) { a + b; } sum(4, 5) + 2;", "1 <= 2 == true"] {
        let toks = lex(source).unwrap();
        let mut joined = String::new();
        for t in toks.iter().take(toks.len() - 1) {
            joined.push_str(&t.source);
            joined.push(' ');
        }
        let again = lex(&joined).unwrap();
        assert_eq!(again.len(), toks.len());
        for (a, b) in toks.iter().zip(again.iter()) {
            assert_eq!(a.token_type, b.token_type);
            assert_eq!(a.source, b.source);
        }
    }
}
