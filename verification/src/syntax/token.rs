//! Tokens produced by the lexer: kind, lexeme, and source span.

use vstd::prelude::*;

verus! {

/// The kind of a token.
///
/// Keyword kinds are mutually exclusive with `Identifier`: a lexeme that
/// matches an entry of the keyword table never becomes an identifier.
/// `EOF` is the terminal kind; it appears exactly once, as the last
/// element of every token sequence, with a zero-length span.
#[derive(Debug, Clone, Copy, PartialEq, Eq, Structural)]
pub enum TokenType {
    LeftParen,
    RightParen,
    LeftBrace,
    RightBrace,
    LeftBracket,
    RightBracket,
    Comma,
    Dot,
    Minus,
    Plus,
    Star,
    Slash,
    Semicolon,
    Bang,
    BangEqual,
    Equal,
    EqualEqual,
    LessThan,
    LessThanEqual,
    GreaterThan,
    GreaterThanEqual,
    Str,
    Number,
    True,
    False,
    Let,
    Print,
    If,
    Else,
    Fun,
    Identifier,
    EOF,
}

/// A half-open span `[start, end)` of character offsets, together with the
/// 1-based line on which the token ends.
#[derive(Debug, Clone, Copy, PartialEq, Eq, Structural)]
pub struct Position {
    pub start: usize,
    pub end: usize,
    pub line: usize,
}

impl Position {
    pub fn new(start: usize, end: usize, line: usize) -> (p: Position)
        ensures
            p == (Position { start, end, line }),
    {
        Position { start, end, line }
    }
}

/// A single token: its kind, its lexeme (for string tokens, the interior
/// text without the surrounding quotes), and its span.
#[derive(Debug, PartialEq)]
pub struct Token {
    pub token_type: TokenType,
    pub source: String,
    pub position: Position,
}

/// The mathematical value of a [`Token`]: the same data with the lexeme
/// as a sequence of characters.
pub struct TokenV {
    pub kind: TokenType,
    pub lexeme: Seq<char>,
    pub start: int,
    pub end: int,
    pub line: int,
}

impl View for Token {
    type V = TokenV;

    open spec fn view(&self) -> TokenV {
        TokenV {
            kind: self.token_type,
            lexeme: self.source@,
            start: self.position.start as int,
            end: self.position.end as int,
            line: self.position.line as int,
        }
    }
}

impl DeepView for Token {
    type V = TokenV;

    open spec fn deep_view(&self) -> TokenV {
        self.view()
    }
}

impl Token {
    pub fn new(token_type: TokenType, source: String, position: Position) -> (t: Token)
        ensures
            t@ == (TokenV {
                kind: token_type,
                lexeme: source@,
                start: position.start as int,
                end: position.end as int,
                line: position.line as int,
            }),
    {
        Token { token_type, source, position }
    }
}

/// The keyword table: which token kind a given identifier-shaped lexeme
/// denotes. Lexemes that are not keywords denote `Identifier`.
pub open spec fn keyword_of(lexeme: Seq<char>) -> TokenType {
    if lexeme == "fun"@ {
        TokenType::Fun
    } else if lexeme == "let"@ {
        TokenType::Let
    } else if lexeme == "print"@ {
        TokenType::Print
    } else if lexeme == "if"@ {
        TokenType::If
    } else if lexeme == "else"@ {
        TokenType::Else
    } else if lexeme == "true"@ {
        TokenType::True
    } else if lexeme == "false"@ {
        TokenType::False
    } else {
        TokenType::Identifier
    }
}

/// Lexemes that can be looked up against the keyword table.
pub trait ToKeyword {
    fn to_keyword(&self) -> (t: TokenType)
        ensures
            t == keyword_of(self.lexeme_chars()),
    ;

    spec fn lexeme_chars(&self) -> Seq<char>;
}

impl ToKeyword for String {
    open spec fn lexeme_chars(&self) -> Seq<char> {
        self@
    }

    fn to_keyword(&self) -> (t: TokenType) {
        if *self == String::from_str("fun") {
            TokenType::Fun
        } else if *self == String::from_str("let") {
            TokenType::Let
        } else if *self == String::from_str("print") {
            TokenType::Print
        } else if *self == String::from_str("if") {
            TokenType::If
        } else if *self == String::from_str("else") {
            TokenType::Else
        } else if *self == String::from_str("true") {
            TokenType::True
        } else if *self == String::from_str("false") {
            TokenType::False
        } else {
            TokenType::Identifier
        }
    }
}

} // verus!
