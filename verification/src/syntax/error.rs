//! Error taxonomies of the two front-end halves.
//!
//! Every failure is fail-fast: the first error aborts the whole
//! compilation, and each failure kind carries a distinct tag.

use vstd::prelude::*;
use crate::syntax::token::TokenType;

verus! {

pub type LexResult<T> = Result<T, SyntaxError>;

/// Errors of lexical analysis.
#[derive(Debug, Clone, Copy, PartialEq, Eq, Structural)]
pub enum SyntaxError {
    /// The character stream ended where a character was expected.
    UnexpectedEOF,
    /// A character matched no token rule.
    UnexpectedChar,
    /// The input ended inside a string literal, before the closing quote.
    UnterminatedString,
}

pub type ParseResult<T> = Result<T, ParserError>;

/// Errors of parsing.
#[derive(Debug, Clone, Copy, PartialEq, Eq, Structural)]
pub enum ParserError {
    /// A specific token kind was required. Carries the expected kind, the
    /// actual kind, and the line of the actual token.
    Expected(TokenType, TokenType, usize),
    /// A token that no infix rule accepts.
    Unexpected(TokenType),
    /// A token in prefix position that cannot start a primary expression.
    ExpectedPrimary(TokenType),
    /// A token where a unary operator was required.
    ExpectedUnaryOperator(TokenType),
    /// A token where a binary operator was required.
    ExpectedBinaryOperator(TokenType),
    /// The token sequence ran out while a construct was incomplete.
    UnexpectedEOF,
}

} // verus!
