//! Operator precedence for the expression parser.
//!
//! The expression grammar itself is parsed by the methods of
//! [`crate::syntax::parser::Parser`]; this module holds the precedence
//! table and the public entry point into expression parsing.

use vstd::prelude::*;
use crate::syntax::ast::{binop_of_token, Expr, ExprV, LiteralV};
use crate::syntax::chars::number_value;
use crate::syntax::error::{ParseResult, ParserError};
use crate::syntax::parser::{
    binary_spec, expression_spec, infix_loop_spec, infix_spec, parse_expr_spec, prefix_spec,
    primary_spec, step_matches_expr, Parser,
};
use crate::syntax::token::{TokenType, TokenV};

verus! {

/// The precedence levels, lowest to highest.
#[derive(Debug, Clone, Copy, PartialEq, Eq, Structural)]
pub enum Precedence {
    Lowest,
    /// `=`
    Assign,
    Or,
    And,
    /// `==` `!=`
    Equality,
    /// `<` `<=` `>` `>=`
    Comparison,
    /// `+` `-`
    Term,
    /// `*` `/`
    Factor,
    /// `!` `-`
    Unary,
    /// `(`
    Call,
    Primary,
}

/// The numeric rank of a precedence level.
pub open spec fn prec_level(p: Precedence) -> int {
    match p {
        Precedence::Lowest => 0,
        Precedence::Assign => 1,
        Precedence::Or => 2,
        Precedence::And => 3,
        Precedence::Equality => 4,
        Precedence::Comparison => 5,
        Precedence::Term => 6,
        Precedence::Factor => 7,
        Precedence::Unary => 8,
        Precedence::Call => 9,
        Precedence::Primary => 10,
    }
}

/// The precedence with which a token binds in infix position.
pub open spec fn prec_of_kind(kind: TokenType) -> int {
    match kind {
        TokenType::Equal => 1,
        TokenType::BangEqual => 4,
        TokenType::EqualEqual => 4,
        TokenType::LessThan => 5,
        TokenType::LessThanEqual => 5,
        TokenType::GreaterThan => 5,
        TokenType::GreaterThanEqual => 5,
        TokenType::Plus => 6,
        TokenType::Minus => 6,
        TokenType::Star => 7,
        TokenType::Slash => 7,
        TokenType::Bang => 8,
        TokenType::LeftParen => 9,
        TokenType::Dot => 9,
        _ => 0,
    }
}

impl Precedence {
    pub fn level(&self) -> (n: u8)
        ensures
            n as int == prec_level(*self),
    {
        match self {
            Precedence::Lowest => 0,
            Precedence::Assign => 1,
            Precedence::Or => 2,
            Precedence::And => 3,
            Precedence::Equality => 4,
            Precedence::Comparison => 5,
            Precedence::Term => 6,
            Precedence::Factor => 7,
            Precedence::Unary => 8,
            Precedence::Call => 9,
            Precedence::Primary => 10,
        }
    }

    /// The precedence with which a token binds in infix position.
    pub fn of_token(kind: &TokenType) -> (p: Precedence)
        ensures
            prec_level(p) == prec_of_kind(*kind),
    {
        match kind {
            TokenType::Equal => Precedence::Assign,
            TokenType::BangEqual => Precedence::Equality,
            TokenType::EqualEqual => Precedence::Equality,
            TokenType::LessThan => Precedence::Comparison,
            TokenType::LessThanEqual => Precedence::Comparison,
            TokenType::GreaterThan => Precedence::Comparison,
            TokenType::GreaterThanEqual => Precedence::Comparison,
            TokenType::Plus => Precedence::Term,
            TokenType::Minus => Precedence::Term,
            TokenType::Star => Precedence::Factor,
            TokenType::Slash => Precedence::Factor,
            TokenType::Bang => Precedence::Unary,
            TokenType::LeftParen => Precedence::Call,
            TokenType::Dot => Precedence::Call,
            _ => Precedence::Lowest,
        }
    }
}

/// The literal node a number token parses to.
pub open spec fn number_literal(t: TokenV) -> ExprV {
    ExprV::Literal(LiteralV::Number(number_value(t.lexeme)))
}

/// Whether a token kind is one of the four arithmetic operators.
pub open spec fn arith_kind(k: TokenType) -> bool {
    k == TokenType::Plus || k == TokenType::Minus || k == TokenType::Star || k == TokenType::Slash
}

/// Precedence climbing reproduces conventional arithmetic precedence:
/// for any three number tokens joined by two arithmetic operators where
/// the second binds more tightly than the first, the second operator
/// binds first, so `a + b * c` parses as `a + (b * c)` and never as
/// `(a + b) * c`.
pub proof fn lemma_precedence_groups_right(toks: Seq<TokenV>)
    requires
        toks.len() == 6,
        toks[0].kind == TokenType::Number,
        arith_kind(toks[1].kind),
        toks[2].kind == TokenType::Number,
        arith_kind(toks[3].kind),
        prec_of_kind(toks[1].kind) < prec_of_kind(toks[3].kind),
        toks[4].kind == TokenType::Number,
        toks[5].kind == TokenType::EOF,
    ensures
        expression_spec(toks, 0) == (Ok::<ExprV, ParserError>(ExprV::Binary {
            left: Box::new(number_literal(toks[0])),
            op: binop_of_token(toks[1].kind)->Ok_0,
            right: Box::new(ExprV::Binary {
                left: Box::new(number_literal(toks[2])),
                op: binop_of_token(toks[3].kind)->Ok_0,
                right: Box::new(number_literal(toks[4])),
            }),
        }), 5int),
{
    let n1 = number_literal(toks[0]);
    let n2 = number_literal(toks[2]);
    let n3 = number_literal(toks[4]);
    let o1 = binop_of_token(toks[1].kind)->Ok_0;
    let o2 = binop_of_token(toks[3].kind)->Ok_0;
    let p1 = prec_of_kind(toks[1].kind);
    let p2 = prec_of_kind(toks[3].kind);
    assert(primary_spec(toks, 4) == (Ok::<ExprV, ParserError>(n3), 5int));
    assert(prefix_spec(toks, 4) == (Ok::<ExprV, ParserError>(n3), 5int));
    assert(infix_loop_spec(toks, 5, n3, p2) == (Ok::<ExprV, ParserError>(n3), 5int));
    assert(parse_expr_spec(toks, 4, p2) == (Ok::<ExprV, ParserError>(n3), 5int));
    let inner = ExprV::Binary { left: Box::new(n2), op: o2, right: Box::new(n3) };
    assert(binary_spec(toks, 3, n2) == (Ok::<ExprV, ParserError>(inner), 5int));
    assert(infix_spec(toks, 3, n2) == (Ok::<ExprV, ParserError>(inner), 5int));
    assert(infix_loop_spec(toks, 5, inner, p1) == (Ok::<ExprV, ParserError>(inner), 5int));
    assert(infix_loop_spec(toks, 3, n2, p1) == (Ok::<ExprV, ParserError>(inner), 5int));
    assert(primary_spec(toks, 2) == (Ok::<ExprV, ParserError>(n2), 3int));
    assert(prefix_spec(toks, 2) == (Ok::<ExprV, ParserError>(n2), 3int));
    assert(parse_expr_spec(toks, 2, p1) == (Ok::<ExprV, ParserError>(inner), 5int));
    let outer = ExprV::Binary { left: Box::new(n1), op: o1, right: Box::new(inner) };
    assert(binary_spec(toks, 1, n1) == (Ok::<ExprV, ParserError>(outer), 5int));
    assert(infix_spec(toks, 1, n1) == (Ok::<ExprV, ParserError>(outer), 5int));
    assert(infix_loop_spec(toks, 5, outer, 0) == (Ok::<ExprV, ParserError>(outer), 5int));
    assert(infix_loop_spec(toks, 1, n1, 0) == (Ok::<ExprV, ParserError>(outer), 5int));
    assert(primary_spec(toks, 0) == (Ok::<ExprV, ParserError>(n1), 1int));
    assert(prefix_spec(toks, 0) == (Ok::<ExprV, ParserError>(n1), 1int));
    assert(parse_expr_spec(toks, 0, 0) == (Ok::<ExprV, ParserError>(outer), 5int));
}

/// Binary operators are left-associative: for any three number tokens
/// joined by two arithmetic operators where the first binds at least as
/// tightly as the second, the left operator binds first, so `a + b - c`
/// parses as `(a + b) - c` and `a * b + c` as `(a * b) + c`.
pub proof fn lemma_precedence_groups_left(toks: Seq<TokenV>)
    requires
        toks.len() == 6,
        toks[0].kind == TokenType::Number,
        arith_kind(toks[1].kind),
        toks[2].kind == TokenType::Number,
        arith_kind(toks[3].kind),
        prec_of_kind(toks[1].kind) >= prec_of_kind(toks[3].kind),
        toks[4].kind == TokenType::Number,
        toks[5].kind == TokenType::EOF,
    ensures
        expression_spec(toks, 0) == (Ok::<ExprV, ParserError>(ExprV::Binary {
            left: Box::new(ExprV::Binary {
                left: Box::new(number_literal(toks[0])),
                op: binop_of_token(toks[1].kind)->Ok_0,
                right: Box::new(number_literal(toks[2])),
            }),
            op: binop_of_token(toks[3].kind)->Ok_0,
            right: Box::new(number_literal(toks[4])),
        }), 5int),
{
    let n1 = number_literal(toks[0]);
    let n2 = number_literal(toks[2]);
    let n3 = number_literal(toks[4]);
    let o1 = binop_of_token(toks[1].kind)->Ok_0;
    let o2 = binop_of_token(toks[3].kind)->Ok_0;
    let p1 = prec_of_kind(toks[1].kind);
    let p2 = prec_of_kind(toks[3].kind);
    assert(primary_spec(toks, 2) == (Ok::<ExprV, ParserError>(n2), 3int));
    assert(prefix_spec(toks, 2) == (Ok::<ExprV, ParserError>(n2), 3int));
    assert(infix_loop_spec(toks, 3, n2, p1) == (Ok::<ExprV, ParserError>(n2), 3int));
    assert(parse_expr_spec(toks, 2, p1) == (Ok::<ExprV, ParserError>(n2), 3int));
    let left12 = ExprV::Binary { left: Box::new(n1), op: o1, right: Box::new(n2) };
    assert(binary_spec(toks, 1, n1) == (Ok::<ExprV, ParserError>(left12), 3int));
    assert(infix_spec(toks, 1, n1) == (Ok::<ExprV, ParserError>(left12), 3int));
    assert(primary_spec(toks, 4) == (Ok::<ExprV, ParserError>(n3), 5int));
    assert(prefix_spec(toks, 4) == (Ok::<ExprV, ParserError>(n3), 5int));
    assert(infix_loop_spec(toks, 5, n3, p2) == (Ok::<ExprV, ParserError>(n3), 5int));
    assert(parse_expr_spec(toks, 4, p2) == (Ok::<ExprV, ParserError>(n3), 5int));
    let outer = ExprV::Binary { left: Box::new(left12), op: o2, right: Box::new(n3) };
    assert(binary_spec(toks, 3, left12) == (Ok::<ExprV, ParserError>(outer), 5int));
    assert(infix_spec(toks, 3, left12) == (Ok::<ExprV, ParserError>(outer), 5int));
    assert(infix_loop_spec(toks, 5, outer, 0) == (Ok::<ExprV, ParserError>(outer), 5int));
    assert(infix_loop_spec(toks, 3, left12, 0) == (Ok::<ExprV, ParserError>(outer), 5int));
    assert(infix_loop_spec(toks, 1, n1, 0) == (Ok::<ExprV, ParserError>(outer), 5int));
    assert(primary_spec(toks, 0) == (Ok::<ExprV, ParserError>(n1), 1int));
    assert(prefix_spec(toks, 0) == (Ok::<ExprV, ParserError>(n1), 1int));
    assert(parse_expr_spec(toks, 0, 0) == (Ok::<ExprV, ParserError>(outer), 5int));
}

/// Parse one expression at the lowest precedence threshold.

pub fn parse(parser: &mut Parser) -> (r: ParseResult<Expr>)
    requires
        old(parser).wf(),
    ensures
        final(parser).wf(),
        final(parser).tokens == old(parser).tokens,
        step_matches_expr(
            r,
            final(parser).pos as int,
            expression_spec(old(parser).toks(), old(parser).pos as int),
        ),
{
    parser.expression()
}

} // verus!
