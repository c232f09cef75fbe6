//! The parser: recursive descent over the token sequence, with
//! precedence climbing for expressions.
//!
//! Every parsing function is specified by a mirror function over the
//! token views (suffix `_spec`), which gives for each cursor position the
//! parse result and the new cursor position. The executable parser is
//! proved to compute exactly these functions.

use vstd::prelude::*;
use crate::syntax::ast::{
    binop_of_token, expr_views, lemma_expr_views_index, string_views, unop_of_token,
    BinaryOperator, BlockDecl, Expr, ExprV, FunDecl, FunDeclV, Identifier, LiteralV,
    UnaryOperator,
};
use crate::syntax::chars::number_value;
use crate::syntax::error::{ParseResult, ParserError};
use crate::syntax::expr_parser::{prec_level, prec_of_kind, Precedence};
use crate::syntax::token::{Token, TokenType, TokenV};

verus! {

/// The token under the cursor, or an error past the end.
pub open spec fn peek_spec(toks: Seq<TokenV>, i: int) -> Result<TokenV, ParserError> {
    if 0 <= i && i < toks.len() {
        Ok(toks[i])
    } else {
        Err(ParserError::UnexpectedEOF)
    }
}

/// Consume the token under the cursor if it has the expected kind; fail
/// otherwise, reporting the expected kind, the actual kind, and the line.
pub open spec fn expect_spec(toks: Seq<TokenV>, i: int, expected: TokenType) -> (
    Result<TokenV, ParserError>,
    int,
) {
    match peek_spec(toks, i) {
        Err(e) => (Err(e), i),
        Ok(t) => if t.kind == expected {
            (Ok(t), i + 1)
        } else {
            (Err(ParserError::Expected(expected, t.kind, t.line as usize)), i)
        },
    }
}

/// Consume the token under the cursor exactly when it has the expected
/// kind.
pub open spec fn match_spec(toks: Seq<TokenV>, i: int, expected: TokenType) -> (
    Result<bool, ParserError>,
    int,
) {
    match peek_spec(toks, i) {
        Err(e) => (Err(e), i),
        Ok(t) => if t.kind == expected {
            (Ok(true), i + 1)
        } else {
            (Ok(false), i)
        },
    }
}

/// Consume an identifier token and yield its lexeme.
pub open spec fn identifier_spec(toks: Seq<TokenV>, i: int) -> (Result<Seq<char>, ParserError>, int) {
    let (r, i2) = expect_spec(toks, i, TokenType::Identifier);
    match r {
        Ok(t) => (Ok(t.lexeme), i2),
        Err(e) => (Err(e), i2),
    }
}

/// A primary expression: a literal, or an identifier read or write.
pub open spec fn primary_spec(toks: Seq<TokenV>, i: int) -> (Result<ExprV, ParserError>, int)
    decreases toks.len() - i, 3int,
{
    match peek_spec(toks, i) {
        Err(e) => (Err(e), i),
        Ok(t) => {
            match t.kind {
                TokenType::Number => (
                    Ok(ExprV::Literal(LiteralV::Number(number_value(t.lexeme)))),
                    i + 1,
                ),
                TokenType::Str => (Ok(ExprV::Literal(LiteralV::Str(t.lexeme))), i + 1),
                TokenType::True => (Ok(ExprV::Literal(LiteralV::True)), i + 1),
                TokenType::False => (Ok(ExprV::Literal(LiteralV::False)), i + 1),
                TokenType::Identifier => {
                    let (m, i2) = match_spec(toks, i + 1, TokenType::Equal);
                    match m {
                        Err(e) => (Err(e), i2),
                        Ok(true) => {
                            let (v, i3) = expression_spec(toks, i2);
                            match v {
                                Ok(e2) => (
                                    Ok(ExprV::LetSet { ident: t.lexeme, expr: Box::new(e2) }),
                                    i3,
                                ),
                                Err(e3) => (Err(e3), i3),
                            }
                        },
                        Ok(false) => (Ok(ExprV::LetGet { ident: t.lexeme }), i2),
                    }
                },
                _ => (Err(ParserError::ExpectedPrimary(t.kind)), i + 1),
            }
        },
    }
}

/// A unary operator application.
pub open spec fn unary_spec(toks: Seq<TokenV>, i: int) -> (Result<ExprV, ParserError>, int)
    decreases toks.len() - i, 3int,
{
    match peek_spec(toks, i) {
        Err(e) => (Err(e), i),
        Ok(t) => {
            match unop_of_token(t.kind) {
                Err(e) => (Err(e), i + 1),
                Ok(op) => {
                    let (r, i2) = parse_expr_spec(toks, i + 1, 8);
                    match r {
                        Ok(e2) => (Ok(ExprV::Unary { op, expr: Box::new(e2) }), i2),
                        Err(e3) => (Err(e3), i2),
                    }
                },
            }
        },
    }
}

/// A binary operator application: the right operand is parsed at the
/// operator's own precedence, making binary operators left-associative.
pub open spec fn binary_spec(toks: Seq<TokenV>, i: int, left: ExprV) -> (
    Result<ExprV, ParserError>,
    int,
)
    decreases toks.len() - i, 3int,
{
    match peek_spec(toks, i) {
        Err(e) => (Err(e), i),
        Ok(t) => {
            match binop_of_token(t.kind) {
                Err(e) => (Err(e), i + 1),
                Ok(op) => {
                    let (r, i2) = parse_expr_spec(toks, i + 1, prec_of_kind(t.kind));
                    match r {
                        Ok(right) => (
                            Ok(ExprV::Binary {
                                left: Box::new(left),
                                op,
                                right: Box::new(right),
                            }),
                            i2,
                        ),
                        Err(e3) => (Err(e3), i2),
                    }
                },
            }
        },
    }
}

/// The comma-separated arguments of a call, up to the closing
/// parenthesis.
pub open spec fn call_args_spec(toks: Seq<TokenV>, i: int) -> (Result<Seq<ExprV>, ParserError>, int)
    decreases toks.len() - i, 8int,
{
    match peek_spec(toks, i) {
        Err(e) => (Err(e), i),
        Ok(t) => {
            if t.kind == TokenType::RightParen || t.kind == TokenType::EOF {
                (Ok(Seq::<ExprV>::empty()), i)
            } else {
                let (e1, i2) = expression_spec(toks, i);
                match e1 {
                    Err(e) => (Err(e), i2),
                    Ok(a) => {
                        let (m, i3) = match_spec(toks, i2, TokenType::Comma);
                        match m {
                            Err(e) => (Err(e), i3),
                            Ok(true) => if i < i3 && i3 <= toks.len() {
                                let (rest, i4) = call_args_spec(toks, i3);
                                match rest {
                                    Ok(rs) => (Ok(seq![a] + rs), i4),
                                    Err(e) => (Err(e), i4),
                                }
                            } else {
                                (Err(ParserError::UnexpectedEOF), i3)
                            },
                            Ok(false) => (Ok(seq![a]), i3),
                        }
                    },
                }
            }
        },
    }
}

/// A call expression: the parenthesized argument list after a callee.
pub open spec fn call_spec(toks: Seq<TokenV>, i: int, left: ExprV) -> (
    Result<ExprV, ParserError>,
    int,
)
    decreases toks.len() - i, 3int,
{
    let (lp, i1) = expect_spec(toks, i, TokenType::LeftParen);
    match lp {
        Err(e) => (Err(e), i1),
        Ok(_) => {
            let (argsr, i2) = call_args_spec(toks, i1);
            match argsr {
                Err(e) => (Err(e), i2),
                Ok(args) => {
                    let (rp, i3) = expect_spec(toks, i2, TokenType::RightParen);
                    match rp {
                        Err(e) => (Err(e), i3),
                        Ok(_) => (Ok(ExprV::Call { callee: Box::new(left), args }), i3),
                    }
                },
            }
        },
    }
}

/// One prefix construct: a primary expression or a unary application.
pub open spec fn prefix_spec(toks: Seq<TokenV>, i: int) -> (Result<ExprV, ParserError>, int)
    decreases toks.len() - i, 4int,
{
    match peek_spec(toks, i) {
        Err(e) => (Err(e), i),
        Ok(t) => match t.kind {
            TokenType::Number | TokenType::Identifier | TokenType::Str | TokenType::True
                | TokenType::False => primary_spec(toks, i),
            TokenType::Bang | TokenType::Minus => unary_spec(toks, i),
            _ => (Err(ParserError::Unexpected(t.kind)), i),
        },
    }
}

/// One infix construct applied to `left`: a binary operator or a call.
pub open spec fn infix_spec(toks: Seq<TokenV>, i: int, left: ExprV) -> (
    Result<ExprV, ParserError>,
    int,
)
    decreases toks.len() - i, 4int,
{
    match peek_spec(toks, i) {
        Err(e) => (Err(e), i),
        Ok(t) => match t.kind {
            TokenType::BangEqual | TokenType::EqualEqual | TokenType::LessThan
                | TokenType::LessThanEqual | TokenType::GreaterThan | TokenType::GreaterThanEqual
                | TokenType::Plus | TokenType::Minus | TokenType::Star | TokenType::Slash
                => binary_spec(toks, i, left),
            TokenType::LeftParen => call_spec(toks, i, left),
            _ => (Err(ParserError::Unexpected(t.kind)), i),
        },
    }
}

/// The precedence-climbing loop: extend `left` with infix constructs
/// while the next token binds more tightly than `prec`.
pub open spec fn infix_loop_spec(toks: Seq<TokenV>, i: int, left: ExprV, prec: int) -> (
    Result<ExprV, ParserError>,
    int,
)
    decreases toks.len() - i, 5int,
{
    match peek_spec(toks, i) {
        Err(e) => (Err(e), i),
        Ok(t) => {
            if t.kind == TokenType::EOF {
                (Ok(left), i)
            } else if prec >= prec_of_kind(t.kind) {
                (Ok(left), i)
            } else {
                let (r, i2) = infix_spec(toks, i, left);
                match r {
                    Err(e) => (Err(e), i2),
                    Ok(l2) => if i < i2 && i2 <= toks.len() {
                        infix_loop_spec(toks, i2, l2, prec)
                    } else {
                        (Err(ParserError::UnexpectedEOF), i2)
                    },
                }
            }
        },
    }
}

/// One expression at precedence threshold `prec`: a prefix construct
/// extended by the precedence-climbing loop.
pub open spec fn parse_expr_spec(toks: Seq<TokenV>, i: int, prec: int) -> (
    Result<ExprV, ParserError>,
    int,
)
    decreases toks.len() - i, 6int,
{
    let (p, i1) = prefix_spec(toks, i);
    match p {
        Err(e) => (Err(e), i1),
        Ok(l) => if i < i1 && i1 <= toks.len() {
            infix_loop_spec(toks, i1, l, prec)
        } else {
            (Err(ParserError::UnexpectedEOF), i1)
        },
    }
}

/// One expression at the lowest precedence threshold.
pub open spec fn expression_spec(toks: Seq<TokenV>, i: int) -> (Result<ExprV, ParserError>, int)
    decreases toks.len() - i, 7int,
{
    parse_expr_spec(toks, i, 0)
}

/// An expression statement: an expression with an optional trailing
/// semicolon.
pub open spec fn expr_statement_spec(toks: Seq<TokenV>, i: int) -> (Result<ExprV, ParserError>, int)
    decreases toks.len() - i, 8int,
{
    let (e1, i1) = expression_spec(toks, i);
    match e1 {
        Err(e) => (Err(e), i1),
        Ok(ev) => {
            let (m, i2) = match_spec(toks, i1, TokenType::Semicolon);
            match m {
                Err(e) => (Err(e), i2),
                Ok(_) => (Ok(ev), i2),
            }
        },
    }
}

/// A `let` declaration: with an initializer after `=`, or bare with the
/// fixed default initializer.
pub open spec fn let_spec(toks: Seq<TokenV>, i: int) -> (Result<ExprV, ParserError>, int)
    decreases toks.len() - i, 8int,
{
    let (l, i1) = expect_spec(toks, i, TokenType::Let);
    match l {
        Err(e) => (Err(e), i1),
        Ok(_) => {
            let (idr, i2) = identifier_spec(toks, i1);
            match idr {
                Err(e) => (Err(e), i2),
                Ok(id) => {
                    let (m, i3) = match_spec(toks, i2, TokenType::Equal);
                    match m {
                        Err(e) => (Err(e), i3),
                        Ok(true) => {
                            let (init, i4) = expr_statement_spec(toks, i3);
                            match init {
                                Ok(ev) => (
                                    Ok(ExprV::LetAssign {
                                        ident: id,
                                        initializer: Box::new(ev),
                                    }),
                                    i4,
                                ),
                                Err(e) => (Err(e), i4),
                            }
                        },
                        Ok(false) => {
                            let (sc, i4) = expect_spec(toks, i3, TokenType::Semicolon);
                            match sc {
                                Err(e) => (Err(e), i4),
                                Ok(_) => (
                                    Ok(ExprV::LetAssign {
                                        ident: id,
                                        initializer: Box::new(
                                            ExprV::Literal(LiteralV::Number(4)),
                                        ),
                                    }),
                                    i4,
                                ),
                            }
                        },
                    }
                },
            }
        },
    }
}

/// A `print` statement.
pub open spec fn print_spec(toks: Seq<TokenV>, i: int) -> (Result<ExprV, ParserError>, int)
    decreases toks.len() - i, 8int,
{
    let (p, i1) = expect_spec(toks, i, TokenType::Print);
    match p {
        Err(e) => (Err(e), i1),
        Ok(_) => {
            let (v, i2) = expr_statement_spec(toks, i1);
            match v {
                Ok(ev) => (Ok(ExprV::Print { value: Box::new(ev) }), i2),
                Err(e) => (Err(e), i2),
            }
        },
    }
}

/// An `if` statement with an optional `else` branch.
pub open spec fn if_spec(toks: Seq<TokenV>, i: int) -> (Result<ExprV, ParserError>, int)
    decreases toks.len() - i, 8int,
{
    let (k, i1) = expect_spec(toks, i, TokenType::If);
    match k {
        Err(e) => (Err(e), i1),
        Ok(_) => {
            let (c, i2) = expression_spec(toks, i1);
            match c {
                Err(e) => (Err(e), i2),
                Ok(cond) => if i < i2 && i2 <= toks.len() {
                    let (th, i3) = declaration_spec(toks, i2);
                    match th {
                        Err(e) => (Err(e), i3),
                        Ok(thv) => {
                            let (m, i4) = match_spec(toks, i3, TokenType::Else);
                            match m {
                                Err(e) => (Err(e), i4),
                                Ok(true) => if i < i4 && i4 <= toks.len() {
                                    let (el, i5) = declaration_spec(toks, i4);
                                    match el {
                                        Err(e) => (Err(e), i5),
                                        Ok(ev) => (
                                            Ok(ExprV::IfElse {
                                                condition: Box::new(cond),
                                                then: Box::new(thv),
                                                else_: Some(Box::new(ev)),
                                            }),
                                            i5,
                                        ),
                                    }
                                } else {
                                    (Err(ParserError::UnexpectedEOF), i4)
                                },
                                Ok(false) => (
                                    Ok(ExprV::IfElse {
                                        condition: Box::new(cond),
                                        then: Box::new(thv),
                                        else_: None,
                                    }),
                                    i4,
                                ),
                            }
                        },
                    }
                } else {
                    (Err(ParserError::UnexpectedEOF), i2)
                },
            }
        },
    }
}

/// The comma-separated parameter names of a function definition.
pub open spec fn args_spec(toks: Seq<TokenV>, i: int) -> (Result<Seq<Seq<char>>, ParserError>, int)
    decreases toks.len() - i, 8int,
{
    match peek_spec(toks, i) {
        Err(e) => (Err(e), i),
        Ok(t) => {
            if t.kind == TokenType::RightParen || t.kind == TokenType::EOF {
                (Ok(Seq::<Seq<char>>::empty()), i)
            } else {
                let (idr, i2) = identifier_spec(toks, i);
                match idr {
                    Err(e) => (Err(e), i2),
                    Ok(id) => {
                        let (m, i3) = match_spec(toks, i2, TokenType::Comma);
                        match m {
                            Err(e) => (Err(e), i3),
                            Ok(true) => {
                                let (rest, i4) = args_spec(toks, i3);
                                match rest {
                                    Ok(rs) => (Ok(seq![id] + rs), i4),
                                    Err(e) => (Err(e), i4),
                                }
                            },
                            Ok(false) => (Ok(seq![id]), i3),
                        }
                    },
                }
            }
        },
    }
}

/// The statements of a block, up to and including the closing brace.
pub open spec fn block_spec(toks: Seq<TokenV>, i: int) -> (Result<Seq<ExprV>, ParserError>, int)
    decreases toks.len() - i, 10int,
{
    match peek_spec(toks, i) {
        Err(e) => (Err(e), i),
        Ok(t) => {
            if t.kind == TokenType::RightBrace || t.kind == TokenType::EOF {
                let (r, i2) = expect_spec(toks, i, TokenType::RightBrace);
                match r {
                    Ok(_) => (Ok(Seq::<ExprV>::empty()), i2),
                    Err(e) => (Err(e), i2),
                }
            } else {
                let (d, i2) = declaration_spec(toks, i);
                match d {
                    Err(e) => (Err(e), i2),
                    Ok(dv) => if i < i2 && i2 <= toks.len() {
                        let (rest, i3) = block_spec(toks, i2);
                        match rest {
                            Ok(rs) => (Ok(seq![dv] + rs), i3),
                            Err(e) => (Err(e), i3),
                        }
                    } else {
                        (Err(ParserError::UnexpectedEOF), i2)
                    },
                }
            }
        },
    }
}

/// A function definition: name, parameter list, and brace-delimited
/// body.
pub open spec fn fun_spec(toks: Seq<TokenV>, i: int) -> (Result<ExprV, ParserError>, int)
    decreases toks.len() - i, 8int,
{
    let (f, i1) = expect_spec(toks, i, TokenType::Fun);
    match f {
        Err(e) => (Err(e), i1),
        Ok(_) => {
            let (idr, i2) = identifier_spec(toks, i1);
            match idr {
                Err(e) => (Err(e), i2),
                Ok(id) => {
                    let (lp, i3) = expect_spec(toks, i2, TokenType::LeftParen);
                    match lp {
                        Err(e) => (Err(e), i3),
                        Ok(_) => {
                            let (argsr, i4) = args_spec(toks, i3);
                            match argsr {
                                Err(e) => (Err(e), i4),
                                Ok(args) => {
                                    let (rp, i5) = expect_spec(toks, i4, TokenType::RightParen);
                                    match rp {
                                        Err(e) => (Err(e), i5),
                                        Ok(_) => {
                                            let (lb, i6) = expect_spec(
                                                toks,
                                                i5,
                                                TokenType::LeftBrace,
                                            );
                                            match lb {
                                                Err(e) => (Err(e), i6),
                                                Ok(_) => if i < i6 && i6 <= toks.len() {
                                                    let (body, i7) = block_spec(toks, i6);
                                                    match body {
                                                        Err(e) => (Err(e), i7),
                                                        Ok(b) => (
                                                            Ok(ExprV::Def {
                                                                ident: id,
                                                                decl: FunDeclV {
                                                                    args,
                                                                    body: b,
                                                                },
                                                            }),
                                                            i7,
                                                        ),
                                                    }
                                                } else {
                                                    (Err(ParserError::UnexpectedEOF), i6)
                                                },
                                            }
                                        },
                                    }
                                },
                            }
                        },
                    }
                },
            }
        },
    }
}

/// A brace-delimited statement list in statement position.
pub open spec fn block_stmt_spec(toks: Seq<TokenV>, i: int) -> (Result<ExprV, ParserError>, int)
    decreases toks.len() - i, 8int,
{
    let (lb, i1) = expect_spec(toks, i, TokenType::LeftBrace);
    match lb {
        Err(e) => (Err(e), i1),
        Ok(_) => {
            let (body, i2) = block_spec(toks, i1);
            match body {
                Ok(b) => (Ok(ExprV::Block(b)), i2),
                Err(e) => (Err(e), i2),
            }
        },
    }
}

/// One top-level construct, selected by the kind of the next token.
pub open spec fn declaration_spec(toks: Seq<TokenV>, i: int) -> (Result<ExprV, ParserError>, int)
    decreases toks.len() - i, 9int,
{
    match peek_spec(toks, i) {
        Err(e) => (Err(e), i),
        Ok(t) => match t.kind {
            TokenType::Let => let_spec(toks, i),
            TokenType::Fun => fun_spec(toks, i),
            TokenType::Print => print_spec(toks, i),
            TokenType::If => if_spec(toks, i),
            TokenType::LeftBrace => block_stmt_spec(toks, i),
            _ => expr_statement_spec(toks, i),
        },
    }
}

/// A whole program: top-level constructs up to the end-of-input token.
pub open spec fn program_spec(toks: Seq<TokenV>, i: int) -> (Result<Seq<ExprV>, ParserError>, int)
    decreases toks.len() - i, 11int,
{
    match peek_spec(toks, i) {
        Err(e) => (Err(e), i),
        Ok(t) => {
            if t.kind == TokenType::EOF {
                (Ok(Seq::<ExprV>::empty()), i)
            } else {
                let (d, i2) = declaration_spec(toks, i);
                match d {
                    Err(e) => (Err(e), i2),
                    Ok(dv) => if i < i2 && i2 <= toks.len() {
                        let (rest, i3) = program_spec(toks, i2);
                        match rest {
                            Ok(rs) => (Ok(seq![dv] + rs), i3),
                            Err(e) => (Err(e), i3),
                        }
                    } else {
                        (Err(ParserError::UnexpectedEOF), i2)
                    },
                }
            }
        },
    }
}

pub proof fn lemma_primary_bounds(toks: Seq<TokenV>, i: int)
    requires
        0 <= i <= toks.len(),
    ensures
        i <= primary_spec(toks, i).1 <= toks.len(),
        primary_spec(toks, i).0 is Ok ==> primary_spec(toks, i).1 > i,
    decreases toks.len() - i, 3int,
{
    if let Ok(t) = peek_spec(toks, i) {
        if t.kind == TokenType::Identifier {
            let (m, i2) = match_spec(toks, i + 1, TokenType::Equal);
            if m == Ok::<bool, ParserError>(true) {
                lemma_expression_bounds(toks, i2);
            }
        }
    }
}

pub proof fn lemma_unary_bounds(toks: Seq<TokenV>, i: int)
    requires
        0 <= i <= toks.len(),
    ensures
        i <= unary_spec(toks, i).1 <= toks.len(),
        unary_spec(toks, i).0 is Ok ==> unary_spec(toks, i).1 > i,
    decreases toks.len() - i, 3int,
{
    if let Ok(t) = peek_spec(toks, i) {
        if unop_of_token(t.kind) is Ok {
            lemma_parse_expr_bounds(toks, i + 1, 8);
        }
    }
}

pub proof fn lemma_binary_bounds(toks: Seq<TokenV>, i: int, left: ExprV)
    requires
        0 <= i <= toks.len(),
    ensures
        i <= binary_spec(toks, i, left).1 <= toks.len(),
        binary_spec(toks, i, left).0 is Ok ==> binary_spec(toks, i, left).1 > i,
    decreases toks.len() - i, 3int,
{
    if let Ok(t) = peek_spec(toks, i) {
        if binop_of_token(t.kind) is Ok {
            lemma_parse_expr_bounds(toks, i + 1, prec_of_kind(t.kind));
        }
    }
}

pub proof fn lemma_call_args_bounds(toks: Seq<TokenV>, i: int)
    requires
        0 <= i <= toks.len(),
    ensures
        i <= call_args_spec(toks, i).1 <= toks.len(),
    decreases toks.len() - i, 8int,
{
    if let Ok(t) = peek_spec(toks, i) {
        if t.kind != TokenType::RightParen && t.kind != TokenType::EOF {
            lemma_expression_bounds(toks, i);
            let (e1, i2) = expression_spec(toks, i);
            if e1 is Ok {
                let (m, i3) = match_spec(toks, i2, TokenType::Comma);
                if m == Ok::<bool, ParserError>(true) && i < i3 && i3 <= toks.len() {
                    lemma_call_args_bounds(toks, i3);
                }
            }
        }
    }
}

pub proof fn lemma_call_bounds(toks: Seq<TokenV>, i: int, left: ExprV)
    requires
        0 <= i <= toks.len(),
    ensures
        i <= call_spec(toks, i, left).1 <= toks.len(),
        call_spec(toks, i, left).0 is Ok ==> call_spec(toks, i, left).1 > i,
    decreases toks.len() - i, 3int,
{
    let (lp, i1) = expect_spec(toks, i, TokenType::LeftParen);
    if lp is Ok {
        lemma_call_args_bounds(toks, i1);
    }
}

pub proof fn lemma_prefix_bounds(toks: Seq<TokenV>, i: int)
    requires
        0 <= i <= toks.len(),
    ensures
        i <= prefix_spec(toks, i).1 <= toks.len(),
        prefix_spec(toks, i).0 is Ok ==> prefix_spec(toks, i).1 > i,
    decreases toks.len() - i, 4int,
{
    lemma_primary_bounds(toks, i);
    lemma_unary_bounds(toks, i);
}

pub proof fn lemma_infix_bounds(toks: Seq<TokenV>, i: int, left: ExprV)
    requires
        0 <= i <= toks.len(),
    ensures
        i <= infix_spec(toks, i, left).1 <= toks.len(),
        infix_spec(toks, i, left).0 is Ok ==> infix_spec(toks, i, left).1 > i,
    decreases toks.len() - i, 4int,
{
    lemma_binary_bounds(toks, i, left);
    lemma_call_bounds(toks, i, left);
}

pub proof fn lemma_infix_loop_bounds(toks: Seq<TokenV>, i: int, left: ExprV, prec: int)
    requires
        0 <= i <= toks.len(),
    ensures
        i <= infix_loop_spec(toks, i, left, prec).1 <= toks.len(),
    decreases toks.len() - i, 5int,
{
    if let Ok(t) = peek_spec(toks, i) {
        if t.kind != TokenType::EOF && prec < prec_of_kind(t.kind) {
            lemma_infix_bounds(toks, i, left);
            let (r, i2) = infix_spec(toks, i, left);
            if let Ok(l2) = r {
                if i < i2 && i2 <= toks.len() {
                    lemma_infix_loop_bounds(toks, i2, l2, prec);
                }
            }
        }
    }
}

pub proof fn lemma_parse_expr_bounds(toks: Seq<TokenV>, i: int, prec: int)
    requires
        0 <= i <= toks.len(),
    ensures
        i <= parse_expr_spec(toks, i, prec).1 <= toks.len(),
        parse_expr_spec(toks, i, prec).0 is Ok ==> parse_expr_spec(toks, i, prec).1 > i,
    decreases toks.len() - i, 6int,
{
    lemma_prefix_bounds(toks, i);
    let (p, i1) = prefix_spec(toks, i);
    if let Ok(l) = p {
        if i < i1 && i1 <= toks.len() {
            lemma_infix_loop_bounds(toks, i1, l, prec);
        }
    }
}

pub proof fn lemma_expression_bounds(toks: Seq<TokenV>, i: int)
    requires
        0 <= i <= toks.len(),
    ensures
        i <= expression_spec(toks, i).1 <= toks.len(),
        expression_spec(toks, i).0 is Ok ==> expression_spec(toks, i).1 > i,
    decreases toks.len() - i, 7int,
{
    lemma_parse_expr_bounds(toks, i, 0);
}

pub proof fn lemma_expr_statement_bounds(toks: Seq<TokenV>, i: int)
    requires
        0 <= i <= toks.len(),
    ensures
        i <= expr_statement_spec(toks, i).1 <= toks.len(),
        expr_statement_spec(toks, i).0 is Ok ==> expr_statement_spec(toks, i).1 > i,
    decreases toks.len() - i, 8int,
{
    lemma_expression_bounds(toks, i);
}

pub proof fn lemma_let_bounds(toks: Seq<TokenV>, i: int)
    requires
        0 <= i <= toks.len(),
    ensures
        i <= let_spec(toks, i).1 <= toks.len(),
        let_spec(toks, i).0 is Ok ==> let_spec(toks, i).1 > i,
    decreases toks.len() - i, 8int,
{
    let (l, i1) = expect_spec(toks, i, TokenType::Let);
    if l is Ok {
        let (idr, i2) = identifier_spec(toks, i1);
        if idr is Ok {
            let (m, i3) = match_spec(toks, i2, TokenType::Equal);
            if m == Ok::<bool, ParserError>(true) {
                lemma_expr_statement_bounds(toks, i3);
            }
        }
    }
}

pub proof fn lemma_print_bounds(toks: Seq<TokenV>, i: int)
    requires
        0 <= i <= toks.len(),
    ensures
        i <= print_spec(toks, i).1 <= toks.len(),
        print_spec(toks, i).0 is Ok ==> print_spec(toks, i).1 > i,
    decreases toks.len() - i, 8int,
{
    let (p, i1) = expect_spec(toks, i, TokenType::Print);
    if p is Ok {
        lemma_expr_statement_bounds(toks, i1);
    }
}

pub proof fn lemma_if_bounds(toks: Seq<TokenV>, i: int)
    requires
        0 <= i <= toks.len(),
    ensures
        i <= if_spec(toks, i).1 <= toks.len(),
        if_spec(toks, i).0 is Ok ==> if_spec(toks, i).1 > i,
    decreases toks.len() - i, 8int,
{
    let (k, i1) = expect_spec(toks, i, TokenType::If);
    if k is Ok {
        lemma_expression_bounds(toks, i1);
        let (c, i2) = expression_spec(toks, i1);
        if c is Ok && i < i2 && i2 <= toks.len() {
            lemma_declaration_bounds(toks, i2);
            let (th, i3) = declaration_spec(toks, i2);
            if th is Ok {
                let (m, i4) = match_spec(toks, i3, TokenType::Else);
                if m == Ok::<bool, ParserError>(true) && i < i4 && i4 <= toks.len() {
                    lemma_declaration_bounds(toks, i4);
                }
            }
        }
    }
}

pub proof fn lemma_args_bounds(toks: Seq<TokenV>, i: int)
    requires
        0 <= i <= toks.len(),
    ensures
        i <= args_spec(toks, i).1 <= toks.len(),
    decreases toks.len() - i, 8int,
{
    if let Ok(t) = peek_spec(toks, i) {
        if t.kind != TokenType::RightParen && t.kind != TokenType::EOF {
            let (idr, i2) = identifier_spec(toks, i);
            if idr is Ok {
                let (m, i3) = match_spec(toks, i2, TokenType::Comma);
                if m == Ok::<bool, ParserError>(true) {
                    lemma_args_bounds(toks, i3);
                }
            }
        }
    }
}

pub proof fn lemma_block_bounds(toks: Seq<TokenV>, i: int)
    requires
        0 <= i <= toks.len(),
    ensures
        i <= block_spec(toks, i).1 <= toks.len(),
        block_spec(toks, i).0 is Ok ==> block_spec(toks, i).1 > i,
    decreases toks.len() - i, 10int,
{
    if let Ok(t) = peek_spec(toks, i) {
        if t.kind != TokenType::RightBrace && t.kind != TokenType::EOF {
            lemma_declaration_bounds(toks, i);
            let (d, i2) = declaration_spec(toks, i);
            if d is Ok && i < i2 && i2 <= toks.len() {
                lemma_block_bounds(toks, i2);
            }
        }
    }
}

pub proof fn lemma_fun_bounds(toks: Seq<TokenV>, i: int)
    requires
        0 <= i <= toks.len(),
    ensures
        i <= fun_spec(toks, i).1 <= toks.len(),
        fun_spec(toks, i).0 is Ok ==> fun_spec(toks, i).1 > i,
    decreases toks.len() - i, 8int,
{
    let (f, i1) = expect_spec(toks, i, TokenType::Fun);
    if f is Ok {
        let (idr, i2) = identifier_spec(toks, i1);
        if idr is Ok {
            let (lp, i3) = expect_spec(toks, i2, TokenType::LeftParen);
            if lp is Ok {
                lemma_args_bounds(toks, i3);
                let (argsr, i4) = args_spec(toks, i3);
                if argsr is Ok {
                    let (rp, i5) = expect_spec(toks, i4, TokenType::RightParen);
                    if rp is Ok {
                        let (lb, i6) = expect_spec(toks, i5, TokenType::LeftBrace);
                        if lb is Ok && i < i6 && i6 <= toks.len() {
                            lemma_block_bounds(toks, i6);
                        }
                    }
                }
            }
        }
    }
}

pub proof fn lemma_block_stmt_bounds(toks: Seq<TokenV>, i: int)
    requires
        0 <= i <= toks.len(),
    ensures
        i <= block_stmt_spec(toks, i).1 <= toks.len(),
        block_stmt_spec(toks, i).0 is Ok ==> block_stmt_spec(toks, i).1 > i,
    decreases toks.len() - i, 8int,
{
    let (lb, i1) = expect_spec(toks, i, TokenType::LeftBrace);
    if lb is Ok {
        lemma_block_bounds(toks, i1);
    }
}

pub proof fn lemma_declaration_bounds(toks: Seq<TokenV>, i: int)
    requires
        0 <= i <= toks.len(),
    ensures
        i <= declaration_spec(toks, i).1 <= toks.len(),
        declaration_spec(toks, i).0 is Ok ==> declaration_spec(toks, i).1 > i,
    decreases toks.len() - i, 9int,
{
    if peek_spec(toks, i) is Ok {
        lemma_let_bounds(toks, i);
        lemma_fun_bounds(toks, i);
        lemma_print_bounds(toks, i);
        lemma_if_bounds(toks, i);
        lemma_block_stmt_bounds(toks, i);
        lemma_expr_statement_bounds(toks, i);
    }
}

/// Whether an executable expression outcome and cursor agree with a
/// specification outcome.
pub open spec fn step_matches_expr(
    r: ParseResult<Expr>,
    pos: int,
    s: (Result<ExprV, ParserError>, int),
) -> bool {
    &&& pos == s.1
    &&& match r {
        Ok(e) => s.0 == Ok::<ExprV, ParserError>(e.deep_view()),
        Err(pe) => s.0 == Err::<ExprV, ParserError>(pe),
    }
}

/// Whether an executable token outcome and cursor agree with a
/// specification outcome.
pub open spec fn step_matches_token(
    r: ParseResult<Token>,
    pos: int,
    s: (Result<TokenV, ParserError>, int),
) -> bool {
    &&& pos == s.1
    &&& match r {
        Ok(t) => s.0 == Ok::<TokenV, ParserError>(t@),
        Err(pe) => s.0 == Err::<TokenV, ParserError>(pe),
    }
}

/// Whether an executable boolean outcome and cursor agree with a
/// specification outcome.
pub open spec fn step_matches_bool(
    r: ParseResult<bool>,
    pos: int,
    s: (Result<bool, ParserError>, int),
) -> bool {
    &&& pos == s.1
    &&& match r {
        Ok(b) => s.0 == Ok::<bool, ParserError>(b),
        Err(pe) => s.0 == Err::<bool, ParserError>(pe),
    }
}

/// Whether an executable identifier outcome and cursor agree with a
/// specification outcome.
pub open spec fn step_matches_ident(
    r: ParseResult<Identifier>,
    pos: int,
    s: (Result<Seq<char>, ParserError>, int),
) -> bool {
    &&& pos == s.1
    &&& match r {
        Ok(id) => s.0 == Ok::<Seq<char>, ParserError>(id@),
        Err(pe) => s.0 == Err::<Seq<char>, ParserError>(pe),
    }
}

/// The parser: an owned token sequence and a cursor into it.
pub struct Parser {
    pub tokens: Vec<Token>,
    pub pos: usize,
}

impl Parser {
    /// The views of the tokens.
    pub open spec fn toks(self) -> Seq<TokenV> {
        self.tokens.deep_view()
    }

    /// The cursor is inside the token sequence (one past the last
    /// position is allowed).
    pub open spec fn wf(self) -> bool {
        self.pos <= self.tokens.len()
    }

    pub fn new(tokens: Vec<Token>) -> (p: Parser)
        ensures
            p.wf(),
            p.toks() == tokens.deep_view(),
            p.pos == 0,
    {
        Parser { tokens, pos: 0 }
    }

    pub fn peek(&self) -> (r: ParseResult<&Token>)
        requires
            self.wf(),
        ensures
            match r {
                Ok(t) => peek_spec(self.toks(), self.pos as int) == Ok::<TokenV, ParserError>(t@),
                Err(e) => peek_spec(self.toks(), self.pos as int) == Err::<TokenV, ParserError>(e),
            },
    {
        if self.pos < self.tokens.len() {
            Ok(&self.tokens[self.pos])
        } else {
            Err(ParserError::UnexpectedEOF)
        }
    }

    pub fn peek_type(&self) -> (r: ParseResult<&TokenType>)
        requires
            self.wf(),
        ensures
            match r {
                Ok(tt) => peek_spec(self.toks(), self.pos as int) matches Ok(t) && t.kind == *tt,
                Err(e) => peek_spec(self.toks(), self.pos as int) == Err::<TokenV, ParserError>(e),
            },
    {
        match self.peek() {
            Ok(t) => Ok(&t.token_type),
            Err(e) => Err(e),
        }
    }

    pub fn consume(&mut self) -> (r: ParseResult<Token>)
        requires
            old(self).wf(),
        ensures
            final(self).wf(),
            final(self).tokens == old(self).tokens,
            ({
                let toks = old(self).toks();
                let i = old(self).pos as int;
                match r {
                    Ok(t) => {
                        &&& peek_spec(toks, i) == Ok::<TokenV, ParserError>(t@)
                        &&& final(self).pos as int == i + 1
                    },
                    Err(e) => {
                        &&& peek_spec(toks, i) == Err::<TokenV, ParserError>(e)
                        &&& final(self).pos as int == i
                    },
                }
            }),
    {
        if self.pos < self.tokens.len() {
            let t = &self.tokens[self.pos];
            let token = Token {
                token_type: t.token_type,
                source: t.source.clone(),
                position: t.position,
            };
            self.pos += 1;
            Ok(token)
        } else {
            Err(ParserError::UnexpectedEOF)
        }
    }

    pub fn check(&self, token_type: TokenType) -> (r: ParseResult<bool>)
        requires
            self.wf(),
        ensures
            match r {
                Ok(b) => peek_spec(self.toks(), self.pos as int) matches Ok(t) && b == (t.kind
                    == token_type),
                Err(e) => peek_spec(self.toks(), self.pos as int) == Err::<TokenV, ParserError>(e),
            },
    {
        match self.peek() {
            Ok(t) => Ok(t.token_type == token_type),
            Err(e) => Err(e),
        }
    }

    pub fn is_eof(&self) -> (r: ParseResult<bool>)
        requires
            self.wf(),
        ensures
            match r {
                Ok(b) => peek_spec(self.toks(), self.pos as int) matches Ok(t) && b == (t.kind
                    == TokenType::EOF),
                Err(e) => peek_spec(self.toks(), self.pos as int) == Err::<TokenV, ParserError>(e),
            },
    {
        self.check(TokenType::EOF)
    }

    pub fn match_(&mut self, token_type: TokenType) -> (r: ParseResult<bool>)
        requires
            old(self).wf(),
        ensures
            final(self).wf(),
            final(self).tokens == old(self).tokens,
            step_matches_bool(
                r,
                final(self).pos as int,
                match_spec(old(self).toks(), old(self).pos as int, token_type),
            ),
    {
        match self.check(token_type) {
            Err(e) => Err(e),
            Ok(false) => Ok(false),
            Ok(true) => match self.consume() {
                Ok(_) => Ok(true),
                Err(e) => Err(e),
            },
        }
    }

    pub fn expect(&mut self, expected: TokenType) -> (r: ParseResult<Token>)
        requires
            old(self).wf(),
        ensures
            final(self).wf(),
            final(self).tokens == old(self).tokens,
            step_matches_token(
                r,
                final(self).pos as int,
                expect_spec(old(self).toks(), old(self).pos as int, expected),
            ),
    {
        match self.check(expected) {
            Err(e) => Err(e),
            Ok(true) => self.consume(),
            Ok(false) => match self.peek() {
                Ok(t) => Err(ParserError::Expected(expected, t.token_type, t.position.line)),
                Err(e) => Err(e),
            },
        }
    }

    pub fn parse_identifier(&mut self) -> (r: ParseResult<Identifier>)
        requires
            old(self).wf(),
        ensures
            final(self).wf(),
            final(self).tokens == old(self).tokens,
            step_matches_ident(
                r,
                final(self).pos as int,
                identifier_spec(old(self).toks(), old(self).pos as int),
            ),
    {
        match self.expect(TokenType::Identifier) {
            Ok(t) => Ok(t.source),
            Err(e) => Err(e),
        }
    }

    fn parse_primary(&mut self) -> (r: ParseResult<Expr>)
        requires
            old(self).wf(),
        ensures
            final(self).wf(),
            final(self).tokens == old(self).tokens,
            step_matches_expr(
                r,
                final(self).pos as int,
                primary_spec(old(self).toks(), old(self).pos as int),
            ),
        decreases self.tokens@.len() - self.pos, 3int,
    {
        let token = match self.consume() {
            Err(e) => {
                return Err(e);
            },
            Ok(t) => t,
        };
        match token.token_type {
            TokenType::Number => Ok(Expr::number(crate::syntax::chars::number_token_value(
                &token.source,
            ))),
            TokenType::Str => Ok(Expr::string(token.source)),
            TokenType::True => Ok(Expr::true_()),
            TokenType::False => Ok(Expr::false_()),
            TokenType::Identifier => {
                let ident = token.source;
                let m = match self.match_(TokenType::Equal) {
                    Err(e) => {
                        return Err(e);
                    },
                    Ok(b) => b,
                };
                if m {
                    let expr = match self.expression() {
                        Err(e) => {
                            return Err(e);
                        },
                        Ok(x) => x,
                    };
                    Ok(Expr::let_set(ident, expr))
                } else {
                    Ok(Expr::let_get(ident))
                }
            },
            _ => Err(ParserError::ExpectedPrimary(token.token_type)),
        }
    }

    fn parse_unary(&mut self) -> (r: ParseResult<Expr>)
        requires
            old(self).wf(),
        ensures
            final(self).wf(),
            final(self).tokens == old(self).tokens,
            step_matches_expr(
                r,
                final(self).pos as int,
                unary_spec(old(self).toks(), old(self).pos as int),
            ),
        decreases self.tokens@.len() - self.pos, 3int,
    {
        let op_token = match self.consume() {
            Err(e) => {
                return Err(e);
            },
            Ok(t) => t,
        };
        let op = match UnaryOperator::from_token(&op_token.token_type) {
            Err(e) => {
                return Err(e);
            },
            Ok(o) => o,
        };
        let right = match self.parse_expr(Precedence::Unary) {
            Err(e) => {
                return Err(e);
            },
            Ok(x) => x,
        };
        Ok(Expr::unary(op, right))
    }

    fn parse_binary(&mut self, left: Expr) -> (r: ParseResult<Expr>)
        requires
            old(self).wf(),
        ensures
            final(self).wf(),
            final(self).tokens == old(self).tokens,
            step_matches_expr(
                r,
                final(self).pos as int,
                binary_spec(old(self).toks(), old(self).pos as int, left.deep_view()),
            ),
        decreases self.tokens@.len() - self.pos, 3int,
    {
        let op_token = match self.consume() {
            Err(e) => {
                return Err(e);
            },
            Ok(t) => t,
        };
        let precedence = Precedence::of_token(&op_token.token_type);
        let op = match BinaryOperator::from_token(&op_token.token_type) {
            Err(e) => {
                return Err(e);
            },
            Ok(o) => o,
        };
        let right = match self.parse_expr(precedence) {
            Err(e) => {
                return Err(e);
            },
            Ok(x) => x,
        };
        Ok(Expr::binary(left, op, right))
    }

    fn call_args(&mut self) -> (r: ParseResult<Vec<Expr>>)
        requires
            old(self).wf(),
        ensures
            final(self).wf(),
            final(self).tokens == old(self).tokens,
            ({
                let s = call_args_spec(old(self).toks(), old(self).pos as int);
                &&& final(self).pos as int == s.1
                &&& match r {
                    Ok(v) => s.0 == Ok::<Seq<ExprV>, ParserError>(expr_views(v@)),
                    Err(pe) => s.0 == Err::<Seq<ExprV>, ParserError>(pe),
                }
            }),
        decreases self.tokens@.len() - self.pos, 8int,
    {
        let ghost toks = self.toks();
        let ghost i0 = self.pos as int;
        let tt = match self.peek_type() {
            Err(e) => {
                return Err(e);
            },
            Ok(t) => *t,
        };
        if tt == TokenType::RightParen || tt == TokenType::EOF {
            let r: Vec<Expr> = Vec::new();
            proof {
                assert(expr_views(r@) =~= Seq::<ExprV>::empty());
            }
            return Ok(r);
        }
        let a = match self.expression() {
            Err(e) => {
                return Err(e);
            },
            Ok(x) => x,
        };
        let m = match self.match_(TokenType::Comma) {
            Err(e) => {
                return Err(e);
            },
            Ok(b) => b,
        };
        if m {
            proof {
                lemma_expression_bounds(toks, i0);
            }
            let mut rest = match self.call_args() {
                Err(e) => {
                    return Err(e);
                },
                Ok(v) => v,
            };
            let ghost old_rest = rest@;
            rest.insert(0, a);
            proof {
                lemma_expr_views_index(rest@);
                lemma_expr_views_index(old_rest);
                assert(rest@[0] == a);
                assert(rest@.drop_first() =~= old_rest);
                assert(expr_views(rest@) =~= seq![a.deep_view()] + expr_views(old_rest));
            }
            Ok(rest)
        } else {
            let mut v: Vec<Expr> = Vec::new();
            v.push(a);
            proof {
                assert(v@ =~= seq![a]);
                lemma_expr_views_index(v@);
                assert(expr_views(v@) =~= seq![a.deep_view()]);
            }
            Ok(v)
        }
    }

    fn parse_call(&mut self, left: Expr) -> (r: ParseResult<Expr>)
        requires
            old(self).wf(),
        ensures
            final(self).wf(),
            final(self).tokens == old(self).tokens,
            step_matches_expr(
                r,
                final(self).pos as int,
                call_spec(old(self).toks(), old(self).pos as int, left.deep_view()),
            ),
        decreases self.tokens@.len() - self.pos, 3int,
    {
        match self.expect(TokenType::LeftParen) {
            Err(e) => {
                return Err(e);
            },
            Ok(_) => {},
        };
        let args = match self.call_args() {
            Err(e) => {
                return Err(e);
            },
            Ok(v) => v,
        };
        match self.expect(TokenType::RightParen) {
            Err(e) => {
                return Err(e);
            },
            Ok(_) => {},
        };
        Ok(Expr::call(left, args))
    }

    fn parse_prefix(&mut self) -> (r: ParseResult<Expr>)
        requires
            old(self).wf(),
        ensures
            final(self).wf(),
            final(self).tokens == old(self).tokens,
            step_matches_expr(
                r,
                final(self).pos as int,
                prefix_spec(old(self).toks(), old(self).pos as int),
            ),
        decreases self.tokens@.len() - self.pos, 4int,
    {
        let tt = match self.peek_type() {
            Err(e) => {
                return Err(e);
            },
            Ok(t) => *t,
        };
        match tt {
            TokenType::Number | TokenType::Identifier | TokenType::Str | TokenType::True
                | TokenType::False => self.parse_primary(),
            TokenType::Bang | TokenType::Minus => self.parse_unary(),
            _ => Err(ParserError::Unexpected(tt)),
        }
    }

    fn parse_infix(&mut self, left: Expr) -> (r: ParseResult<Expr>)
        requires
            old(self).wf(),
        ensures
            final(self).wf(),
            final(self).tokens == old(self).tokens,
            step_matches_expr(
                r,
                final(self).pos as int,
                infix_spec(old(self).toks(), old(self).pos as int, left.deep_view()),
            ),
        decreases self.tokens@.len() - self.pos, 4int,
    {
        let tt = match self.peek_type() {
            Err(e) => {
                return Err(e);
            },
            Ok(t) => *t,
        };
        match tt {
            TokenType::BangEqual | TokenType::EqualEqual | TokenType::LessThan
                | TokenType::LessThanEqual | TokenType::GreaterThan | TokenType::GreaterThanEqual
                | TokenType::Plus | TokenType::Minus | TokenType::Star | TokenType::Slash => self
                .parse_binary(left),
            TokenType::LeftParen => self.parse_call(left),
            _ => Err(ParserError::Unexpected(tt)),
        }
    }

    fn parse_infix_loop(&mut self, left: Expr, precedence: Precedence) -> (r: ParseResult<Expr>)
        requires
            old(self).wf(),
        ensures
            final(self).wf(),
            final(self).tokens == old(self).tokens,
            step_matches_expr(
                r,
                final(self).pos as int,
                infix_loop_spec(
                    old(self).toks(),
                    old(self).pos as int,
                    left.deep_view(),
                    prec_level(precedence),
                ),
            ),
        decreases self.tokens@.len() - self.pos, 5int,
    {
        let ghost toks = self.toks();
        let ghost i0 = self.pos as int;
        let ghost leftv = left.deep_view();
        let tt = match self.peek_type() {
            Err(e) => {
                return Err(e);
            },
            Ok(t) => *t,
        };
        if tt == TokenType::EOF {
            return Ok(left);
        }
        let next_precedence = Precedence::of_token(&tt);
        if precedence.level() >= next_precedence.level() {
            return Ok(left);
        }
        let l2 = match self.parse_infix(left) {
            Err(e) => {
                return Err(e);
            },
            Ok(l) => l,
        };
        proof {
            lemma_infix_bounds(toks, i0, leftv);
        }
        self.parse_infix_loop(l2, precedence)
    }

    fn parse_expr(&mut self, precedence: Precedence) -> (r: ParseResult<Expr>)
        requires
            old(self).wf(),
        ensures
            final(self).wf(),
            final(self).tokens == old(self).tokens,
            step_matches_expr(
                r,
                final(self).pos as int,
                parse_expr_spec(old(self).toks(), old(self).pos as int, prec_level(precedence)),
            ),
        decreases self.tokens@.len() - self.pos, 6int,
    {
        let ghost toks = self.toks();
        let ghost i0 = self.pos as int;
        let left = match self.parse_prefix() {
            Err(e) => {
                return Err(e);
            },
            Ok(l) => l,
        };
        proof {
            lemma_prefix_bounds(toks, i0);
        }
        self.parse_infix_loop(left, precedence)
    }

    pub fn expression(&mut self) -> (r: ParseResult<Expr>)
        requires
            old(self).wf(),
        ensures
            final(self).wf(),
            final(self).tokens == old(self).tokens,
            step_matches_expr(
                r,
                final(self).pos as int,
                expression_spec(old(self).toks(), old(self).pos as int),
            ),
        decreases self.tokens@.len() - self.pos, 7int,
    {
        self.parse_expr(Precedence::Lowest)
    }

    pub fn parse_expr_statement(&mut self) -> (r: ParseResult<Expr>)
        requires
            old(self).wf(),
        ensures
            final(self).wf(),
            final(self).tokens == old(self).tokens,
            step_matches_expr(
                r,
                final(self).pos as int,
                expr_statement_spec(old(self).toks(), old(self).pos as int),
            ),
        decreases self.tokens@.len() - self.pos, 8int,
    {
        let expr = match self.expression() {
            Err(e) => {
                return Err(e);
            },
            Ok(x) => x,
        };
        match self.match_(TokenType::Semicolon) {
            Err(e) => {
                return Err(e);
            },
            Ok(_) => {},
        };
        Ok(expr)
    }

    fn parse_let(&mut self) -> (r: ParseResult<Expr>)
        requires
            old(self).wf(),
        ensures
            final(self).wf(),
            final(self).tokens == old(self).tokens,
            step_matches_expr(
                r,
                final(self).pos as int,
                let_spec(old(self).toks(), old(self).pos as int),
            ),
        decreases self.tokens@.len() - self.pos, 8int,
    {
        match self.expect(TokenType::Let) {
            Err(e) => {
                return Err(e);
            },
            Ok(_) => {},
        };
        let ident = match self.parse_identifier() {
            Err(e) => {
                return Err(e);
            },
            Ok(id) => id,
        };
        let m = match self.match_(TokenType::Equal) {
            Err(e) => {
                return Err(e);
            },
            Ok(b) => b,
        };
        if m {
            let initializer = match self.parse_expr_statement() {
                Err(e) => {
                    return Err(e);
                },
                Ok(x) => x,
            };
            Ok(Expr::let_assign(ident, initializer))
        } else {
            match self.expect(TokenType::Semicolon) {
                Err(e) => {
                    return Err(e);
                },
                Ok(_) => {},
            };
            // A bare declaration: the fixed default initializer.
            Ok(Expr::let_assign(ident, Expr::number(4)))
        }
    }

    fn parse_print(&mut self) -> (r: ParseResult<Expr>)
        requires
            old(self).wf(),
        ensures
            final(self).wf(),
            final(self).tokens == old(self).tokens,
            step_matches_expr(
                r,
                final(self).pos as int,
                print_spec(old(self).toks(), old(self).pos as int),
            ),
        decreases self.tokens@.len() - self.pos, 8int,
    {
        match self.expect(TokenType::Print) {
            Err(e) => {
                return Err(e);
            },
            Ok(_) => {},
        };
        let value = match self.parse_expr_statement() {
            Err(e) => {
                return Err(e);
            },
            Ok(x) => x,
        };
        Ok(Expr::print(value))
    }

    fn parse_if(&mut self) -> (r: ParseResult<Expr>)
        requires
            old(self).wf(),
        ensures
            final(self).wf(),
            final(self).tokens == old(self).tokens,
            step_matches_expr(
                r,
                final(self).pos as int,
                if_spec(old(self).toks(), old(self).pos as int),
            ),
        decreases self.tokens@.len() - self.pos, 8int,
    {
        let ghost toks = self.toks();
        let ghost i0 = self.pos as int;
        match self.expect(TokenType::If) {
            Err(e) => {
                return Err(e);
            },
            Ok(_) => {},
        };
        let condition = match self.expression() {
            Err(e) => {
                return Err(e);
            },
            Ok(x) => x,
        };
        proof {
            lemma_expression_bounds(toks, i0 + 1);
        }
        let ghost i2 = self.pos as int;
        let then = match self.declaration() {
            Err(e) => {
                return Err(e);
            },
            Ok(x) => x,
        };
        proof {
            lemma_declaration_bounds(toks, i2);
        }
        let m = match self.match_(TokenType::Else) {
            Err(e) => {
                return Err(e);
            },
            Ok(b) => b,
        };
        if m {
            let else_ = match self.declaration() {
                Err(e) => {
                    return Err(e);
                },
                Ok(x) => x,
            };
            Ok(Expr::if_else(condition, then, Some(else_)))
        } else {
            Ok(Expr::if_else(condition, then, None))
        }
    }

    pub fn parse_args(&mut self) -> (r: ParseResult<Vec<Identifier>>)
        requires
            old(self).wf(),
        ensures
            final(self).wf(),
            final(self).tokens == old(self).tokens,
            ({
                let s = args_spec(old(self).toks(), old(self).pos as int);
                &&& final(self).pos as int == s.1
                &&& match r {
                    Ok(v) => s.0 == Ok::<Seq<Seq<char>>, ParserError>(string_views(v@)),
                    Err(pe) => s.0 == Err::<Seq<Seq<char>>, ParserError>(pe),
                }
            }),
        decreases self.tokens@.len() - self.pos, 8int,
    {
        let tt = match self.peek_type() {
            Err(e) => {
                return Err(e);
            },
            Ok(t) => *t,
        };
        if tt == TokenType::RightParen || tt == TokenType::EOF {
            let r: Vec<Identifier> = Vec::new();
            proof {
                assert(string_views(r@) =~= Seq::<Seq<char>>::empty());
            }
            return Ok(r);
        }
        let id = match self.parse_identifier() {
            Err(e) => {
                return Err(e);
            },
            Ok(x) => x,
        };
        let m = match self.match_(TokenType::Comma) {
            Err(e) => {
                return Err(e);
            },
            Ok(b) => b,
        };
        if m {
            let mut rest = match self.parse_args() {
                Err(e) => {
                    return Err(e);
                },
                Ok(v) => v,
            };
            let ghost old_rest = rest@;
            rest.insert(0, id);
            proof {
                assert(rest@[0] == id);
                assert(rest@.drop_first() =~= old_rest);
                assert(string_views(rest@) =~= seq![id@] + string_views(old_rest));
            }
            Ok(rest)
        } else {
            let mut v: Vec<Identifier> = Vec::new();
            v.push(id);
            proof {
                assert(v@ =~= seq![id]);
                assert(string_views(v@) =~= seq![id@]);
            }
            Ok(v)
        }
    }

    fn block(&mut self) -> (r: ParseResult<BlockDecl>)
        requires
            old(self).wf(),
        ensures
            final(self).wf(),
            final(self).tokens == old(self).tokens,
            ({
                let s = block_spec(old(self).toks(), old(self).pos as int);
                &&& final(self).pos as int == s.1
                &&& match r {
                    Ok(v) => s.0 == Ok::<Seq<ExprV>, ParserError>(expr_views(v@)),
                    Err(pe) => s.0 == Err::<Seq<ExprV>, ParserError>(pe),
                }
            }),
        decreases self.tokens@.len() - self.pos, 10int,
    {
        let ghost toks = self.toks();
        let ghost i0 = self.pos as int;
        let tt = match self.peek_type() {
            Err(e) => {
                return Err(e);
            },
            Ok(t) => *t,
        };
        if tt == TokenType::RightBrace || tt == TokenType::EOF {
            match self.expect(TokenType::RightBrace) {
                Err(e) => {
                    return Err(e);
                },
                Ok(_) => {},
            };
            let r: Vec<Expr> = Vec::new();
            proof {
                assert(expr_views(r@) =~= Seq::<ExprV>::empty());
            }
            return Ok(r);
        }
        let d = match self.declaration() {
            Err(e) => {
                return Err(e);
            },
            Ok(x) => x,
        };
        proof {
            lemma_declaration_bounds(toks, i0);
        }
        let mut rest = match self.block() {
            Err(e) => {
                return Err(e);
            },
            Ok(v) => v,
        };
        let ghost old_rest = rest@;
        rest.insert(0, d);
        proof {
            lemma_expr_views_index(rest@);
            lemma_expr_views_index(old_rest);
            assert(rest@[0] == d);
            assert(rest@.drop_first() =~= old_rest);
            assert(expr_views(rest@) =~= seq![d.deep_view()] + expr_views(old_rest));
        }
        Ok(rest)
    }

    fn parse_fun(&mut self) -> (r: ParseResult<Expr>)
        requires
            old(self).wf(),
        ensures
            final(self).wf(),
            final(self).tokens == old(self).tokens,
            step_matches_expr(
                r,
                final(self).pos as int,
                fun_spec(old(self).toks(), old(self).pos as int),
            ),
        decreases self.tokens@.len() - self.pos, 8int,
    {
        let ghost toks = self.toks();
        let ghost i0 = self.pos as int;
        match self.expect(TokenType::Fun) {
            Err(e) => {
                return Err(e);
            },
            Ok(_) => {},
        };
        let ident = match self.parse_identifier() {
            Err(e) => {
                return Err(e);
            },
            Ok(x) => x,
        };
        match self.expect(TokenType::LeftParen) {
            Err(e) => {
                return Err(e);
            },
            Ok(_) => {},
        };
        proof {
            lemma_args_bounds(toks, i0 + 3);
        }
        let args = match self.parse_args() {
            Err(e) => {
                return Err(e);
            },
            Ok(v) => v,
        };
        match self.expect(TokenType::RightParen) {
            Err(e) => {
                return Err(e);
            },
            Ok(_) => {},
        };
        match self.expect(TokenType::LeftBrace) {
            Err(e) => {
                return Err(e);
            },
            Ok(_) => {},
        };
        let body = match self.block() {
            Err(e) => {
                return Err(e);
            },
            Ok(v) => v,
        };
        Ok(Expr::def(ident, FunDecl::new(args, body)))
    }

    fn parse_block(&mut self) -> (r: ParseResult<Expr>)
        requires
            old(self).wf(),
        ensures
            final(self).wf(),
            final(self).tokens == old(self).tokens,
            step_matches_expr(
                r,
                final(self).pos as int,
                block_stmt_spec(old(self).toks(), old(self).pos as int),
            ),
        decreases self.tokens@.len() - self.pos, 8int,
    {
        match self.expect(TokenType::LeftBrace) {
            Err(e) => {
                return Err(e);
            },
            Ok(_) => {},
        };
        let body = match self.block() {
            Err(e) => {
                return Err(e);
            },
            Ok(v) => v,
        };
        Ok(Expr::Block(body))
    }

    pub fn declaration(&mut self) -> (r: ParseResult<Expr>)
        requires
            old(self).wf(),
        ensures
            final(self).wf(),
            final(self).tokens == old(self).tokens,
            step_matches_expr(
                r,
                final(self).pos as int,
                declaration_spec(old(self).toks(), old(self).pos as int),
            ),
        decreases self.tokens@.len() - self.pos, 9int,
    {
        let tt = match self.peek_type() {
            Err(e) => {
                return Err(e);
            },
            Ok(t) => *t,
        };
        match tt {
            TokenType::Let => self.parse_let(),
            TokenType::Fun => self.parse_fun(),
            TokenType::Print => self.parse_print(),
            TokenType::If => self.parse_if(),
            TokenType::LeftBrace => self.parse_block(),
            _ => self.parse_expr_statement(),
        }
    }

    pub fn parse_program(&mut self) -> (r: ParseResult<Vec<Expr>>)
        requires
            old(self).wf(),
        ensures
            final(self).wf(),
            final(self).tokens == old(self).tokens,
            ({
                let s = program_spec(old(self).toks(), old(self).pos as int);
                &&& final(self).pos as int == s.1
                &&& match r {
                    Ok(v) => s.0 == Ok::<Seq<ExprV>, ParserError>(expr_views(v@)),
                    Err(pe) => s.0 == Err::<Seq<ExprV>, ParserError>(pe),
                }
            }),
        decreases self.tokens@.len() - self.pos, 11int,
    {
        let ghost toks = self.toks();
        let ghost i0 = self.pos as int;
        let tt = match self.peek_type() {
            Err(e) => {
                return Err(e);
            },
            Ok(t) => *t,
        };
        if tt == TokenType::EOF {
            let r: Vec<Expr> = Vec::new();
            proof {
                assert(expr_views(r@) =~= Seq::<ExprV>::empty());
            }
            return Ok(r);
        }
        let d = match self.declaration() {
            Err(e) => {
                return Err(e);
            },
            Ok(x) => x,
        };
        proof {
            lemma_declaration_bounds(toks, i0);
        }
        let mut rest = match self.parse_program() {
            Err(e) => {
                return Err(e);
            },
            Ok(v) => v,
        };
        let ghost old_rest = rest@;
        rest.insert(0, d);
        proof {
            lemma_expr_views_index(rest@);
            lemma_expr_views_index(old_rest);
            assert(rest@[0] == d);
            assert(rest@.drop_first() =~= old_rest);
            assert(expr_views(rest@) =~= seq![d.deep_view()] + expr_views(old_rest));
        }
        Ok(rest)
    }
}

} // verus!
