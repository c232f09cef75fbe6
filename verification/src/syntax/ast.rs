//! The abstract syntax tree produced by the parser and consumed by the
//! code generator.
//!
//! Each executable node type has a mathematical mirror (suffix `V`) used
//! by the contracts; [`DeepView`] connects the two.

use vstd::prelude::*;
use crate::syntax::error::{ParseResult, ParserError};
use crate::syntax::token::TokenType;

verus! {

pub type Program = Vec<Expr>;

pub type Identifier = String;

pub type BlockDecl = Vec<Expr>;

/// An expression or statement node. The language does not separate the
/// two: a program is an ordered sequence of these nodes.
#[derive(Debug, PartialEq)]
pub enum Expr {
    /// A nested statement list. It does not open a new variable scope:
    /// scoping is per function, not per block.
    Block(Vec<Expr>),
    Binary { left: Box<Expr>, op: BinaryOperator, right: Box<Expr> },
    Unary { op: UnaryOperator, expr: Box<Expr> },
    /// First-time declaration and binding of an identifier.
    LetAssign { ident: Identifier, initializer: Box<Expr> },
    /// Read of a previously bound identifier.
    LetGet { ident: Identifier },
    /// Write to a previously bound identifier.
    LetSet { ident: Identifier, expr: Box<Expr> },
    /// Evaluate the value, then hand it to the host `log` import.
    Print { value: Box<Expr> },
    IfElse { condition: Box<Expr>, then: Box<Expr>, else_: Option<Box<Expr>> },
    /// A function definition.
    Def { ident: Identifier, decl: FunDecl },
    Call { callee: Box<Expr>, args: Vec<Expr> },
    Literal(LiteralExpr),
}

#[derive(Debug, PartialEq)]
pub enum LiteralExpr {
    Number(i32),
    Str(String),
    True,
    False,
}

#[derive(Debug, Clone, Copy, PartialEq, Eq, Structural)]
pub enum BinaryOperator {
    Equal,
    BangEqual,
    GreaterThan,
    GreaterThanEqual,
    LessThan,
    LessThanEqual,
    Subtract,
    Add,
    Divide,
    Multiply,
}

#[derive(Debug, Clone, Copy, PartialEq, Eq, Structural)]
pub enum UnaryOperator {
    Negate,
    Not,
}

/// The parameter list and body of a function definition.
#[derive(Debug, PartialEq)]
pub struct FunDecl {
    pub args: Vec<Identifier>,
    pub body: BlockDecl,
}

/// The mathematical value of an [`Expr`].
pub enum ExprV {
    Block(Seq<ExprV>),
    Binary { left: Box<ExprV>, op: BinaryOperator, right: Box<ExprV> },
    Unary { op: UnaryOperator, expr: Box<ExprV> },
    LetAssign { ident: Seq<char>, initializer: Box<ExprV> },
    LetGet { ident: Seq<char> },
    LetSet { ident: Seq<char>, expr: Box<ExprV> },
    Print { value: Box<ExprV> },
    IfElse { condition: Box<ExprV>, then: Box<ExprV>, else_: Option<Box<ExprV>> },
    Def { ident: Seq<char>, decl: FunDeclV },
    Call { callee: Box<ExprV>, args: Seq<ExprV> },
    Literal(LiteralV),
}

/// The mathematical value of a [`LiteralExpr`].
pub enum LiteralV {
    Number(int),
    Str(Seq<char>),
    True,
    False,
}

/// The mathematical value of a [`FunDecl`].
pub struct FunDeclV {
    pub args: Seq<Seq<char>>,
    pub body: Seq<ExprV>,
}

impl DeepView for LiteralExpr {
    type V = LiteralV;

    open spec fn deep_view(&self) -> LiteralV {
        match self {
            LiteralExpr::Number(n) => LiteralV::Number(*n as int),
            LiteralExpr::Str(s) => LiteralV::Str(s@),
            LiteralExpr::True => LiteralV::True,
            LiteralExpr::False => LiteralV::False,
        }
    }
}

/// The views of a sequence of identifiers.
pub open spec fn string_views(vs: Seq<String>) -> Seq<Seq<char>> {
    Seq::new(vs.len(), |i: int| vs[i]@)
}

/// The mathematical value of an expression node.
pub open spec fn expr_view(e: Expr) -> ExprV
    decreases e, 0int,
{
    match e {
        Expr::Block(es) => ExprV::Block(expr_views(es@)),
        Expr::Binary { left, op, right } => ExprV::Binary {
            left: Box::new(expr_view(*left)),
            op,
            right: Box::new(expr_view(*right)),
        },
        Expr::Unary { op, expr } => ExprV::Unary { op, expr: Box::new(expr_view(*expr)) },
        Expr::LetAssign { ident, initializer } => ExprV::LetAssign {
            ident: ident@,
            initializer: Box::new(expr_view(*initializer)),
        },
        Expr::LetGet { ident } => ExprV::LetGet { ident: ident@ },
        Expr::LetSet { ident, expr } => ExprV::LetSet {
            ident: ident@,
            expr: Box::new(expr_view(*expr)),
        },
        Expr::Print { value } => ExprV::Print { value: Box::new(expr_view(*value)) },
        Expr::IfElse { condition, then, else_ } => ExprV::IfElse {
            condition: Box::new(expr_view(*condition)),
            then: Box::new(expr_view(*then)),
            else_: match else_ {
                Some(e2) => Some(Box::new(expr_view(*e2))),
                None => None,
            },
        },
        Expr::Def { ident, decl } => ExprV::Def {
            ident: ident@,
            decl: FunDeclV { args: string_views(decl.args@), body: expr_views(decl.body@) },
        },
        Expr::Call { callee, args } => ExprV::Call {
            callee: Box::new(expr_view(*callee)),
            args: expr_views(args@),
        },
        Expr::Literal(l) => ExprV::Literal(l.deep_view()),
    }
}

/// The mathematical values of a sequence of expression nodes.
pub open spec fn expr_views(es: Seq<Expr>) -> Seq<ExprV>
    decreases es, 1int,
{
    if es.len() == 0 {
        Seq::empty()
    } else {
        seq![expr_view(es[0])] + expr_views(es.drop_first())
    }
}

/// `expr_views` maps `expr_view` over the sequence, element by element.
pub proof fn lemma_expr_views_index(es: Seq<Expr>)
    ensures
        expr_views(es).len() == es.len(),
        forall|i: int| 0 <= i < es.len() ==> #[trigger] expr_views(es)[i] == expr_view(es[i]),
    decreases es.len(),
{
    if es.len() > 0 {
        lemma_expr_views_index(es.drop_first());
        assert forall|i: int| 0 <= i < es.len() implies #[trigger] expr_views(es)[i] == expr_view(
            es[i],
        ) by {
            if i > 0 {
                assert(es.drop_first()[i - 1] == es[i]);
                assert(expr_views(es)[i] == expr_views(es.drop_first())[i - 1]);
            }
        }
    }
}

impl DeepView for FunDecl {
    type V = FunDeclV;

    open spec fn deep_view(&self) -> FunDeclV {
        FunDeclV { args: string_views(self.args@), body: expr_views(self.body@) }
    }
}

impl DeepView for Expr {
    type V = ExprV;

    open spec fn deep_view(&self) -> ExprV {
        expr_view(*self)
    }
}

impl Expr {
    pub fn binary(left: Expr, op: BinaryOperator, right: Expr) -> (r: Expr)
        ensures
            r.deep_view() == (ExprV::Binary {
                left: Box::new(left.deep_view()),
                op,
                right: Box::new(right.deep_view()),
            }),
    {
        Expr::Binary { left: Box::new(left), op, right: Box::new(right) }
    }

    pub fn unary(op: UnaryOperator, expr: Expr) -> (r: Expr)
        ensures
            r.deep_view() == (ExprV::Unary { op, expr: Box::new(expr.deep_view()) }),
    {
        Expr::Unary { op, expr: Box::new(expr) }
    }

    pub fn let_assign(ident: Identifier, initializer: Expr) -> (r: Expr)
        ensures
            r.deep_view() == (ExprV::LetAssign {
                ident: ident@,
                initializer: Box::new(initializer.deep_view()),
            }),
    {
        Expr::LetAssign { ident, initializer: Box::new(initializer) }
    }

    pub fn let_get(ident: Identifier) -> (r: Expr)
        ensures
            r.deep_view() == (ExprV::LetGet { ident: ident@ }),
    {
        Expr::LetGet { ident }
    }

    pub fn let_set(ident: Identifier, expr: Expr) -> (r: Expr)
        ensures
            r.deep_view() == (ExprV::LetSet { ident: ident@, expr: Box::new(expr.deep_view()) }),
    {
        Expr::LetSet { ident, expr: Box::new(expr) }
    }

    pub fn def(ident: Identifier, decl: FunDecl) -> (r: Expr)
        ensures
            r.deep_view() == (ExprV::Def { ident: ident@, decl: decl.deep_view() }),
    {
        Expr::Def { ident, decl }
    }

    pub fn call(callee: Expr, args: Vec<Expr>) -> (r: Expr)
        ensures
            r.deep_view() == (ExprV::Call {
                callee: Box::new(callee.deep_view()),
                args: expr_views(args@),
            }),
    {
        Expr::Call { callee: Box::new(callee), args }
    }

    pub fn number(n: i32) -> (r: Expr)
        ensures
            r.deep_view() == ExprV::Literal(LiteralV::Number(n as int)),
    {
        Expr::Literal(LiteralExpr::Number(n))
    }

    pub fn string(s: String) -> (r: Expr)
        ensures
            r.deep_view() == ExprV::Literal(LiteralV::Str(s@)),
    {
        Expr::Literal(LiteralExpr::Str(s))
    }

    pub fn true_() -> (r: Expr)
        ensures
            r.deep_view() == ExprV::Literal(LiteralV::True),
    {
        Expr::Literal(LiteralExpr::True)
    }

    pub fn false_() -> (r: Expr)
        ensures
            r.deep_view() == ExprV::Literal(LiteralV::False),
    {
        Expr::Literal(LiteralExpr::False)
    }

    pub fn print(value: Expr) -> (r: Expr)
        ensures
            r.deep_view() == (ExprV::Print { value: Box::new(value.deep_view()) }),
    {
        Expr::Print { value: Box::new(value) }
    }

    pub fn if_else(condition: Expr, then: Expr, else_: Option<Expr>) -> (r: Expr)
        ensures
            r.deep_view() == (ExprV::IfElse {
                condition: Box::new(condition.deep_view()),
                then: Box::new(then.deep_view()),
                else_: match else_ {
                    Some(e) => Some(Box::new(e.deep_view())),
                    None => None,
                },
            }),
    {
        let else_boxed = match else_ {
            None => None,
            Some(e) => Some(Box::new(e)),
        };
        Expr::IfElse { condition: Box::new(condition), then: Box::new(then), else_: else_boxed }
    }
}

/// The binary operator a token denotes in infix position, if any.
pub open spec fn binop_of_token(token_type: TokenType) -> Result<BinaryOperator, ParserError> {
    match token_type {
        TokenType::Minus => Ok(BinaryOperator::Subtract),
        TokenType::Plus => Ok(BinaryOperator::Add),
        TokenType::Star => Ok(BinaryOperator::Multiply),
        TokenType::Slash => Ok(BinaryOperator::Divide),
        TokenType::BangEqual => Ok(BinaryOperator::BangEqual),
        TokenType::Equal => Ok(BinaryOperator::Equal),
        TokenType::EqualEqual => Ok(BinaryOperator::Equal),
        TokenType::LessThan => Ok(BinaryOperator::LessThan),
        TokenType::LessThanEqual => Ok(BinaryOperator::LessThanEqual),
        TokenType::GreaterThan => Ok(BinaryOperator::GreaterThan),
        TokenType::GreaterThanEqual => Ok(BinaryOperator::GreaterThanEqual),
        _ => Err(ParserError::ExpectedBinaryOperator(token_type)),
    }
}

impl BinaryOperator {
    pub fn from_token(token_type: &TokenType) -> (r: ParseResult<BinaryOperator>)
        ensures
            r == binop_of_token(*token_type),
    {
        match token_type {
            TokenType::Minus => Ok(BinaryOperator::Subtract),
            TokenType::Plus => Ok(BinaryOperator::Add),
            TokenType::Star => Ok(BinaryOperator::Multiply),
            TokenType::Slash => Ok(BinaryOperator::Divide),
            TokenType::BangEqual => Ok(BinaryOperator::BangEqual),
            TokenType::Equal => Ok(BinaryOperator::Equal),
            TokenType::EqualEqual => Ok(BinaryOperator::Equal),
            TokenType::LessThan => Ok(BinaryOperator::LessThan),
            TokenType::LessThanEqual => Ok(BinaryOperator::LessThanEqual),
            TokenType::GreaterThan => Ok(BinaryOperator::GreaterThan),
            TokenType::GreaterThanEqual => Ok(BinaryOperator::GreaterThanEqual),
            _ => Err(ParserError::ExpectedBinaryOperator(*token_type)),
        }
    }
}

/// The unary operator a token denotes in prefix position, if any.
pub open spec fn unop_of_token(token_type: TokenType) -> Result<UnaryOperator, ParserError> {
    match token_type {
        TokenType::Minus => Ok(UnaryOperator::Negate),
        TokenType::Bang => Ok(UnaryOperator::Not),
        _ => Err(ParserError::ExpectedUnaryOperator(token_type)),
    }
}

impl UnaryOperator {
    pub fn from_token(token_type: &TokenType) -> (r: ParseResult<UnaryOperator>)
        ensures
            r == unop_of_token(*token_type),
    {
        match token_type {
            TokenType::Minus => Ok(UnaryOperator::Negate),
            TokenType::Bang => Ok(UnaryOperator::Not),
            _ => Err(ParserError::ExpectedUnaryOperator(*token_type)),
        }
    }
}

impl FunDecl {
    pub fn new(args: Vec<Identifier>, body: BlockDecl) -> (r: FunDecl)
        ensures
            r.deep_view() == (FunDeclV { args: string_views(args@), body: expr_views(body@) }),
    {
        FunDecl { args, body }
    }
}

} // verus!
