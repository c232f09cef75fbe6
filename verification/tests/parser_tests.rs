use teal::syntax::ast::{BinaryOperator, Expr, FunDecl, UnaryOperator};
use teal::syntax::error::ParserError;
use teal::syntax::token::TokenType;
use teal::syntax::{lex, parse};

fn parse_source(source: &str) -> Result<Vec<Expr>, ParserError> {
    parse(lex(source).unwrap())
}

#[test]
fn precedence_multiplication_binds_tighter() {
    // `2 + 3 * 4` parses as `2 + (3 * 4)`, never `(2 + 3) * 4`.
    let ast = parse_source("2 + 3 * 4").unwrap();
    assert_eq!(
        ast,
        vec![Expr::binary(
            Expr::number(2),
            BinaryOperator::Add,
            Expr::binary(Expr::number(3), BinaryOperator::Multiply, Expr::number(4)),
        )]
    );
}

#[test]
fn precedence_same_level_is_left_associative() {
    let ast = parse_source("1 + 2 - 3").unwrap();
    assert_eq!(
        ast,
        vec![Expr::binary(
            Expr::binary(Expr::number(1), BinaryOperator::Add, Expr::number(2)),
            BinaryOperator::Subtract,
            Expr::number(3),
        )]
    );
}

#[test]
fn precedence_comparison_below_additive() {
    let ast = parse_source("1 + 2 <= 4").unwrap();
    assert_eq!(
        ast,
        vec![Expr::binary(
            Expr::binary(Expr::number(1), BinaryOperator::Add, Expr::number(2)),
            BinaryOperator::LessThanEqual,
            Expr::number(4),
        )]
    );
}

#[test]
fn parse_let_with_initializer() {
    let ast = parse_source("let x = 10;").unwrap();
    assert_eq!(ast, vec![Expr::let_assign("x".to_string(), Expr::number(10))]);
}

#[test]
fn parse_bare_let_uses_default() {
    // A bare declaration initializes to the fixed default value.
    let ast = parse_source("let x;").unwrap();
    assert_eq!(ast, vec![Expr::let_assign("x".to_string(), Expr::number(4))]);
}

#[test]
fn parse_assignment_and_read() {
    let ast = parse_source("x = 1; x;").unwrap();
    assert_eq!(
        ast,
        vec![
            Expr::let_set("x".to_string(), Expr::number(1)),
            Expr::let_get("x".to_string()),
        ]
    );
}

#[test]
fn parse_function_definition_and_call() {
    let ast = parse_source("fun sum(a, b) { a + b; } sum(4, 5);").unwrap();
    assert_eq!(
        ast,
        vec![
            Expr::def(
                "sum".to_string(),
                FunDecl::new(
                    vec!["a".to_string(), "b".to_string()],
                    vec![Expr::binary(
                        Expr::let_get("a".to_string()),
                        BinaryOperator::Add,
                        Expr::let_get("b".to_string()),
                    )],
                ),
            ),
            Expr::call(
                Expr::let_get("sum".to_string()),
                vec![Expr::number(4), Expr::number(5)],
            ),
        ]
    );
}

#[test]
fn parse_if_else() {
    let ast = parse_source("if 1 == 2 { print 1; } else { print 0; }").unwrap();
    assert_eq!(
        ast,
        vec![Expr::if_else(
            Expr::binary(Expr::number(1), BinaryOperator::Equal, Expr::number(2)),
            Expr::Block(vec![Expr::print(Expr::number(1))]),
            Some(Expr::Block(vec![Expr::print(Expr::number(0))])),
        )]
    );
}

#[test]
fn parse_if_without_else() {
    let ast = parse_source("if true { 1; }").unwrap();
    assert_eq!(
        ast,
        vec![Expr::if_else(
            Expr::true_(),
            Expr::Block(vec![Expr::number(1)]),
            None,
        )]
    );
}

#[test]
fn parse_unary_operators() {
    let ast = parse_source("-1; !true;").unwrap();
    assert_eq!(
        ast,
        vec![
            Expr::unary(UnaryOperator::Negate, Expr::number(1)),
            Expr::unary(UnaryOperator::Not, Expr::true_()),
        ]
    );
}

#[test]
fn parse_string_and_bool_literals() {
    let ast = parse_source("\"hi\"; true; false;").unwrap();
    assert_eq!(
        ast,
        vec![Expr::string("hi".to_string()), Expr::true_(), Expr::false_()]
    );
}

#[test]
fn parse_number_value_saturates() {
    // A literal beyond the representable range saturates at the largest
    // representable value instead of failing.
    let ast = parse_source("99999999999;").unwrap();
    assert_eq!(ast, vec![Expr::number(i32::MAX)]);
}

#[test]
fn parse_expected_error_carries_kinds_and_line() {
    assert_eq!(
        parse_source("let 5;"),
        Err(ParserError::Expected(
            TokenType::Identifier,
            TokenType::Number,
            1
        ))
    );
}

#[test]
fn parse_unexpected_error() {
    assert_eq!(
        parse_source("* 2"),
        Err(ParserError::Unexpected(TokenType::Star))
    );
}

#[test]
fn parse_missing_brace_error() {
    assert_eq!(
        parse_source("fun f() { 1;"),
        Err(ParserError::Expected(
            TokenType::RightBrace,
            TokenType::EOF,
            1
        ))
    );
}

#[test]
fn parse_empty_token_sequence_is_eof_error() {
    assert_eq!(parse(Vec::new()), Err(ParserError::UnexpectedEOF));
}

#[test]
fn binary_operator_from_token() {
    assert_eq!(
        BinaryOperator::from_token(&TokenType::Plus),
        Ok(BinaryOperator::Add)
    );
    assert_eq!(
        BinaryOperator::from_token(&TokenType::Semicolon),
        Err(ParserError::ExpectedBinaryOperator(TokenType::Semicolon))
    );
}

#[test]
fn unary_operator_from_token() {
    assert_eq!(
        UnaryOperator::from_token(&TokenType::Minus),
        Ok(UnaryOperator::Negate)
    );
    assert_eq!(
        UnaryOperator::from_token(&TokenType::Plus),
        Err(ParserError::ExpectedUnaryOperator(TokenType::Plus))
    );
}
