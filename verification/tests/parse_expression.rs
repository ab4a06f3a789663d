use rcc::ast::Expression;
use rcc::parser::Parser;
use rcc::token::Operator::{Plus, Slash, Star};
use rcc::token::Separator::{LParen, RParen, Semi};
use rcc::token::{Token, TokenKind};

#[test]
fn test_parse_expression() {
    let tokens = vec![
        Token { kind: TokenKind::IntLit(1), pos: Default::default() },
        Token { kind: TokenKind::Operator(Plus), pos: Default::default() },
        Token { kind: TokenKind::IntLit(2), pos: Default::default() },
        Token { kind: TokenKind::Separator(Semi), pos: Default::default() },
    ];
    let mut parser = Parser::new(&tokens);
    let expression = parser.parse_expression();
    assert_eq!(
        expression.unwrap(),
        Some(Expression::Binary {
            left: Box::new(Expression::IntLit(1)),
            op: Plus,
            right: Box::new(Expression::IntLit(2)),
        })
    );
}

#[test]
fn test_parse_expression_parentheses() {
    let tokens = vec![
        Token { kind: TokenKind::Separator(LParen), pos: Default::default() },
        Token { kind: TokenKind::IntLit(1), pos: Default::default() },
        Token { kind: TokenKind::Operator(Plus), pos: Default::default() },
        Token { kind: TokenKind::IntLit(2), pos: Default::default() },
        Token { kind: TokenKind::Separator(RParen), pos: Default::default() },
        Token { kind: TokenKind::Separator(Semi), pos: Default::default() },
    ];
    let mut parser = Parser::new(&tokens);
    let expression = parser.parse_expression();
    assert_eq!(
        expression.unwrap(),
        Some(Expression::Binary {
            left: Box::new(Expression::IntLit(1)),
            op: Plus,
            right: Box::new(Expression::IntLit(2)),
        })
    );
}

#[test]
fn test_parse_expression_precedence() {
    let tokens = vec![
        Token { kind: TokenKind::IntLit(1), pos: Default::default() },
        Token { kind: TokenKind::Operator(Star), pos: Default::default() },
        Token { kind: TokenKind::IntLit(2), pos: Default::default() },
        Token { kind: TokenKind::Operator(Plus), pos: Default::default() },
        Token { kind: TokenKind::IntLit(3), pos: Default::default() },
    ];
    let mut parser = Parser::new(&tokens);
    let expression = parser.parse_expression();
    assert_eq!(
        expression.unwrap(),
        Some(Expression::Binary {
            left: Box::new(Expression::Binary {
                left: Box::new(Expression::IntLit(1)),
                op: Star,
                right: Box::new(Expression::IntLit(2)),
            }),
            op: Plus,
            right: Box::new(Expression::IntLit(3)),
        })
    );
}

#[test]
fn test_parse_expression_precedence_parentheses() {
    let tokens = vec![
        Token { kind: TokenKind::IntLit(1), pos: Default::default() },
        Token { kind: TokenKind::Operator(Star), pos: Default::default() },
        Token { kind: TokenKind::Separator(LParen), pos: Default::default() },
        Token { kind: TokenKind::IntLit(2), pos: Default::default() },
        Token { kind: TokenKind::Operator(Plus), pos: Default::default() },
        Token { kind: TokenKind::IntLit(3), pos: Default::default() },
        Token { kind: TokenKind::Separator(RParen), pos: Default::default() },
    ];
    let mut parser = Parser::new(&tokens);
    let expression = parser.parse_expression();
    assert_eq!(
        expression.unwrap(),
        Some(Expression::Binary {
            left: Box::new(Expression::IntLit(1)),
            op: Star,
            right: Box::new(Expression::Binary {
                left: Box::new(Expression::IntLit(2)),
                op: Plus,
                right: Box::new(Expression::IntLit(3)),
            }),
        })
    );
}

#[test]
fn test_parse_expression_invalid() {
    let tokens = vec![
        Token { kind: TokenKind::Operator(Star), pos: Default::default() },
        Token { kind: TokenKind::Operator(Slash), pos: Default::default() },
    ];

    let mut parser = Parser::new(&tokens);
    let expression = parser.parse_expression();
    assert!(expression.is_err());
}

#[test]
fn test_parse_expression_invalid2() {
    let tokens = vec![
        Token { kind: TokenKind::IntLit(1), pos: Default::default() },
        Token { kind: TokenKind::IntLit(2), pos: Default::default() },
    ];
    let mut parser = Parser::new(&tokens);
    let expression = parser.parse_expression();
    assert!(expression.is_err());
}

#[test]
fn test_parse_expression_invalid3() {
    let tokens = vec![
        Token { kind: TokenKind::IntLit(1), pos: Default::default() },
        Token { kind: TokenKind::Operator(Plus), pos: Default::default() },
    ];
    let mut parser = Parser::new(&tokens);
    let expression = parser.parse_expression();
    assert!(expression.is_err());
}

#[test]
fn test_parse_expression_invalid4() {
    let tokens = vec![
        Token { kind: TokenKind::Separator(LParen), pos: Default::default() },
        Token { kind: TokenKind::IntLit(1), pos: Default::default() },
        Token { kind: TokenKind::Operator(Plus), pos: Default::default() },
        Token { kind: TokenKind::IntLit(2), pos: Default::default() },
        Token { kind: TokenKind::Separator(RParen), pos: Default::default() },
        Token { kind: TokenKind::IntLit(3), pos: Default::default() },
    ];
    let mut parser = Parser::new(&tokens);
    let expression = parser.parse_expression();
    assert!(expression.is_err());
}

#[test]
fn test_parse_expression_invalid_parentheses() {
    let tokens = vec![
        Token { kind: TokenKind::Separator(LParen), pos: Default::default() },
        Token { kind: TokenKind::Separator(RParen), pos: Default::default() },
        Token { kind: TokenKind::Separator(RParen), pos: Default::default() },
    ];
    let mut parser = Parser::new(&tokens);
    let expression = parser.parse_expression();
    assert!(expression.is_err());
}
