use lox::expression::Binary;
use lox::expression::Expression;
use lox::expression::Grouping;
use lox::expression::Literal;
use lox::expression::Unary;
use lox::scanner::Token;
use lox::scanner::TokenLiteral;
use lox::scanner::TokenType;

fn operator(token_type: TokenType, lexeme: &str) -> Token {
    Token::new(token_type, lexeme.to_string(), TokenLiteral::NoLiteral, 1usize)
}

#[test]
fn display_simple() {
    let expr = Expression::Binary(Binary {
        left: Box::new(Expression::Literal(Literal::Number("1".to_string()))),
        operator: operator(TokenType::Plus, "+"),
        right: Box::new(Expression::Literal(Literal::Number("2".to_string()))),
    });

    assert_eq!("(+ 1 2)", expr.render().as_str())
}

#[test]
fn display_complex() {
    let expr = Expression::Binary(Binary {
        left: Box::new(Expression::Unary(Unary {
            operator: operator(TokenType::Minus, "-"),
            right: Box::new(Expression::Literal(Literal::Number("123".to_string()))),
        })),
        operator: operator(TokenType::Star, "*"),
        right: Box::new(Expression::Grouping(Grouping(Box::new(Expression::Literal(
            Literal::Number("45.67".to_string()),
        ))))),
    });

    assert_eq!("(* (- 123) (group 45.67))", expr.render().as_str())
}

#[test]
fn display_other_literals() {
    assert_eq!("nil", Expression::Literal(Literal::Nil).render().as_str());
    assert_eq!("true", Expression::Literal(Literal::Boolean(true)).render().as_str());
    assert_eq!("false", Expression::Literal(Literal::Boolean(false)).render().as_str());
    assert_eq!("hi", Expression::Literal(Literal::String("hi".to_string())).render().as_str());
}
