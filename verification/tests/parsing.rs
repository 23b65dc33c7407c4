use attractor_engine::errors::{ParseError, SyntaxError};
use attractor_engine::parser::{infix_to_postfix, parse};
use attractor_engine::token::{Operator, Token};
use attractor_engine::tokenizer::tokenize;

#[test]
fn multiplication_binds_tighter_than_addition() {
    let (infix, _) = tokenize("2+3*4").unwrap();
    let postfix = infix_to_postfix(&infix).unwrap();
    assert_eq!(
        postfix,
        vec![
            Token::Literal(2.0f64.to_bits()),
            Token::Literal(3.0f64.to_bits()),
            Token::Literal(4.0f64.to_bits()),
            Token::Operator(Operator::Multiply),
            Token::Operator(Operator::Add),
        ]
    );
}

#[test]
fn parentheses_group_before_precedence() {
    let (infix, _) = tokenize("(2+3)*4").unwrap();
    let postfix = infix_to_postfix(&infix).unwrap();
    assert_eq!(
        postfix,
        vec![
            Token::Literal(2.0f64.to_bits()),
            Token::Literal(3.0f64.to_bits()),
            Token::Operator(Operator::Add),
            Token::Literal(4.0f64.to_bits()),
            Token::Operator(Operator::Multiply),
        ]
    );
}

#[test]
fn function_attaches_to_its_argument_list() {
    let (infix, _) = tokenize("sin(1)+2").unwrap();
    let postfix = infix_to_postfix(&infix).unwrap();
    assert_eq!(
        postfix,
        vec![
            Token::Literal(1.0f64.to_bits()),
            Token::Function(attractor_engine::token::Function::Sin),
            Token::Literal(2.0f64.to_bits()),
            Token::Operator(Operator::Add),
        ]
    );
}

#[test]
fn unclosed_open_paren_is_mismatched() {
    let (infix, _) = tokenize("(1+2").unwrap();
    assert_eq!(
        infix_to_postfix(&infix),
        Err(SyntaxError::MismatchedParentheses)
    );
}

#[test]
fn stray_close_paren_is_mismatched() {
    let (infix, _) = tokenize("1+2)").unwrap();
    assert_eq!(
        infix_to_postfix(&infix),
        Err(SyntaxError::MismatchedParentheses)
    );
}

#[test]
fn comma_outside_any_group_is_mismatched() {
    let (infix, _) = tokenize("1,2").unwrap();
    assert_eq!(
        infix_to_postfix(&infix),
        Err(SyntaxError::MismatchedParentheses)
    );
}

#[test]
fn parse_reports_lex_and_syntax_errors() {
    assert!(matches!(parse("1@2"), Err(ParseError::Lex(_))));
    assert!(matches!(
        parse("(1+2"),
        Err(ParseError::Syntax(SyntaxError::MismatchedParentheses))
    ));
}

#[test]
fn parse_defaults_every_identifier_to_zero() {
    let (_, binding) = parse("s*(y-x)").unwrap();
    assert_eq!(binding.len(), 3);
    assert_eq!(binding.get('s'), Some(0.0f64.to_bits()));
    assert_eq!(binding.get('y'), Some(0.0f64.to_bits()));
    assert_eq!(binding.get('x'), Some(0.0f64.to_bits()));
    assert_eq!(binding.get('q'), None);
}
