use attractor_engine::errors::LexError;
use attractor_engine::token::{Function, Operator, Token};
use attractor_engine::tokenizer::tokenize;

#[test]
fn tokenize_literal_and_operators() {
    let (tokens, params) = tokenize("2+3*4").unwrap();
    assert_eq!(
        tokens,
        vec![
            Token::Literal(2.0f64.to_bits()),
            Token::Operator(Operator::Add),
            Token::Literal(3.0f64.to_bits()),
            Token::Operator(Operator::Multiply),
            Token::Literal(4.0f64.to_bits()),
        ]
    );
    assert!(params.is_empty());
}

#[test]
fn tokenize_discovers_identifiers_in_first_seen_order() {
    let (tokens, params) = tokenize("s*(y-x)").unwrap();
    assert_eq!(params, vec!['s', 'y', 'x']);
    assert_eq!(
        tokens,
        vec![
            Token::Identifier('s'),
            Token::Operator(Operator::Multiply),
            Token::Parenthesis(true),
            Token::Identifier('y'),
            Token::Operator(Operator::Subtract),
            Token::Identifier('x'),
            Token::Parenthesis(false),
        ]
    );
}

#[test]
fn tokenize_strips_spaces_and_lowercases() {
    let (tokens, params) = tokenize(" X + Y ").unwrap();
    assert_eq!(
        tokens,
        vec![
            Token::Identifier('x'),
            Token::Operator(Operator::Add),
            Token::Identifier('y'),
        ]
    );
    assert_eq!(params, vec!['x', 'y']);
}

#[test]
fn tokenize_recognizes_functions_and_comma() {
    let (tokens, _) = tokenize("max(sin(0),1)").unwrap();
    assert_eq!(
        tokens,
        vec![
            Token::Function(Function::Max),
            Token::Parenthesis(true),
            Token::Function(Function::Sin),
            Token::Parenthesis(true),
            Token::Literal(0.0f64.to_bits()),
            Token::Parenthesis(false),
            Token::Comma,
            Token::Literal(1.0f64.to_bits()),
            Token::Parenthesis(false),
        ]
    );
}

#[test]
fn leading_minus_is_negation() {
    let (tokens, _) = tokenize("-x").unwrap();
    assert_eq!(
        tokens,
        vec![Token::Operator(Operator::Negate), Token::Identifier('x')]
    );
}

#[test]
fn minus_after_open_paren_or_comma_is_negation() {
    let (tokens, _) = tokenize("(-2)").unwrap();
    assert_eq!(
        tokens,
        vec![
            Token::Parenthesis(true),
            Token::Operator(Operator::Negate),
            Token::Literal(2.0f64.to_bits()),
            Token::Parenthesis(false),
        ]
    );
    let (tokens, _) = tokenize("max(1,-2)").unwrap();
    assert_eq!(tokens[4], Token::Operator(Operator::Negate));
}

#[test]
fn minus_after_operand_is_subtraction() {
    let (tokens, _) = tokenize("x-y").unwrap();
    assert_eq!(tokens[1], Token::Operator(Operator::Subtract));
}

#[test]
fn invalid_character_is_named() {
    assert_eq!(tokenize("1@2"), Err(LexError::InvalidCharacter('@')));
}

#[test]
fn unknown_function_name_is_an_error() {
    assert_eq!(tokenize("foo(1)"), Err(LexError::UnknownFunction));
}

#[test]
fn improper_literal_is_an_error() {
    assert_eq!(tokenize("1.2.3"), Err(LexError::ImproperLiteral));
    assert_eq!(tokenize("2a"), Err(LexError::ImproperLiteral));
}

#[test]
fn duplicate_identifiers_are_reported_once() {
    let (_, params) = tokenize("x*x+x").unwrap();
    assert_eq!(params, vec!['x']);
}
