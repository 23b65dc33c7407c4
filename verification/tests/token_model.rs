use attractor_engine::binding::Binding;
use attractor_engine::errors::{EvalError, LexError};
use attractor_engine::token::{Function, Operator, Token};
use attractor_engine::tokenizer::{multichar_token, one_char_token};

#[test]
fn precedence_levels() {
    assert_eq!(Operator::Add.precedence(), 1);
    assert_eq!(Operator::Subtract.precedence(), 1);
    assert_eq!(Operator::Negate.precedence(), 1);
    assert_eq!(Operator::Multiply.precedence(), 2);
    assert_eq!(Operator::Divide.precedence(), 2);
    assert_eq!(Operator::Power.precedence(), 3);
}

#[test]
fn compare_is_the_clamped_precedence_difference() {
    assert_eq!(Operator::Multiply.compare(&Operator::Add), 1);
    assert_eq!(Operator::Add.compare(&Operator::Multiply), -1);
    assert_eq!(Operator::Add.compare(&Operator::Subtract), 0);
    assert_eq!(Operator::Power.compare(&Operator::Add), 1);
}

#[test]
fn only_power_is_right_associative() {
    assert!(Operator::Add.left_associative());
    assert!(Operator::Subtract.left_associative());
    assert!(Operator::Negate.left_associative());
    assert!(Operator::Multiply.left_associative());
    assert!(Operator::Divide.left_associative());
    assert!(!Operator::Power.left_associative());
}

#[test]
fn function_arity() {
    assert_eq!(Function::Sin.num_arguments(), 1);
    assert_eq!(Function::Cos.num_arguments(), 1);
    assert_eq!(Function::Sign.num_arguments(), 1);
    assert_eq!(Function::Max.num_arguments(), 2);
    assert_eq!(Function::Min.num_arguments(), 2);
}

#[test]
fn numeric_and_function_predicates() {
    assert!(Token::Literal(0).is_numeric());
    assert!(Token::Identifier('x').is_numeric());
    assert!(!Token::Comma.is_numeric());
    assert!(Token::Function(Function::Sin).is_function());
    assert!(!Token::Literal(0).is_function());
}

#[test]
fn token_value_reads_literal_or_binding() {
    let mut binding = Binding::new();
    binding.set('x', 5.5f64.to_bits());
    assert_eq!(
        Token::Literal(2.0f64.to_bits()).value(&binding),
        Ok(2.0f64.to_bits())
    );
    assert_eq!(Token::Identifier('x').value(&binding), Ok(5.5f64.to_bits()));
    assert_eq!(
        Token::Identifier('q').value(&binding),
        Err(EvalError::UnknownIdentifier('q'))
    );
    assert_eq!(Token::Comma.value(&binding), Err(EvalError::UnexpectedToken));
}

#[test]
fn one_char_token_recognizes_symbols_only() {
    assert_eq!(
        one_char_token('+'),
        Some(Token::Operator(Operator::Add))
    );
    assert_eq!(
        one_char_token('-'),
        Some(Token::Operator(Operator::Subtract))
    );
    assert_eq!(one_char_token('('), Some(Token::Parenthesis(true)));
    assert_eq!(one_char_token(')'), Some(Token::Parenthesis(false)));
    assert_eq!(one_char_token(','), Some(Token::Comma));
    assert_eq!(one_char_token('s'), None);
    assert_eq!(one_char_token('3'), None);
    assert_eq!(one_char_token('@'), None);
}

#[test]
fn multichar_token_classifies_runs() {
    let mut params = Vec::new();
    assert_eq!(
        multichar_token(&vec!['s', 'i', 'n'], &mut params),
        Ok(Token::Function(Function::Sin))
    );
    assert_eq!(
        multichar_token(&vec!['2', '.', '5'], &mut params),
        Ok(Token::Literal(2.5f64.to_bits()))
    );
    assert!(params.is_empty());
    assert_eq!(
        multichar_token(&vec!['q'], &mut params),
        Ok(Token::Identifier('q'))
    );
    assert_eq!(params, vec!['q']);
    assert_eq!(
        multichar_token(&vec!['@'], &mut params),
        Err(LexError::InvalidCharacter('@'))
    );
    assert_eq!(
        multichar_token(&vec!['a', 'b'], &mut params),
        Err(LexError::UnknownFunction)
    );
    assert_eq!(
        multichar_token(&vec!['1', 'a'], &mut params),
        Err(LexError::ImproperLiteral)
    );
    assert_eq!(params, vec!['q']);
}

#[test]
fn binding_keeps_insertion_order_and_overwrites_in_place() {
    let mut binding = Binding::new();
    binding.set('r', 1.0f64.to_bits());
    binding.set('s', 2.0f64.to_bits());
    binding.set('r', 3.0f64.to_bits());
    assert_eq!(binding.len(), 2);
    assert_eq!(binding.entry(0), ('r', 3.0f64.to_bits()));
    assert_eq!(binding.entry(1), ('s', 2.0f64.to_bits()));
    assert_eq!(binding.get('r'), Some(3.0f64.to_bits()));
    assert_eq!(binding.get('s'), Some(2.0f64.to_bits()));
    assert_eq!(binding.get('t'), None);
    binding.set_value_at(1, 4.0f64.to_bits());
    assert_eq!(binding.get('s'), Some(4.0f64.to_bits()));
}
