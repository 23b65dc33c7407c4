use attractor_engine::binding::Binding;
use attractor_engine::errors::EvalError;
use attractor_engine::parser::{evaluate, parse};
use attractor_engine::token::Token;

fn eval_constant(expression: &str) -> f64 {
    let (postfix, binding) = parse(expression).unwrap();
    f64::from_bits(evaluate(&postfix, &binding).unwrap())
}

#[test]
fn round_trip_reproduces_hand_computed_arithmetic() {
    assert_eq!(eval_constant("2+3*4"), 14.0);
    assert_eq!(eval_constant("(2+3)*4"), 20.0);
}

#[test]
fn power_is_right_associative() {
    assert_eq!(eval_constant("2^3^2"), 512.0);
}

#[test]
fn subtraction_is_left_associative() {
    assert_eq!(eval_constant("8-3-2"), 3.0);
}

#[test]
fn unary_negation_of_identifier() {
    let (postfix, mut binding) = parse("-x").unwrap();
    binding.set('x', 5.0f64.to_bits());
    assert_eq!(f64::from_bits(evaluate(&postfix, &binding).unwrap()), -5.0);
}

#[test]
fn negated_base_in_parentheses_squares_positive() {
    assert_eq!(eval_constant("(-2)^2"), 4.0);
}

#[test]
fn function_grouping_max_sin_power() {
    assert_eq!(eval_constant("max(sin(0),2.718^0)"), 1.0);
}

#[test]
fn one_argument_functions() {
    assert_eq!(eval_constant("cos(0)"), 1.0);
    assert_eq!(eval_constant("sin(1)"), 1.0f64.sin());
    assert_eq!(eval_constant("cos(1)"), 1.0f64.cos());
    assert_eq!(eval_constant("sign(0-3)"), -1.0);
    assert_eq!(eval_constant("sign(2)"), 1.0);
    // f64::signum treats +0.0 as positive.
    assert_eq!(eval_constant("sign(0)"), 1.0);
}

#[test]
fn two_argument_functions() {
    assert_eq!(eval_constant("max(2,3)"), 3.0);
    assert_eq!(eval_constant("max(3,2)"), 3.0);
    assert_eq!(eval_constant("min(2,3)"), 2.0);
    assert_eq!(eval_constant("min(3,2)"), 2.0);
}

#[test]
fn arithmetic_operators() {
    assert_eq!(eval_constant("7-2"), 5.0);
    assert_eq!(eval_constant("1/2"), 0.5);
    assert_eq!(eval_constant("2^10"), 1024.0);
    assert_eq!(eval_constant("2.5*4"), 10.0);
}

#[test]
fn division_by_zero_is_infinity_not_an_error() {
    assert_eq!(eval_constant("1/0"), f64::INFINITY);
    assert_eq!(eval_constant("(0-1)/0"), f64::NEG_INFINITY);
}

#[test]
fn power_of_negative_base_with_fractional_exponent_is_nan() {
    assert!(eval_constant("(-2)^0.5").is_nan());
}

#[test]
fn trailing_operator_underflows_the_stack() {
    let (postfix, binding) = parse("x+").unwrap();
    assert_eq!(
        evaluate(&postfix, &binding),
        Err(EvalError::ImproperExpression)
    );
}

#[test]
fn empty_expression_leaves_no_value() {
    let (postfix, binding) = parse("").unwrap();
    assert_eq!(
        evaluate(&postfix, &binding),
        Err(EvalError::ImproperExpression)
    );
}

#[test]
fn two_operands_leave_two_values() {
    let (postfix, binding) = parse("(1)(2)").unwrap();
    assert_eq!(
        evaluate(&postfix, &binding),
        Err(EvalError::ImproperExpression)
    );
}

#[test]
fn unknown_identifier_is_reported() {
    let postfix = vec![Token::Identifier('q')];
    let binding = Binding::new();
    assert_eq!(
        evaluate(&postfix, &binding),
        Err(EvalError::UnknownIdentifier('q'))
    );
}

#[test]
fn grouping_token_in_postfix_is_unexpected() {
    let postfix = vec![Token::Parenthesis(true)];
    let binding = Binding::new();
    assert_eq!(evaluate(&postfix, &binding), Err(EvalError::UnexpectedToken));
}

#[test]
fn evaluation_is_deterministic() {
    let (postfix, mut binding) = parse("s*(y-x)+x^y").unwrap();
    binding.set('s', 10.0f64.to_bits());
    binding.set('x', 1.25f64.to_bits());
    binding.set('y', 3.5f64.to_bits());
    let first = evaluate(&postfix, &binding);
    let second = evaluate(&postfix, &binding);
    assert_eq!(first, second);
}

#[test]
fn minus_after_binary_operator_stays_subtraction() {
    // The unary-minus rule fires only at the start or after `(` or `,`;
    // a minus right after `*` is binary subtraction, which underflows here.
    let (postfix, binding) = parse("3*-2").unwrap();
    assert_eq!(
        evaluate(&postfix, &binding),
        Err(EvalError::ImproperExpression)
    );
}
