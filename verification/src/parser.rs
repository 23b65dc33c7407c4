//! The infix-to-postfix converter (shunting-yard) and the stack-based
//! postfix evaluator.

use vstd::prelude::*;
use crate::binding::{Binding, distinct_keys, lookup};
use crate::errors::{EvalError, ParseError, SyntaxError};
use crate::numeric;
use crate::numeric::{
    add_bits, cos_bits, div_bits, max_bits, min_bits, mul_bits, neg_bits, pow_bits,
    signum_bits, sin_bits, sub_bits,
};
use crate::token::{Function, Operator, Token};
use crate::tokenizer;
use crate::tokenizer::{distinct_chars, lemma_tokenize_params_distinct, spec_tokenize};

verus! {

/// The converter's pop rule: a stacked operator leaves before an incoming
/// one of lower precedence, or of equal precedence when the incoming one is
/// left-associative.
pub open spec fn spec_should_pop(op2: Operator, op1: Operator) -> bool {
    op2.spec_compare(op1) == 1 || (op1.spec_compare(op2) == 0 && op1.spec_left_associative())
}

/// Pop stacked operators to the output while the pop rule says so.
pub open spec fn spec_pop_ops(op1: Operator, stack: Seq<Token>, out: Seq<Token>) -> (
    Seq<Token>,
    Seq<Token>,
)
    decreases stack.len(),
{
    if stack.len() > 0 && (stack.last() matches Token::Operator(op2) && spec_should_pop(
        op2,
        op1,
    )) {
        spec_pop_ops(op1, stack.drop_last(), out.push(stack.last()))
    } else {
        (stack, out)
    }
}

/// Pop to the output until an open parenthesis is popped and discarded; a
/// function right under it attaches to its argument list.  An emptied stack
/// means the close parenthesis had no partner.
pub open spec fn spec_close_paren(stack: Seq<Token>, out: Seq<Token>) -> Result<
    (Seq<Token>, Seq<Token>),
    SyntaxError,
>
    decreases stack.len(),
{
    if stack.len() == 0 {
        Err(SyntaxError::MismatchedParentheses)
    } else if stack.last() == Token::Parenthesis(true) {
        let popped = stack.drop_last();
        if popped.len() > 0 && popped.last() is Function {
            Ok((popped.drop_last(), out.push(popped.last())))
        } else {
            Ok((popped, out))
        }
    } else {
        spec_close_paren(stack.drop_last(), out.push(stack.last()))
    }
}

/// Pop to the output until the open parenthesis of the surrounding argument
/// list is on top (it stays).  An emptied stack means the comma stood
/// outside any group.
pub open spec fn spec_pop_comma(stack: Seq<Token>, out: Seq<Token>) -> Result<
    (Seq<Token>, Seq<Token>),
    SyntaxError,
>
    decreases stack.len(),
{
    if stack.len() == 0 {
        Err(SyntaxError::MismatchedParentheses)
    } else if stack.last() == Token::Parenthesis(true) {
        Ok((stack, out))
    } else {
        spec_pop_comma(stack.drop_last(), out.push(stack.last()))
    }
}

/// Drain the stack to the output at end of input.  A leftover open
/// parenthesis means the parenthesization was unbalanced.
pub open spec fn spec_drain(stack: Seq<Token>, out: Seq<Token>) -> Result<
    Seq<Token>,
    SyntaxError,
>
    decreases stack.len(),
{
    if stack.len() == 0 {
        Ok(out)
    } else if stack.last() == Token::Parenthesis(true) {
        Err(SyntaxError::MismatchedParentheses)
    } else {
        spec_drain(stack.drop_last(), out.push(stack.last()))
    }
}

/// The shunting-yard pass from position `i` on, with the operator stack and
/// output gathered so far.
pub open spec fn spec_shunt(ts: Seq<Token>, i: int, stack: Seq<Token>, out: Seq<Token>) -> Result<
    Seq<Token>,
    SyntaxError,
>
    decreases ts.len() - i,
{
    if i < 0 || i >= ts.len() {
        spec_drain(stack, out)
    } else {
        match ts[i] {
            Token::Literal(_) => spec_shunt(ts, i + 1, stack, out.push(ts[i])),
            Token::Identifier(_) => spec_shunt(ts, i + 1, stack, out.push(ts[i])),
            Token::Function(_) => spec_shunt(ts, i + 1, stack.push(ts[i]), out),
            Token::Operator(op1) => {
                let so = spec_pop_ops(op1, stack, out);
                spec_shunt(ts, i + 1, so.0.push(ts[i]), so.1)
            },
            Token::Parenthesis(open) => {
                if open {
                    spec_shunt(ts, i + 1, stack.push(ts[i]), out)
                } else {
                    match spec_close_paren(stack, out) {
                        Ok(so) => spec_shunt(ts, i + 1, so.0, so.1),
                        Err(e) => Err(e),
                    }
                }
            },
            Token::Comma => match spec_pop_comma(stack, out) {
                Ok(so) => spec_shunt(ts, i + 1, so.0, so.1),
                Err(e) => Err(e),
            },
        }
    }
}

/// What the converter yields for a token sequence: its postfix order, or a
/// mismatched-parentheses error.
pub open spec fn spec_to_postfix(ts: Seq<Token>) -> Result<Seq<Token>, SyntaxError> {
    spec_shunt(ts, 0, Seq::empty(), Seq::empty())
}

/// Rewrite an infix token sequence into postfix (Reverse Polish) order,
/// honoring precedence, associativity and function grouping.
pub fn infix_to_postfix(tokens: &Vec<Token>) -> (r: Result<Vec<Token>, SyntaxError>)
    ensures
        match spec_to_postfix(tokens@) {
            Ok(post) => r matches Ok(v) && v@ == post,
            Err(e) => (r matches Err(e2) && e2 == e),
        },
{
    let ghost ts = tokens@;
    let mut output: Vec<Token> = Vec::new();
    let mut stack: Vec<Token> = Vec::new();
    let n = tokens.len();
    for i in 0..n
        invariant
            n == ts.len(),
            tokens@ == ts,
            spec_shunt(ts, i as int, stack@, output@) == spec_to_postfix(ts),
    {
        let t = tokens[i];
        if t.is_numeric() {
            output.push(t);
        } else if t.is_function() || t == Token::Parenthesis(true) {
            stack.push(t);
        } else if let Token::Operator(op1) = t {
            let ghost so = spec_pop_ops(op1, stack@, output@);
            loop
                invariant
                    spec_pop_ops(op1, stack@, output@) == so,
                ensures
                    stack@ == so.0,
                    output@ == so.1,
                decreases stack@.len(),
            {
                if stack.len() == 0 {
                    break;
                }
                let top = stack[stack.len() - 1];
                let pop = match top {
                    Token::Operator(op2) => op2.compare(&op1) == 1 || (op1.compare(&op2) == 0
                        && op1.left_associative()),
                    _ => false,
                };
                if !pop {
                    break;
                }
                match stack.pop() {
                    Some(popped) => {
                        output.push(popped);
                    },
                    None => {
                        break;
                    },
                }
            }
            stack.push(t);
        } else if t == Token::Parenthesis(false) {
            loop
                invariant_except_break
                    (match spec_close_paren(stack@, output@) {
                        Ok(so) => spec_shunt(ts, i + 1 as int, so.0, so.1),
                        Err(e) => Err::<Seq<Token>, SyntaxError>(e),
                    }) == spec_to_postfix(ts),
                invariant
                    tokens@ == ts,
                ensures
                    spec_shunt(ts, i + 1 as int, stack@, output@) == spec_to_postfix(ts),
                decreases stack@.len(),
            {
                if stack.len() == 0 {
                    return Err(SyntaxError::MismatchedParentheses);
                }
                let top = stack[stack.len() - 1];
                if top == Token::Parenthesis(true) {
                    let ghost before = stack@;
                    stack.pop();
                    assert(stack@ =~= before.drop_last());
                    if stack.len() > 0 {
                        let top2 = stack[stack.len() - 1];
                        if top2.is_function() {
                            match stack.pop() {
                                Some(f) => {
                                    output.push(f);
                                },
                                None => {},
                            }
                        }
                    }
                    break;
                } else {
                    match stack.pop() {
                        Some(popped) => {
                            output.push(popped);
                        },
                        None => {},
                    }
                }
            }
        } else if t == Token::Comma {
            loop
                invariant
                    tokens@ == ts,
                    (match spec_pop_comma(stack@, output@) {
                        Ok(so) => spec_shunt(ts, i + 1 as int, so.0, so.1),
                        Err(e) => Err::<Seq<Token>, SyntaxError>(e),
                    }) == spec_to_postfix(ts),
                ensures
                    spec_shunt(ts, i + 1 as int, stack@, output@) == spec_to_postfix(ts),
                decreases stack@.len(),
            {
                if stack.len() == 0 {
                    return Err(SyntaxError::MismatchedParentheses);
                }
                let top = stack[stack.len() - 1];
                if top == Token::Parenthesis(true) {
                    break;
                }
                match stack.pop() {
                    Some(popped) => {
                        output.push(popped);
                    },
                    None => {},
                }
            }
        }
    }
    loop
        invariant
            tokens@ == ts,
            spec_drain(stack@, output@) == spec_to_postfix(ts),
        ensures
            stack@.len() == 0,
            spec_to_postfix(ts) == Ok::<Seq<Token>, SyntaxError>(output@),
        decreases stack@.len(),
    {
        if stack.len() == 0 {
            break;
        }
        let top = stack[stack.len() - 1];
        if top == Token::Parenthesis(true) {
            return Err(SyntaxError::MismatchedParentheses);
        }
        match stack.pop() {
            Some(popped) => {
                output.push(popped);
            },
            None => {},
        }
    }
    Ok(output)
}

/// What a binary operator makes of its operands (`v1` was pushed first).
/// Negation is unary and never consulted here.
pub open spec fn spec_apply_binary(op: Operator, v1: u64, v2: u64) -> u64 {
    match op {
        Operator::Add => add_bits(v1, v2),
        Operator::Subtract => sub_bits(v1, v2),
        Operator::Multiply => mul_bits(v1, v2),
        Operator::Divide => div_bits(v1, v2),
        Operator::Power => pow_bits(v1, v2),
        Operator::Negate => 0,
    }
}

/// What a one-argument function makes of its operand.
pub open spec fn spec_apply_unary_fn(f: Function, v: u64) -> u64 {
    match f {
        Function::Sin => sin_bits(v),
        Function::Cos => cos_bits(v),
        Function::Sign => signum_bits(v),
        _ => 0,
    }
}

/// What a two-argument function makes of its operands.
pub open spec fn spec_apply_binary_fn(f: Function, v1: u64, v2: u64) -> u64 {
    match f {
        Function::Max => max_bits(v1, v2),
        Function::Min => min_bits(v1, v2),
        _ => 0,
    }
}

/// One evaluator step: what a postfix token does to the value stack under a
/// binding.
pub open spec fn spec_eval_step(t: Token, stack: Seq<u64>, b: Seq<(char, u64)>) -> Result<
    Seq<u64>,
    EvalError,
> {
    match t {
        Token::Literal(v) => Ok(stack.push(v)),
        Token::Identifier(c) => match lookup(b, c) {
            Some(v) => Ok(stack.push(v)),
            None => Err(EvalError::UnknownIdentifier(c)),
        },
        Token::Operator(op) => {
            if op is Negate {
                if stack.len() < 1 {
                    Err(EvalError::ImproperExpression)
                } else {
                    Ok(stack.drop_last().push(neg_bits(stack.last())))
                }
            } else {
                if stack.len() < 2 {
                    Err(EvalError::ImproperExpression)
                } else {
                    Ok(
                        stack.drop_last().drop_last().push(
                            spec_apply_binary(op, stack[stack.len() - 2], stack.last()),
                        ),
                    )
                }
            }
        },
        Token::Function(f) => {
            if f.spec_arity() == 1 {
                if stack.len() < 1 {
                    Err(EvalError::ImproperExpression)
                } else {
                    Ok(stack.drop_last().push(spec_apply_unary_fn(f, stack.last())))
                }
            } else {
                if stack.len() < 2 {
                    Err(EvalError::ImproperExpression)
                } else {
                    Ok(
                        stack.drop_last().drop_last().push(
                            spec_apply_binary_fn(f, stack[stack.len() - 2], stack.last()),
                        ),
                    )
                }
            }
        },
        _ => Err(EvalError::UnexpectedToken),
    }
}

/// The evaluator from position `i` on, with the value stack gathered so
/// far: at end of input exactly one value must remain.
pub open spec fn spec_eval_from(
    ts: Seq<Token>,
    i: int,
    stack: Seq<u64>,
    b: Seq<(char, u64)>,
) -> Result<u64, EvalError>
    decreases ts.len() - i,
{
    if i < 0 || i >= ts.len() {
        if stack.len() == 1 {
            Ok(stack[0])
        } else {
            Err(EvalError::ImproperExpression)
        }
    } else {
        match spec_eval_step(ts[i], stack, b) {
            Ok(s2) => spec_eval_from(ts, i + 1, s2, b),
            Err(e) => Err(e),
        }
    }
}

/// What evaluating a postfix sequence under a binding yields: a function of
/// the sequence and the binding alone.
pub open spec fn spec_evaluate(ts: Seq<Token>, b: Seq<(char, u64)>) -> Result<u64, EvalError> {
    spec_eval_from(ts, 0, Seq::empty(), b)
}

/// Evaluation has no hidden state: the result is a function of the postfix
/// sequence and the binding alone, so any two evaluations of the same pair
/// agree.
pub proof fn lemma_evaluate_deterministic(
    r1: Result<u64, EvalError>,
    r2: Result<u64, EvalError>,
    ts: Seq<Token>,
    b: Seq<(char, u64)>,
)
    requires
        r1 == spec_evaluate(ts, b),
        r2 == spec_evaluate(ts, b),
    ensures
        r1 == r2,
{
}

/// Walk a postfix token sequence against the current binding and produce
/// one value's bits, or the first evaluation error.
pub fn evaluate(postfix: &Vec<Token>, parameters: &Binding) -> (r: Result<u64, EvalError>)
    ensures
        r == spec_evaluate(postfix@, parameters@),
{
    let ghost ts = postfix@;
    // Pre-size the value stack: evaluation is the per-tick hot path, and a
    // sequence of n tokens can never stack more than n values.
    let mut stack: Vec<u64> = Vec::with_capacity(postfix.len());
    let n = postfix.len();
    for i in 0..n
        invariant
            n == ts.len(),
            postfix@ == ts,
            spec_eval_from(ts, i as int, stack@, parameters@) == spec_evaluate(ts, parameters@),
    {
        let t = postfix[i];
        if t.is_numeric() {
            match t.value(parameters) {
                Ok(v) => {
                    stack.push(v);
                },
                Err(e) => {
                    return Err(e);
                },
            }
        } else {
            match t {
                Token::Operator(op) => {
                    if op == Operator::Negate {
                        match stack.pop() {
                            Some(v) => {
                                stack.push(numeric::neg_op(v));
                            },
                            None => {
                                return Err(EvalError::ImproperExpression);
                            },
                        }
                    } else {
                        let v2 = match stack.pop() {
                            Some(v) => v,
                            None => {
                                return Err(EvalError::ImproperExpression);
                            },
                        };
                        let v1 = match stack.pop() {
                            Some(v) => v,
                            None => {
                                return Err(EvalError::ImproperExpression);
                            },
                        };
                        let outcome = match op {
                            Operator::Add => numeric::add_op(v1, v2),
                            Operator::Subtract => numeric::sub_op(v1, v2),
                            Operator::Multiply => numeric::mul_op(v1, v2),
                            Operator::Divide => numeric::div_op(v1, v2),
                            Operator::Power => numeric::pow_op(v1, v2),
                            Operator::Negate => 0,
                        };
                        stack.push(outcome);
                    }
                },
                Token::Function(func) => {
                    if func.num_arguments() == 1 {
                        match stack.pop() {
                            Some(v) => {
                                let outcome = match func {
                                    Function::Sin => numeric::sin_op(v),
                                    Function::Cos => numeric::cos_op(v),
                                    Function::Sign => numeric::signum_op(v),
                                    _ => 0,
                                };
                                stack.push(outcome);
                            },
                            None => {
                                return Err(EvalError::ImproperExpression);
                            },
                        }
                    } else {
                        let v2 = match stack.pop() {
                            Some(v) => v,
                            None => {
                                return Err(EvalError::ImproperExpression);
                            },
                        };
                        let v1 = match stack.pop() {
                            Some(v) => v,
                            None => {
                                return Err(EvalError::ImproperExpression);
                            },
                        };
                        let outcome = match func {
                            Function::Max => numeric::max_op(v1, v2),
                            Function::Min => numeric::min_op(v1, v2),
                            _ => 0,
                        };
                        stack.push(outcome);
                    }
                },
                _ => {
                    return Err(EvalError::UnexpectedToken);
                },
            }
        }
    }
    if stack.len() == 1 {
        match stack.pop() {
            Some(v) => Ok(v),
            None => Err(EvalError::ImproperExpression),
        }
    } else {
        Err(EvalError::ImproperExpression)
    }
}

/// What parsing a text yields: its postfix sequence and a binding that
/// holds each discovered identifier, in first-seen order, bound to the bits
/// of +0.0.
pub open spec fn spec_parse(s: Seq<char>) -> Result<
    (Seq<Token>, Seq<(char, u64)>),
    ParseError,
> {
    match spec_tokenize(s) {
        Ok((ts, ps)) => match spec_to_postfix(ts) {
            Ok(post) => Ok((post, ps.map_values(|c: char| (c, 0u64)))),
            Err(e) => Err(ParseError::Syntax(e)),
        },
        Err(e) => Err(ParseError::Lex(e)),
    }
}

/// Tokenize and convert one expression, and build its default binding.
pub fn parse(expression: &str) -> (r: Result<(Vec<Token>, Binding), ParseError>)
    ensures
        match spec_parse(expression@) {
            Ok(pb) => r matches Ok(x) && x.0@ == pb.0 && x.1@ == pb.1 && distinct_keys(x.1@),
            Err(e) => (r matches Err(e2) && e2 == e),
        },
{
    match tokenizer::tokenize(expression) {
        Ok((infix, params)) => match infix_to_postfix(&infix) {
            Ok(postfix) => {
                let binding = Binding::with_keys(&params);
                proof {
                    lemma_tokenize_params_distinct(expression@);
                    assert(distinct_chars(params@));
                    assert forall|i: int, j: int|
                        0 <= i < j < binding@.len() implies binding@[i].0 != binding@[j].0 by {
                        assert(binding@[i].0 == params@[i]);
                        assert(binding@[j].0 == params@[j]);
                    }
                }
                Ok((postfix, binding))
            },
            Err(e) => Err(ParseError::Syntax(e)),
        },
        Err(e) => Err(ParseError::Lex(e)),
    }
}

} // verus!
