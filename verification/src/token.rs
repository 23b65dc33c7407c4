//! The token model: the closed set of lexical units and their syntactic
//! properties (precedence, associativity, arity).

use vstd::prelude::*;
use crate::binding::{Binding, lookup};
use crate::errors::EvalError;

verus! {

/// An operator of the grammar.  `Negate` never comes from the lexer
/// directly; it is derived from `Subtract` by context.
#[derive(Debug, Clone, Copy, PartialEq, Eq, Structural)]
pub enum Operator {
    Add,
    Subtract,
    Negate,
    Multiply,
    Divide,
    Power,
}

/// A function of the grammar: `sin`, `cos` and `sign` take one argument,
/// `max` and `min` take two.
#[derive(Debug, Clone, Copy, PartialEq, Eq, Structural)]
pub enum Function {
    Sin,
    Cos,
    Max,
    Min,
    Sign,
}

/// One lexical unit of an expression.
#[derive(Debug, Clone, Copy, PartialEq, Eq, Structural)]
pub enum Token {
    /// A numeric literal, as the bits of its binary64 value.
    Literal(u64),
    /// A single-letter identifier, looked up in the parameter binding.
    Identifier(char),
    Operator(Operator),
    /// A parenthesis; the payload is true for `(`.
    Parenthesis(bool),
    Function(Function),
    Comma,
}

impl Operator {
    /// The binding strength: 1 for the additive operators and negation, 2
    /// for the multiplicative ones, 3 for power.
    pub open spec fn spec_precedence(self) -> int {
        match self {
            Operator::Add => 1,
            Operator::Subtract => 1,
            Operator::Negate => 1,
            Operator::Multiply => 2,
            Operator::Divide => 2,
            Operator::Power => 3,
        }
    }

    /// The sign of the precedence difference, clamped to {-1, 0, 1}.
    pub open spec fn spec_compare(self, other: Operator) -> int {
        if self.spec_precedence() > other.spec_precedence() {
            1
        } else if self.spec_precedence() < other.spec_precedence() {
            -1
        } else {
            0
        }
    }

    /// Every operator is left-associative but `Power`.
    pub open spec fn spec_left_associative(self) -> bool {
        !(self is Power)
    }

    pub fn left_associative(&self) -> (b: bool)
        ensures
            b == self.spec_left_associative(),
    {
        match self {
            Operator::Power => false,
            _ => true,
        }
    }

    pub fn precedence(&self) -> (p: i8)
        ensures
            p as int == self.spec_precedence(),
    {
        match self {
            Operator::Add => 1,
            Operator::Subtract => 1,
            Operator::Negate => 1,
            Operator::Multiply => 2,
            Operator::Divide => 2,
            Operator::Power => 3,
        }
    }

    pub fn compare(&self, other: &Self) -> (c: i8)
        ensures
            c as int == self.spec_compare(*other),
    {
        let a = self.precedence();
        let b = other.precedence();
        if a > b {
            1
        } else if a < b {
            -1
        } else {
            0
        }
    }
}

impl Function {
    /// How many operands the function consumes.
    pub open spec fn spec_arity(self) -> int {
        match self {
            Function::Sin => 1,
            Function::Cos => 1,
            Function::Sign => 1,
            Function::Max => 2,
            Function::Min => 2,
        }
    }

    pub fn num_arguments(&self) -> (n: usize)
        ensures
            n as int == self.spec_arity(),
    {
        match self {
            Function::Sin => 1,
            Function::Cos => 1,
            Function::Sign => 1,
            Function::Max => 2,
            Function::Min => 2,
        }
    }
}

/// What a token pushes onto the value stack: a literal its own bits, an
/// identifier the value its key is bound to; any other kind is an internal
/// contract violation of the evaluator.
pub open spec fn spec_value(t: Token, b: Seq<(char, u64)>) -> Result<u64, EvalError> {
    match t {
        Token::Literal(v) => Ok(v),
        Token::Identifier(c) => match lookup(b, c) {
            Some(v) => Ok(v),
            None => Err(EvalError::UnknownIdentifier(c)),
        },
        _ => Err(EvalError::UnexpectedToken),
    }
}

impl Token {
    /// True for the tokens that push a value onto the evaluation stack
    /// directly: literals and identifiers.
    pub fn is_numeric(&self) -> (b: bool)
        ensures
            b == (self is Literal || self is Identifier),
    {
        match self {
            Token::Literal(_) => true,
            Token::Identifier(_) => true,
            _ => false,
        }
    }

    pub fn is_function(&self) -> (b: bool)
        ensures
            b == (self is Function),
    {
        match self {
            Token::Function(_) => true,
            _ => false,
        }
    }

    /// The value this token contributes under the given binding.
    pub fn value(&self, parameters: &Binding) -> (r: Result<u64, EvalError>)
        ensures
            r == spec_value(*self, parameters@),
    {
        match self {
            Token::Literal(v) => Ok(*v),
            Token::Identifier(c) => match parameters.get(*c) {
                Some(v) => Ok(v),
                None => Err(EvalError::UnknownIdentifier(*c)),
            },
            _ => Err(EvalError::UnexpectedToken),
        }
    }
}

} // verus!
