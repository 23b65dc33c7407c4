//! The errors of the engine.
//!
//! Every operation of the engine returns a descriptive error instead of
//! panicking on malformed user input; the caller decides the fallback.

use vstd::prelude::*;

verus! {

/// An error of the tokenizer.
#[derive(Debug, Clone, Copy, PartialEq, Eq, Structural)]
pub enum LexError {
    /// A character outside `[a-z0-9.]` stood in an alphanumeric run; the
    /// payload names the offending character.
    InvalidCharacter(char),
    /// A run of digits and dots (or a mixed run) that is no number.
    ImproperLiteral,
    /// A multi-letter run that names no known function.
    UnknownFunction,
}

/// An error of the infix-to-postfix converter.
#[derive(Debug, Clone, Copy, PartialEq, Eq, Structural)]
pub enum SyntaxError {
    /// An unbalanced parenthesis, or a comma or close-parenthesis outside
    /// any group.
    MismatchedParentheses,
}

/// An error of the evaluator.
#[derive(Debug, Clone, Copy, PartialEq, Eq, Structural)]
pub enum EvalError {
    /// An identifier that the binding does not hold; the payload names it.
    UnknownIdentifier(char),
    /// A value-stack underflow, or a final stack without exactly one value.
    ImproperExpression,
    /// A token kind that a postfix sequence may not hold.
    UnexpectedToken,
}

/// An error of parsing: either stage of turning text into postfix.
#[derive(Debug, Clone, Copy, PartialEq, Eq, Structural)]
pub enum ParseError {
    Lex(LexError),
    Syntax(SyntaxError),
}

/// An error of the preset catalogue.
#[derive(Debug, Clone, Copy, PartialEq, Eq, Structural)]
pub enum PresetError {
    /// A catalogue row without the four leading fields, or with a default
    /// value that is no number.
    MalformedRow,
    /// Fewer positional defaults than discovered parameters.
    InsufficientDefaults,
}

/// An error of building an expression group from a preset.
#[derive(Debug, Clone, Copy, PartialEq, Eq, Structural)]
pub enum GroupError {
    Parse(ParseError),
    Preset(PresetError),
}

} // verus!
