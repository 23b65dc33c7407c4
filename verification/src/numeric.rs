//! The trusted numeric layer of the engine.
//!
//! The engine carries every numeric value as the bit pattern (a `u64`) of an
//! IEEE-754 binary64 number, and performs no arithmetic of its own: each
//! operation the grammar offers is one call into the platform's
//! floating-point arithmetic, wrapped here.  Each wrapper's result is named
//! by a spec function of the operand bits alone, so contracts elsewhere can
//! speak of the operations exactly; division by zero, overflow to infinity
//! and NaN propagate as values, never as errors.

use vstd::prelude::*;
use std::primitive::f64 as Binary64;

verus! {

/// The bits of the sum of the numbers with bits `a` and `b`.
pub uninterp spec fn add_bits(a: u64, b: u64) -> u64;

/// The bits of the difference of the numbers with bits `a` and `b`.
pub uninterp spec fn sub_bits(a: u64, b: u64) -> u64;

/// The bits of the product of the numbers with bits `a` and `b`.
pub uninterp spec fn mul_bits(a: u64, b: u64) -> u64;

/// The bits of the quotient of the numbers with bits `a` and `b`.
pub uninterp spec fn div_bits(a: u64, b: u64) -> u64;

/// The bits of the number with bits `a` raised to the number with bits `b`.
pub uninterp spec fn pow_bits(a: u64, b: u64) -> u64;

/// The bits of the negation of the number with bits `a`.
pub uninterp spec fn neg_bits(a: u64) -> u64;

/// The bits of the sine (radians) of the number with bits `a`.
pub uninterp spec fn sin_bits(a: u64) -> u64;

/// The bits of the cosine (radians) of the number with bits `a`.
pub uninterp spec fn cos_bits(a: u64) -> u64;

/// The bits of the sign (-1, 0 with the sign of the argument, or 1) of the
/// number with bits `a`.
pub uninterp spec fn signum_bits(a: u64) -> u64;

/// The bits of the larger of the numbers with bits `a` and `b`.
pub uninterp spec fn max_bits(a: u64, b: u64) -> u64;

/// The bits of the smaller of the numbers with bits `a` and `b`.
pub uninterp spec fn min_bits(a: u64, b: u64) -> u64;

/// The bits of the number that the characters `s` spell, or `None` where
/// they spell none.
pub uninterp spec fn parse_f64_bits(s: Seq<char>) -> Option<u64>;

/// Relies on `+` on `f64` (IEEE-754 addition): the result depends on the
/// operand bits alone.
#[verifier::external_body]
pub(crate) fn add_op(a: u64, b: u64) -> (r: u64)
    ensures
        r == add_bits(a, b),
{
    (Binary64::from_bits(a) + Binary64::from_bits(b)).to_bits()
}

/// Relies on `-` on `f64` (IEEE-754 subtraction): the result depends on the
/// operand bits alone.
#[verifier::external_body]
pub(crate) fn sub_op(a: u64, b: u64) -> (r: u64)
    ensures
        r == sub_bits(a, b),
{
    (Binary64::from_bits(a) - Binary64::from_bits(b)).to_bits()
}

/// Relies on `*` on `f64` (IEEE-754 multiplication): the result depends on
/// the operand bits alone.
#[verifier::external_body]
pub(crate) fn mul_op(a: u64, b: u64) -> (r: u64)
    ensures
        r == mul_bits(a, b),
{
    (Binary64::from_bits(a) * Binary64::from_bits(b)).to_bits()
}

/// Relies on `/` on `f64` (IEEE-754 division, division by zero giving an
/// infinity or NaN): the result depends on the operand bits alone.
#[verifier::external_body]
pub(crate) fn div_op(a: u64, b: u64) -> (r: u64)
    ensures
        r == div_bits(a, b),
{
    (Binary64::from_bits(a) / Binary64::from_bits(b)).to_bits()
}

/// Relies on `f64::powf` (real-valued power, a negative base with a
/// fractional exponent giving NaN): the result depends on the operand bits
/// alone.
#[verifier::external_body]
pub(crate) fn pow_op(a: u64, b: u64) -> (r: u64)
    ensures
        r == pow_bits(a, b),
{
    Binary64::from_bits(a).powf(Binary64::from_bits(b)).to_bits()
}

/// Relies on unary `-` on `f64` (IEEE-754 negation): the result depends on
/// the operand bits alone.
#[verifier::external_body]
pub(crate) fn neg_op(a: u64) -> (r: u64)
    ensures
        r == neg_bits(a),
{
    (-Binary64::from_bits(a)).to_bits()
}

/// Relies on `f64::sin`: the result depends on the operand bits alone.
#[verifier::external_body]
pub(crate) fn sin_op(a: u64) -> (r: u64)
    ensures
        r == sin_bits(a),
{
    Binary64::from_bits(a).sin().to_bits()
}

/// Relies on `f64::cos`: the result depends on the operand bits alone.
#[verifier::external_body]
pub(crate) fn cos_op(a: u64) -> (r: u64)
    ensures
        r == cos_bits(a),
{
    Binary64::from_bits(a).cos().to_bits()
}

/// Relies on `f64::signum`: the result depends on the operand bits alone.
#[verifier::external_body]
pub(crate) fn signum_op(a: u64) -> (r: u64)
    ensures
        r == signum_bits(a),
{
    Binary64::from_bits(a).signum().to_bits()
}

/// Relies on `f64::max`: the result depends on the operand bits alone.
#[verifier::external_body]
pub(crate) fn max_op(a: u64, b: u64) -> (r: u64)
    ensures
        r == max_bits(a, b),
{
    Binary64::from_bits(a).max(Binary64::from_bits(b)).to_bits()
}

/// Relies on `f64::min`: the result depends on the operand bits alone.
#[verifier::external_body]
pub(crate) fn min_op(a: u64, b: u64) -> (r: u64)
    ensures
        r == min_bits(a, b),
{
    Binary64::from_bits(a).min(Binary64::from_bits(b)).to_bits()
}

/// Relies on `str::parse::<f64>`: whether the characters spell a number, and
/// which, depends on the characters alone.
#[verifier::external_body]
pub(crate) fn parse_op(s: &Vec<char>) -> (r: Option<u64>)
    ensures
        r == parse_f64_bits(s@),
{
    match s.iter().collect::<String>().parse::<Binary64>() {
        Ok(v) => Some(v.to_bits()),
        Err(_) => None,
    }
}

/// Relies on `String::from_iter` over `char`: the characters of the result
/// are exactly the characters given.
#[verifier::external_body]
pub(crate) fn string_from_chars(s: &Vec<char>) -> (r: String)
    ensures
        r@ == s@,
{
    s.iter().collect::<String>()
}

} // verus!
