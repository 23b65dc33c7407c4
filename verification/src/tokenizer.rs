//! The tokenizer: raw expression text to an ordered token sequence plus the
//! set of single-letter identifiers it referenced.
//!
//! Spaces are stripped and the text is lowercased; a scan then accumulates
//! runs of alphanumeric-or-dot characters, which any recognized symbol (or
//! the end of input) flushes as one classified token.  A final pass turns a
//! `-` that starts the sequence or follows `(` or `,` into unary negation.

use vstd::prelude::*;
use crate::errors::LexError;
use crate::numeric;
use crate::numeric::parse_f64_bits;
use crate::token::{Function, Operator, Token};

verus! {

/// The ASCII lowering the tokenizer applies: uppercase letters fold, every
/// other character passes through.
pub open spec fn spec_lower(c: char) -> char {
    match c {
        'A' => 'a',
        'B' => 'b',
        'C' => 'c',
        'D' => 'd',
        'E' => 'e',
        'F' => 'f',
        'G' => 'g',
        'H' => 'h',
        'I' => 'i',
        'J' => 'j',
        'K' => 'k',
        'L' => 'l',
        'M' => 'm',
        'N' => 'n',
        'O' => 'o',
        'P' => 'p',
        'Q' => 'q',
        'R' => 'r',
        'S' => 's',
        'T' => 't',
        'U' => 'u',
        'V' => 'v',
        'W' => 'w',
        'X' => 'x',
        'Y' => 'y',
        'Z' => 'z',
        _ => c,
    }
}

/// The text as the scan sees it: spaces stripped, the rest lowercased.
pub open spec fn spec_prepare(s: Seq<char>) -> Seq<char>
    decreases s.len(),
{
    if s.len() == 0 {
        Seq::empty()
    } else {
        let rest = spec_prepare(s.drop_last());
        if s.last() == ' ' {
            rest
        } else {
            rest.push(spec_lower(s.last()))
        }
    }
}

/// An ASCII letter, of either case.
pub open spec fn is_letter(c: char) -> bool {
    ('a' <= c && c <= 'z') || ('A' <= c && c <= 'Z')
}

/// An ASCII digit or the decimal dot.
pub open spec fn is_digit_or_dot(c: char) -> bool {
    ('0' <= c && c <= '9') || c == '.'
}

/// How many characters of a run are letters.
pub open spec fn count_letters(s: Seq<char>) -> int
    decreases s.len(),
{
    if s.len() == 0 {
        0
    } else {
        count_letters(s.drop_last()) + if is_letter(s.last()) { 1int } else { 0int }
    }
}

/// How many characters of a run are digits or dots (letters not counted).
pub open spec fn count_digits(s: Seq<char>) -> int
    decreases s.len(),
{
    if s.len() == 0 {
        0
    } else {
        count_digits(s.drop_last()) + if !is_letter(s.last()) && is_digit_or_dot(s.last()) {
            1int
        } else {
            0int
        }
    }
}

/// The last character of a run that is neither letter nor digit nor dot.
pub open spec fn last_invalid(s: Seq<char>) -> Option<char>
    decreases s.len(),
{
    if s.len() == 0 {
        None
    } else if !is_letter(s.last()) && !is_digit_or_dot(s.last()) {
        Some(s.last())
    } else {
        last_invalid(s.drop_last())
    }
}

/// The token a single recognized symbol makes, or `None` for any other
/// character (which joins the pending run instead).
pub open spec fn spec_one_char_token(c: char) -> Option<Token> {
    if c == '+' {
        Some(Token::Operator(Operator::Add))
    } else if c == '-' {
        Some(Token::Operator(Operator::Subtract))
    } else if c == '*' {
        Some(Token::Operator(Operator::Multiply))
    } else if c == '/' {
        Some(Token::Operator(Operator::Divide))
    } else if c == '^' {
        Some(Token::Operator(Operator::Power))
    } else if c == '(' {
        Some(Token::Parenthesis(true))
    } else if c == ')' {
        Some(Token::Parenthesis(false))
    } else if c == ',' {
        Some(Token::Comma)
    } else {
        None
    }
}

/// What a flushed run becomes: a literal where it is purely numeric, a
/// function or identifier where purely alphabetic, an error otherwise.
pub open spec fn spec_classify_run(s: Seq<char>) -> Result<Token, LexError> {
    if count_letters(s) + count_digits(s) != s.len() {
        Err(LexError::InvalidCharacter(match last_invalid(s) {
            Some(c) => c,
            None => ' ',
        }))
    } else if count_letters(s) == 0 && count_digits(s) > 0 {
        match parse_f64_bits(s) {
            Some(v) => Ok(Token::Literal(v)),
            None => Err(LexError::ImproperLiteral),
        }
    } else if count_letters(s) > 0 && count_digits(s) == 0 {
        if s == seq!['s', 'i', 'n'] {
            Ok(Token::Function(Function::Sin))
        } else if s == seq!['c', 'o', 's'] {
            Ok(Token::Function(Function::Cos))
        } else if s == seq!['m', 'a', 'x'] {
            Ok(Token::Function(Function::Max))
        } else if s == seq!['m', 'i', 'n'] {
            Ok(Token::Function(Function::Min))
        } else if s == seq!['s', 'i', 'g', 'n'] {
            Ok(Token::Function(Function::Sign))
        } else if s.len() == 1 {
            Ok(Token::Identifier(s[0]))
        } else {
            Err(LexError::UnknownFunction)
        }
    } else {
        Err(LexError::ImproperLiteral)
    }
}

/// A key joins the identifier set only on first sight.
pub open spec fn spec_add_key(params: Seq<char>, c: char) -> Seq<char> {
    if params.contains(c) {
        params
    } else {
        params.push(c)
    }
}

/// The identifier set after a flushed run's token: only an identifier adds
/// its key.
pub open spec fn spec_params_after(params: Seq<char>, t: Token) -> Seq<char> {
    match t {
        Token::Identifier(c) => spec_add_key(params, c),
        _ => params,
    }
}

/// The scan from position `i` on, with the tokens, pending run and
/// identifier set gathered so far.
pub open spec fn spec_scan(
    s: Seq<char>,
    i: int,
    tokens: Seq<Token>,
    run: Seq<char>,
    params: Seq<char>,
) -> Result<(Seq<Token>, Seq<char>), LexError>
    decreases s.len() - i,
{
    if i < 0 || i >= s.len() {
        if run.len() == 0 {
            Ok((tokens, params))
        } else {
            match spec_classify_run(run) {
                Ok(t) => Ok((tokens.push(t), spec_params_after(params, t))),
                Err(e) => Err(e),
            }
        }
    } else {
        match spec_one_char_token(s[i]) {
            Some(t1) => {
                if run.len() == 0 {
                    spec_scan(s, i + 1, tokens.push(t1), run, params)
                } else {
                    match spec_classify_run(run) {
                        Ok(t) => spec_scan(
                            s,
                            i + 1,
                            tokens.push(t).push(t1),
                            Seq::empty(),
                            spec_params_after(params, t),
                        ),
                        Err(e) => Err(e),
                    }
                }
            },
            None => spec_scan(s, i + 1, tokens, run.push(s[i]), params),
        }
    }
}

/// Whether position `i` holds a `-` that means unary negation: one that is
/// first, or follows `(` or `,`.
pub open spec fn unary_minus_at(ts: Seq<Token>, i: int) -> bool {
    ts[i] == Token::Operator(Operator::Subtract) && (i == 0 || ts[i - 1] == Token::Comma
        || ts[i - 1] == Token::Parenthesis(true))
}

/// The token sequence with every unary `-` reclassified as negation.
pub open spec fn spec_mark_unary(ts: Seq<Token>) -> Seq<Token> {
    Seq::new(
        ts.len(),
        |i: int|
            if unary_minus_at(ts, i) {
                Token::Operator(Operator::Negate)
            } else {
                ts[i]
            },
    )
}

/// What tokenizing a text yields: its token sequence (unary minus marked)
/// and the identifier keys it referenced in first-seen order, or the first
/// lexical error.
pub open spec fn spec_tokenize(s: Seq<char>) -> Result<(Seq<Token>, Seq<char>), LexError> {
    match spec_scan(spec_prepare(s), 0, Seq::empty(), Seq::empty(), Seq::empty()) {
        Ok((ts, ps)) => Ok((spec_mark_unary(ts), ps)),
        Err(e) => Err(e),
    }
}

/// No identifier key repeats.
pub open spec fn distinct_chars(s: Seq<char>) -> bool {
    forall|i: int, j: int| 0 <= i < j < s.len() ==> s[i] != s[j]
}

/// Adding a key on first sight keeps the set duplicate-free.
pub(crate) proof fn lemma_add_key_distinct(params: Seq<char>, c: char)
    requires
        distinct_chars(params),
    ensures
        distinct_chars(spec_add_key(params, c)),
{
    if !params.contains(c) {
        assert(forall|j: int| 0 <= j < params.len() ==> params[j] != c);
    }
}

/// The scan only ever adds keys on first sight, so the identifier set it
/// returns is duplicate-free whenever the one it starts from is.
proof fn lemma_scan_params_distinct(
    s: Seq<char>,
    i: int,
    tokens: Seq<Token>,
    run: Seq<char>,
    params: Seq<char>,
)
    requires
        distinct_chars(params),
    ensures
        (spec_scan(s, i, tokens, run, params) matches Ok(tp) ==> distinct_chars(tp.1)),
    decreases s.len() - i,
{
    if i < 0 || i >= s.len() {
        if run.len() > 0 {
            match spec_classify_run(run) {
                Ok(t) => match t {
                    Token::Identifier(c) => lemma_add_key_distinct(params, c),
                    _ => (),
                },
                Err(_) => (),
            }
        }
    } else {
        match spec_one_char_token(s[i]) {
            Some(t1) => {
                if run.len() == 0 {
                    lemma_scan_params_distinct(s, i + 1, tokens.push(t1), run, params);
                } else {
                    match spec_classify_run(run) {
                        Ok(t) => {
                            match t {
                                Token::Identifier(c) => lemma_add_key_distinct(params, c),
                                _ => (),
                            }
                            lemma_scan_params_distinct(
                                s,
                                i + 1,
                                tokens.push(t).push(t1),
                                Seq::empty(),
                                spec_params_after(params, t),
                            );
                        },
                        Err(_) => (),
                    }
                }
            },
            None => {
                lemma_scan_params_distinct(s, i + 1, tokens, run.push(s[i]), params);
            },
        }
    }
}

/// The identifier set of a successful tokenization holds each key once.
pub proof fn lemma_tokenize_params_distinct(s: Seq<char>)
    ensures
        (spec_tokenize(s) matches Ok(tp) ==> distinct_chars(tp.1)),
{
    lemma_scan_params_distinct(
        spec_prepare(s),
        0,
        Seq::empty(),
        Seq::empty(),
        Seq::empty(),
    );
}

fn lower_char(c: char) -> (r: char)
    ensures
        r == spec_lower(c),
{
    match c {
        'A' => 'a',
        'B' => 'b',
        'C' => 'c',
        'D' => 'd',
        'E' => 'e',
        'F' => 'f',
        'G' => 'g',
        'H' => 'h',
        'I' => 'i',
        'J' => 'j',
        'K' => 'k',
        'L' => 'l',
        'M' => 'm',
        'N' => 'n',
        'O' => 'o',
        'P' => 'p',
        'Q' => 'q',
        'R' => 'r',
        'S' => 's',
        'T' => 't',
        'U' => 'u',
        'V' => 'v',
        'W' => 'w',
        'X' => 'x',
        'Y' => 'y',
        'Z' => 'z',
        _ => c,
    }
}

fn char_is_letter(c: char) -> (b: bool)
    ensures
        b == is_letter(c),
{
    ('a' <= c && c <= 'z') || ('A' <= c && c <= 'Z')
}

fn char_is_digit_or_dot(c: char) -> (b: bool)
    ensures
        b == is_digit_or_dot(c),
{
    ('0' <= c && c <= '9') || c == '.'
}

pub(crate) fn contains_char(v: &Vec<char>, c: char) -> (b: bool)
    ensures
        b == v@.contains(c),
{
    let n = v.len();
    for i in 0..n
        invariant
            n == v@.len(),
            forall|j: int| 0 <= j < i ==> v@[j] != c,
    {
        if v[i] == c {
            return true;
        }
    }
    assert(!v@.contains(c));
    false
}

/// Whether the run spells the three given characters.
fn matches3(run: &Vec<char>, a: char, b: char, c: char) -> (r: bool)
    ensures
        r == (run@ == seq![a, b, c]),
{
    let r = run.len() == 3 && run[0] == a && run[1] == b && run[2] == c;
    proof {
        if r {
            assert(run@ =~= seq![a, b, c]);
        } else {
            if run@ == seq![a, b, c] {
                assert(run@.len() == 3);
                assert(run@[0] == a && run@[1] == b && run@[2] == c);
            }
        }
    }
    r
}

/// Whether the run spells the four given characters.
fn matches4(run: &Vec<char>, a: char, b: char, c: char, d: char) -> (r: bool)
    ensures
        r == (run@ == seq![a, b, c, d]),
{
    let r = run.len() == 4 && run[0] == a && run[1] == b && run[2] == c && run[3] == d;
    proof {
        if r {
            assert(run@ =~= seq![a, b, c, d]);
        } else {
            if run@ == seq![a, b, c, d] {
                assert(run@.len() == 4);
                assert(run@[0] == a && run@[1] == b && run@[2] == c && run@[3] == d);
            }
        }
    }
    r
}

/// The token a single recognized symbol makes.
pub fn one_char_token(c: char) -> (r: Option<Token>)
    ensures
        r == spec_one_char_token(c),
{
    match c {
        '+' => Some(Token::Operator(Operator::Add)),
        '-' => Some(Token::Operator(Operator::Subtract)),
        '*' => Some(Token::Operator(Operator::Multiply)),
        '/' => Some(Token::Operator(Operator::Divide)),
        '^' => Some(Token::Operator(Operator::Power)),
        '(' => Some(Token::Parenthesis(true)),
        ')' => Some(Token::Parenthesis(false)),
        ',' => Some(Token::Comma),
        _ => None,
    }
}

/// Classify a flushed run, adding a first-seen identifier key to the set.
pub fn multichar_token(run: &Vec<char>, parameters: &mut Vec<char>) -> (r: Result<
    Token,
    LexError,
>)
    ensures
        match spec_classify_run(run@) {
            Ok(t) => r == Ok::<Token, LexError>(t) && final(parameters)@
                == spec_params_after(old(parameters)@, t),
            Err(e) => r == Err::<Token, LexError>(e) && final(parameters)@
                == old(parameters)@,
        },
{
    let n = run.len();
    let mut letters: usize = 0;
    let mut digits: usize = 0;
    let mut example: Option<char> = None;
    for i in 0..n
        invariant
            n == run@.len(),
            letters as int == count_letters(run@.subrange(0, i as int)),
            digits as int == count_digits(run@.subrange(0, i as int)),
            example == last_invalid(run@.subrange(0, i as int)),
            letters + digits <= i,
            parameters@ == old(parameters)@,
    {
        let c = run[i];
        proof {
            assert(run@.subrange(0, i + 1 as int).drop_last() =~= run@.subrange(0, i as int));
            assert(run@.subrange(0, i + 1 as int).last() == run@[i as int]);
        }
        if char_is_letter(c) {
            letters = letters + 1;
        } else if char_is_digit_or_dot(c) {
            digits = digits + 1;
        } else {
            example = Some(c);
        }
    }
    proof {
        assert(run@.subrange(0, n as int) =~= run@);
    }
    if letters + digits != n {
        let c = match example {
            Some(c) => c,
            None => ' ',
        };
        return Err(LexError::InvalidCharacter(c));
    }
    if letters == 0 && digits > 0 {
        match numeric::parse_op(run) {
            Some(v) => Ok(Token::Literal(v)),
            None => Err(LexError::ImproperLiteral),
        }
    } else if letters > 0 && digits == 0 {
        if matches3(run, 's', 'i', 'n') {
            Ok(Token::Function(Function::Sin))
        } else if matches3(run, 'c', 'o', 's') {
            Ok(Token::Function(Function::Cos))
        } else if matches3(run, 'm', 'a', 'x') {
            Ok(Token::Function(Function::Max))
        } else if matches3(run, 'm', 'i', 'n') {
            Ok(Token::Function(Function::Min))
        } else if matches4(run, 's', 'i', 'g', 'n') {
            Ok(Token::Function(Function::Sign))
        } else if n == 1 {
            let c = run[0];
            if !contains_char(parameters, c) {
                parameters.push(c);
            }
            Ok(Token::Identifier(c))
        } else {
            Err(LexError::UnknownFunction)
        }
    } else {
        Err(LexError::ImproperLiteral)
    }
}

/// Tokenize a raw expression text.
///
/// On success the returned sequence holds the expression's tokens with
/// unary minus marked, and the returned keys are the single-letter
/// identifiers referenced, in first-seen order without duplicates.
pub fn tokenize(text: &str) -> (r: Result<(Vec<Token>, Vec<char>), LexError>)
    ensures
        match spec_tokenize(text@) {
            Ok(tp) => r matches Ok(x) && x.0@ == tp.0 && x.1@ == tp.1,
            Err(e) => (r matches Err(e2) && e2 == e),
        },
{
    let n = text.unicode_len();
    let mut prepared: Vec<char> = Vec::new();
    assert(text@.subrange(0, 0) =~= Seq::<char>::empty());
    for i in 0..n
        invariant
            n == text@.len(),
            prepared@ == spec_prepare(text@.subrange(0, i as int)),
    {
        let c = text.get_char(i);
        proof {
            assert(text@.subrange(0, i + 1 as int).drop_last() =~= text@.subrange(0, i as int));
            assert(text@.subrange(0, i + 1 as int).last() == text@[i as int]);
        }
        if c != ' ' {
            prepared.push(lower_char(c));
        }
    }
    proof {
        assert(text@.subrange(0, n as int) =~= text@);
    }
    let ghost p = prepared@;

    let mut tokens: Vec<Token> = Vec::new();
    let mut params: Vec<char> = Vec::new();
    let mut current: Vec<char> = Vec::new();
    let m = prepared.len();
    for i in 0..m
        invariant
            m == p.len(),
            prepared@ == p,
            p == spec_prepare(text@),
            spec_scan(p, i as int, tokens@, current@, params@) == spec_scan(
                p,
                0,
                Seq::empty(),
                Seq::empty(),
                Seq::empty(),
            ),
    {
        let c = prepared[i];
        match one_char_token(c) {
            Some(t1) => {
                if current.len() > 0 {
                    match multichar_token(&current, &mut params) {
                        Ok(t) => {
                            tokens.push(t);
                            tokens.push(t1);
                            current.clear();
                            assert(current@ =~= Seq::<char>::empty());
                        },
                        Err(e) => {
                            return Err(e);
                        },
                    }
                } else {
                    tokens.push(t1);
                }
            },
            None => {
                current.push(c);
            },
        }
    }
    if current.len() > 0 {
        match multichar_token(&current, &mut params) {
            Ok(t) => {
                tokens.push(t);
            },
            Err(e) => {
                return Err(e);
            },
        }
    }

    let ghost scanned = tokens@;
    let len = tokens.len();
    for i in 0..len
        invariant
            len == scanned.len(),
            tokens@.len() == scanned.len(),
            forall|j: int| 0 <= j < i ==> tokens@[j] == spec_mark_unary(scanned)[j],
            forall|j: int| i <= j < scanned.len() ==> tokens@[j] == scanned[j],
    {
        let t = tokens[i];
        let is_sub = t == Token::Operator(Operator::Subtract);
        let after_group = if i == 0 {
            true
        } else {
            let prev = tokens[i - 1];
            prev == Token::Comma || prev == Token::Parenthesis(true)
        };
        proof {
            if i > 0 {
                assert(tokens@[i - 1] == spec_mark_unary(scanned)[i - 1]);
            }
        }
        if is_sub && after_group {
            tokens.set(i, Token::Operator(Operator::Negate));
        }
        assert(tokens@[i as int] == spec_mark_unary(scanned)[i as int]);
    }
    proof {
        assert(tokens@ =~= spec_mark_unary(scanned));
    }
    Ok((tokens, params))
}

} // verus!
