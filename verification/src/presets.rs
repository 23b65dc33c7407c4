//! The preset catalogue's row format: a name, three expressions and the
//! ordered default values of the non-reserved parameters, separated by
//! semicolons.
//!
//! Reading the catalogue file is the caller's business; this module turns
//! one row of it into a [`Preset`].

use vstd::prelude::*;
use crate::errors::PresetError;
use crate::numeric;
use crate::numeric::parse_f64_bits;

verus! {

/// One entry of the preset catalogue: a name, the three axis expressions,
/// and the positional defaults (as binary64 bits) for the non-reserved
/// parameters the expressions discover.
pub struct Preset {
    pub name: String,
    pub expr_x: String,
    pub expr_y: String,
    pub expr_z: String,
    pub params: Vec<u64>,
}

/// Splitting on semicolons from position `i` on, with the pending field
/// and the fields gathered so far: always at least one field.
pub open spec fn split_from(
    s: Seq<char>,
    i: int,
    cur: Seq<char>,
    acc: Seq<Seq<char>>,
) -> Seq<Seq<char>>
    decreases s.len() - i,
{
    if i < 0 || i >= s.len() {
        acc.push(cur)
    } else if s[i] == ';' {
        split_from(s, i + 1, Seq::empty(), acc.push(cur))
    } else {
        split_from(s, i + 1, cur.push(s[i]), acc)
    }
}

/// The semicolon-separated fields of a row.
pub open spec fn spec_split(s: Seq<char>) -> Seq<Seq<char>> {
    split_from(s, 0, Seq::empty(), Seq::empty())
}

/// Parsing the default-value fields from position `i` on: each must spell
/// a number.
pub open spec fn spec_parse_defaults_from(
    fields: Seq<Seq<char>>,
    i: int,
    acc: Seq<u64>,
) -> Result<Seq<u64>, PresetError>
    decreases fields.len() - i,
{
    if i < 0 || i >= fields.len() {
        Ok(acc)
    } else {
        match parse_f64_bits(fields[i]) {
            Some(v) => spec_parse_defaults_from(fields, i + 1, acc.push(v)),
            None => Err(PresetError::MalformedRow),
        }
    }
}

/// What one catalogue row yields: its name, three expressions and default
/// values, or a malformed-row error where the four leading fields are
/// missing or a default is no number.
pub open spec fn spec_parse_preset_line(s: Seq<char>) -> Result<
    (Seq<char>, Seq<char>, Seq<char>, Seq<char>, Seq<u64>),
    PresetError,
> {
    let fields = spec_split(s);
    if fields.len() < 4 {
        Err(PresetError::MalformedRow)
    } else {
        match spec_parse_defaults_from(fields, 4, Seq::empty()) {
            Ok(ds) => Ok((fields[0], fields[1], fields[2], fields[3], ds)),
            Err(e) => Err(e),
        }
    }
}

/// Parse one row of the preset catalogue.
pub fn parse_preset_line(line: &str) -> (r: Result<Preset, PresetError>)
    ensures
        match spec_parse_preset_line(line@) {
            Ok(t) => r matches Ok(p) && p.name@ == t.0 && p.expr_x@ == t.1 && p.expr_y@
                == t.2 && p.expr_z@ == t.3 && p.params@ == t.4,
            Err(e) => (r matches Err(e2) && e2 == e),
        },
{
    let n = line.unicode_len();
    let mut fields: Vec<Vec<char>> = Vec::new();
    let mut cur: Vec<char> = Vec::new();
    assert(fields.deep_view() =~= Seq::<Seq<char>>::empty());
    for i in 0..n
        invariant
            n == line@.len(),
            split_from(line@, i as int, cur@, fields.deep_view()) == spec_split(line@),
    {
        let c = line.get_char(i);
        if c == ';' {
            let ghost before = fields.deep_view();
            fields.push(cur);
            assert(fields.deep_view() =~~= before.push(cur@));
            cur = Vec::new();
        } else {
            cur.push(c);
        }
    }
    let ghost before = fields.deep_view();
    let ghost last = cur@;
    fields.push(cur);
    proof {
        assert(fields.deep_view() =~~= before.push(last));
        assert(fields.deep_view() == spec_split(line@));
    }
    if fields.len() < 4 {
        return Err(PresetError::MalformedRow);
    }
    let mut params: Vec<u64> = Vec::new();
    let m = fields.len();
    for i in 4..m
        invariant
            m == fields.deep_view().len(),
            fields.deep_view() == spec_split(line@),
            4 <= i <= m,
            spec_parse_defaults_from(fields.deep_view(), i as int, params@)
                == spec_parse_defaults_from(fields.deep_view(), 4, Seq::empty()),
    {
        assert(fields.deep_view()[i as int] == fields@[i as int]@);
        match numeric::parse_op(&fields[i]) {
            Some(v) => {
                params.push(v);
            },
            None => {
                return Err(PresetError::MalformedRow);
            },
        }
    }
    assert(fields.deep_view()[0] == fields@[0]@);
    assert(fields.deep_view()[1] == fields@[1]@);
    assert(fields.deep_view()[2] == fields@[2]@);
    assert(fields.deep_view()[3] == fields@[3]@);
    let name = numeric::string_from_chars(&fields[0]);
    let expr_x = numeric::string_from_chars(&fields[1]);
    let expr_y = numeric::string_from_chars(&fields[2]);
    let expr_z = numeric::string_from_chars(&fields[3]);
    Ok(Preset { name, expr_x, expr_y, expr_z, params })
}

} // verus!
