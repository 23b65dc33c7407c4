//! The expression group: three independently parsed per-axis expressions
//! sharing one parameter namespace.
//!
//! This is the unit the simulation loop holds and re-evaluates per point
//! per tick.  A group is rebuilt as a whole on every edit or preset
//! selection and swapped in atomically: a tick never sees a binding
//! inconsistent with its token sequences.

use vstd::prelude::*;
use crate::binding::{Binding, contains_key, distinct_keys, entry_keys, lookup, spec_store};
use crate::errors::{EvalError, GroupError, ParseError, PresetError};
use crate::parser;
use crate::parser::{spec_evaluate, spec_parse};
use crate::presets::Preset;
use crate::token::Token;
use crate::tokenizer;
use crate::tokenizer::{distinct_chars, lemma_add_key_distinct, spec_add_key};

verus! {

/// Add each of the keys from position `i` on, on first sight only.
pub open spec fn add_keys(acc: Seq<char>, ks: Seq<char>, i: int) -> Seq<char>
    decreases ks.len() - i,
{
    if i < 0 || i >= ks.len() {
        acc
    } else {
        add_keys(spec_add_key(acc, ks[i]), ks, i + 1)
    }
}

/// The unified key set of a group: the per-axis identifier sets in
/// first-seen order, with the reserved state variables `x`, `y`, `z`
/// forced present at the end.
pub open spec fn spec_group_keys(kx: Seq<char>, ky: Seq<char>, kz: Seq<char>) -> Seq<char> {
    add_keys(
        add_keys(add_keys(add_keys(Seq::empty(), kx, 0), ky, 0), kz, 0),
        seq!['x', 'y', 'z'],
        0,
    )
}

/// What parsing a group yields: the three postfix sequences and a binding
/// over the unified key set, every value the bits of +0.0.
pub open spec fn spec_parse_group(sx: Seq<char>, sy: Seq<char>, sz: Seq<char>) -> Result<
    (Seq<Token>, Seq<Token>, Seq<Token>, Seq<(char, u64)>),
    ParseError,
> {
    match spec_parse(sx) {
        Ok((tx, ex)) => match spec_parse(sy) {
            Ok((ty, ey)) => match spec_parse(sz) {
                Ok((tz, ez)) => Ok(
                    (
                        tx,
                        ty,
                        tz,
                        spec_group_keys(
                            entry_keys(ex),
                            entry_keys(ey),
                            entry_keys(ez),
                        ).map_values(|c: char| (c, 0u64)),
                    ),
                ),
                Err(e) => Err(e),
            },
            Err(e) => Err(e),
        },
        Err(e) => Err(e),
    }
}

/// Seeding a fresh binding from a previous one: a key present in both
/// keeps its previous value, a new key keeps its default.
pub open spec fn spec_seed(prev: Seq<(char, u64)>, entries: Seq<(char, u64)>) -> Seq<
    (char, u64),
> {
    entries.map_values(
        |e: (char, u64)|
            match lookup(prev, e.0) {
                Some(v) => (e.0, v),
                None => e,
            },
    )
}

/// What building a group yields: the parsed group, its binding seeded from
/// the previous one where a previous one is given.
pub open spec fn spec_build_group(
    sx: Seq<char>,
    sy: Seq<char>,
    sz: Seq<char>,
    prev: Option<Seq<(char, u64)>>,
) -> Result<(Seq<Token>, Seq<Token>, Seq<Token>, Seq<(char, u64)>), ParseError> {
    match spec_parse_group(sx, sy, sz) {
        Ok(g) => Ok(
            (
                g.0,
                g.1,
                g.2,
                match prev {
                    Some(p) => spec_seed(p, g.3),
                    None => g.3,
                },
            ),
        ),
        Err(e) => Err(e),
    }
}

/// Binding positional preset defaults: walk the entries in order, skip the
/// reserved keys, and give each remaining key the next default; fewer
/// defaults than keys is an error.
pub open spec fn spec_apply_defaults_from(
    entries: Seq<(char, u64)>,
    i: int,
    d: int,
    defaults: Seq<u64>,
) -> Result<Seq<(char, u64)>, PresetError>
    decreases entries.len() - i,
{
    if i < 0 || i >= entries.len() {
        Ok(entries)
    } else if entries[i].0 == 'x' || entries[i].0 == 'y' || entries[i].0 == 'z' {
        spec_apply_defaults_from(entries, i + 1, d, defaults)
    } else if 0 <= d < defaults.len() {
        spec_apply_defaults_from(
            entries.update(i, (entries[i].0, defaults[d])),
            i + 1,
            d + 1,
            defaults,
        )
    } else {
        Err(PresetError::InsufficientDefaults)
    }
}

/// What turning a preset into a group yields.
pub open spec fn spec_apply_preset(
    sx: Seq<char>,
    sy: Seq<char>,
    sz: Seq<char>,
    defaults: Seq<u64>,
) -> Result<(Seq<Token>, Seq<Token>, Seq<Token>, Seq<(char, u64)>), GroupError> {
    match spec_parse_group(sx, sy, sz) {
        Ok(g) => match spec_apply_defaults_from(g.3, 0, 0, defaults) {
            Ok(entries) => Ok((g.0, g.1, g.2, entries)),
            Err(e) => Err(GroupError::Preset(e)),
        },
        Err(e) => Err(GroupError::Parse(e)),
    }
}

/// Three coupled per-axis postfix sequences plus their shared binding: one
/// user-defined vector field.
pub struct ExpressionGroup {
    pub tokens_x: Vec<Token>,
    pub tokens_y: Vec<Token>,
    pub tokens_z: Vec<Token>,
    pub params: Binding,
}

/// The keys of a group binding repeat nowhere.
proof fn lemma_add_keys_distinct(acc: Seq<char>, ks: Seq<char>, i: int)
    requires
        distinct_chars(acc),
    ensures
        distinct_chars(add_keys(acc, ks, i)),
    decreases ks.len() - i,
{
    if 0 <= i < ks.len() {
        lemma_add_key_distinct(acc, ks[i]);
        lemma_add_keys_distinct(spec_add_key(acc, ks[i]), ks, i + 1);
    }
}

/// Looking a key up in a seeded binding: a key of the fresh binding takes
/// its previous value where one exists, its default otherwise; keys the
/// fresh binding lacks stay absent.
pub proof fn lemma_seed_lookup(prev: Seq<(char, u64)>, entries: Seq<(char, u64)>, c: char)
    ensures
        lookup(spec_seed(prev, entries), c) == (match lookup(entries, c) {
            None => None::<u64>,
            Some(v0) => match lookup(prev, c) {
                Some(pv) => Some(pv),
                None => Some(v0),
            },
        }),
    decreases entries.len(),
{
    let s = spec_seed(prev, entries);
    if entries.len() > 0 {
        lemma_seed_lookup(prev, entries.drop_first(), c);
        assert(s.drop_first() =~= spec_seed(prev, entries.drop_first()));
        assert(s[0] == (match lookup(prev, entries[0].0) {
            Some(v) => (entries[0].0, v),
            None => entries[0],
        }));
    }
}

/// Append the keys of `ks` that `acc` lacks, in order.
fn push_new_keys(acc: &mut Vec<char>, ks: &Vec<char>)
    ensures
        final(acc)@ == add_keys(old(acc)@, ks@, 0),
{
    let n = ks.len();
    for i in 0..n
        invariant
            n == ks@.len(),
            add_keys(acc@, ks@, i as int) == add_keys(old(acc)@, ks@, 0),
    {
        let c = ks[i];
        if !tokenizer::contains_char(acc, c) {
            acc.push(c);
        }
    }
}

/// The keys of a binding, in order.
fn keys_of(b: &Binding) -> (r: Vec<char>)
    ensures
        r@ == entry_keys(b@),
{
    let mut r: Vec<char> = Vec::new();
    let n = b.len();
    for i in 0..n
        invariant
            n == b@.len(),
            r@ =~= entry_keys(b@).subrange(0, i as int),
    {
        let e = b.entry(i);
        r.push(e.0);
        assert(entry_keys(b@).subrange(0, i + 1 as int) =~= entry_keys(b@).subrange(
            0,
            i as int,
        ).push(entry_keys(b@)[i as int]));
    }
    assert(entry_keys(b@).subrange(0, n as int) =~= entry_keys(b@));
    r
}

/// Overwrite each key present in a previous binding with its previous
/// value.
fn seed_from(params: &mut Binding, previous: &Binding)
    ensures
        final(params)@ == spec_seed(previous@, old(params)@),
{
    let ghost target = spec_seed(previous@, old(params)@);
    let n = params.len();
    for i in 0..n
        invariant
            n == old(params)@.len(),
            params@.len() == old(params)@.len(),
            forall|j: int| 0 <= j < i ==> params@[j] == target[j],
            forall|j: int| i <= j < n ==> params@[j] == old(params)@[j],
            target == spec_seed(previous@, old(params)@),
    {
        let e = params.entry(i);
        match previous.get(e.0) {
            Some(pv) => {
                params.set_value_at(i, pv);
            },
            None => {},
        }
        assert(params@[i as int] == target[i as int]);
    }
    assert(params@ =~= target);
}

/// Parse the three axis expressions and unify their parameter namespaces
/// into one binding, the reserved keys `x`, `y`, `z` always present, every
/// value defaulted to the bits of +0.0.
pub fn parse_group(x: &str, y: &str, z: &str) -> (r: Result<ExpressionGroup, ParseError>)
    ensures
        match spec_parse_group(x@, y@, z@) {
            Ok(g) => r matches Ok(eg) && eg.tokens_x@ == g.0 && eg.tokens_y@ == g.1
                && eg.tokens_z@ == g.2 && eg.params@ == g.3 && distinct_keys(eg.params@),
            Err(e) => (r matches Err(e2) && e2 == e),
        },
{
    let rx = match parser::parse(x) {
        Ok(v) => v,
        Err(e) => {
            return Err(e);
        },
    };
    let ry = match parser::parse(y) {
        Ok(v) => v,
        Err(e) => {
            return Err(e);
        },
    };
    let rz = match parser::parse(z) {
        Ok(v) => v,
        Err(e) => {
            return Err(e);
        },
    };
    let kx = keys_of(&rx.1);
    let ky = keys_of(&ry.1);
    let kz = keys_of(&rz.1);
    let mut keys: Vec<char> = Vec::new();
    push_new_keys(&mut keys, &kx);
    push_new_keys(&mut keys, &ky);
    push_new_keys(&mut keys, &kz);
    let mut reserved: Vec<char> = Vec::new();
    reserved.push('x');
    reserved.push('y');
    reserved.push('z');
    assert(reserved@ =~= seq!['x', 'y', 'z']);
    push_new_keys(&mut keys, &reserved);
    let params = Binding::with_keys(&keys);
    proof {
        assert(distinct_chars(Seq::<char>::empty()));
        lemma_add_keys_distinct(Seq::empty(), kx@, 0);
        lemma_add_keys_distinct(add_keys(Seq::empty(), kx@, 0), ky@, 0);
        lemma_add_keys_distinct(
            add_keys(add_keys(Seq::empty(), kx@, 0), ky@, 0),
            kz@,
            0,
        );
        lemma_add_keys_distinct(
            add_keys(add_keys(add_keys(Seq::empty(), kx@, 0), ky@, 0), kz@, 0),
            seq!['x', 'y', 'z'],
            0,
        );
        assert forall|i: int, j: int| 0 <= i < j < params@.len() implies params@[i].0
            != params@[j].0 by {
            assert(params@[i].0 == keys@[i]);
            assert(params@[j].0 == keys@[j]);
        }
    }
    Ok(
        ExpressionGroup {
            tokens_x: rx.0,
            tokens_y: ry.0,
            tokens_z: rz.0,
            params,
        },
    )
}

/// Build a group, seeding the new binding from a previous one so that
/// user-tuned constants survive an edit: any key present in both bindings
/// keeps its previous value.
pub fn build_group(x: &str, y: &str, z: &str, previous: Option<&Binding>) -> (r: Result<
    ExpressionGroup,
    ParseError,
>)
    ensures
        match spec_build_group(
            x@,
            y@,
            z@,
            match previous {
                Some(b) => Some(b@),
                None => None,
            },
        ) {
            Ok(g) => r matches Ok(eg) && eg.tokens_x@ == g.0 && eg.tokens_y@ == g.1
                && eg.tokens_z@ == g.2 && eg.params@ == g.3 && distinct_keys(eg.params@),
            Err(e) => (r matches Err(e2) && e2 == e),
        },
        r matches Ok(eg) ==> previous matches Some(pb) ==> forall|c: char|
            contains_key(eg.params@, c) && contains_key(pb@, c) ==> lookup(eg.params@, c)
                == lookup(pb@, c),
{
    let mut eg = match parse_group(x, y, z) {
        Ok(g) => g,
        Err(e) => {
            return Err(e);
        },
    };
    match previous {
        Some(pb) => {
            let ghost fresh = eg.params@;
            seed_from(&mut eg.params, pb);
            proof {
                assert forall|c: char|
                    contains_key(eg.params@, c) && contains_key(pb@, c) implies lookup(
                    eg.params@,
                    c,
                ) == lookup(pb@, c) by {
                    lemma_seed_lookup(pb@, fresh, c);
                }
                assert forall|i: int, j: int|
                    0 <= i < j < eg.params@.len() implies eg.params@[i].0
                    != eg.params@[j].0 by {
                    assert(eg.params@[i].0 == fresh[i].0);
                    assert(eg.params@[j].0 == fresh[j].0);
                }
            }
            Ok(eg)
        },
        None => Ok(eg),
    }
}

/// Bind the positional defaults of a preset to the non-reserved keys in
/// order.  On an error the keys and their order are untouched, but values
/// already bound keep their new defaults.
pub fn apply_defaults(params: &mut Binding, defaults: &Vec<u64>) -> (r: Result<
    (),
    PresetError,
>)
    ensures
        match spec_apply_defaults_from(old(params)@, 0, 0, defaults@) {
            Ok(entries) => r is Ok && final(params)@ == entries,
            Err(e) => r == Err::<(), PresetError>(e) && entry_keys(final(params)@)
                == entry_keys(old(params)@),
        },
{
    let n = params.len();
    let mut d: usize = 0;
    for i in 0..n
        invariant
            n == params@.len(),
            params@.len() == old(params)@.len(),
            entry_keys(params@) == entry_keys(old(params)@),
            d <= defaults@.len(),
            spec_apply_defaults_from(params@, i as int, d as int, defaults@)
                == spec_apply_defaults_from(old(params)@, 0, 0, defaults@),
    {
        let e = params.entry(i);
        if e.0 == 'x' || e.0 == 'y' || e.0 == 'z' {
        } else if d < defaults.len() {
            let ghost before = params@;
            params.set_value_at(i, defaults[d]);
            d = d + 1;
            assert(entry_keys(params@) =~= entry_keys(before));
        } else {
            return Err(PresetError::InsufficientDefaults);
        }
    }
    Ok(())
}

/// Turn a preset into an active group: parse its three expressions and
/// bind its ordered defaults to the discovered parameters positionally, in
/// first-seen, non-reserved order.
pub fn apply_preset(preset: &Preset) -> (r: Result<ExpressionGroup, GroupError>)
    ensures
        match spec_apply_preset(
            preset.expr_x@,
            preset.expr_y@,
            preset.expr_z@,
            preset.params@,
        ) {
            Ok(g) => r matches Ok(eg) && eg.tokens_x@ == g.0 && eg.tokens_y@ == g.1
                && eg.tokens_z@ == g.2 && eg.params@ == g.3,
            Err(e) => (r matches Err(e2) && e2 == e),
        },
{
    let mut eg = match parse_group(
        preset.expr_x.as_str(),
        preset.expr_y.as_str(),
        preset.expr_z.as_str(),
    ) {
        Ok(g) => g,
        Err(e) => {
            return Err(GroupError::Parse(e));
        },
    };
    match apply_defaults(&mut eg.params, &preset.params) {
        Ok(_) => Ok(eg),
        Err(e) => Err(GroupError::Preset(e)),
    }
}

impl ExpressionGroup {
    /// One point's derivatives for one tick: write the point's coordinates
    /// into the reserved keys, then evaluate all three axes from that one
    /// unmodified binding (explicit-Euler semantics: no axis sees a
    /// partially updated state).
    pub fn derivatives(&mut self, x: u64, y: u64, z: u64) -> (r: Result<
        (u64, u64, u64),
        EvalError,
    >)
        ensures
            final(self).tokens_x@ == old(self).tokens_x@,
            final(self).tokens_y@ == old(self).tokens_y@,
            final(self).tokens_z@ == old(self).tokens_z@,
            final(self).params@ == spec_store(
                spec_store(spec_store(old(self).params@, 'x', x), 'y', y),
                'z',
                z,
            ),
            ({
                let b = spec_store(
                    spec_store(spec_store(old(self).params@, 'x', x), 'y', y),
                    'z',
                    z,
                );
                match spec_evaluate(old(self).tokens_x@, b) {
                    Err(e) => r == Err::<(u64, u64, u64), EvalError>(e),
                    Ok(dx) => match spec_evaluate(old(self).tokens_y@, b) {
                        Err(e) => r == Err::<(u64, u64, u64), EvalError>(e),
                        Ok(dy) => match spec_evaluate(old(self).tokens_z@, b) {
                            Err(e) => r == Err::<(u64, u64, u64), EvalError>(e),
                            Ok(dz) => r == Ok::<(u64, u64, u64), EvalError>((dx, dy, dz)),
                        },
                    },
                }
            }),
    {
        self.params.set('x', x);
        self.params.set('y', y);
        self.params.set('z', z);
        let dx = match parser::evaluate(&self.tokens_x, &self.params) {
            Ok(v) => v,
            Err(e) => {
                return Err(e);
            },
        };
        let dy = match parser::evaluate(&self.tokens_y, &self.params) {
            Ok(v) => v,
            Err(e) => {
                return Err(e);
            },
        };
        let dz = match parser::evaluate(&self.tokens_z, &self.params) {
            Ok(v) => v,
            Err(e) => {
                return Err(e);
            },
        };
        Ok((dx, dy, dz))
    }
}

} // verus!
