//! The parameter binding: an ordered mapping from single-letter identifier
//! to the bits of its current numeric value.
//!
//! Keys `x`, `y` and `z` are the reserved state variables; every other key
//! is a user-tunable constant.  Order is insertion order and is only
//! user-visible (the parameter listing); evaluation looks keys up by name.

use vstd::prelude::*;

verus! {

/// What a key maps to in an entry sequence: the value of its first entry.
pub open spec fn lookup(s: Seq<(char, u64)>, c: char) -> Option<u64>
    decreases s.len(),
{
    if s.len() == 0 {
        None
    } else if s[0].0 == c {
        Some(s[0].1)
    } else {
        lookup(s.drop_first(), c)
    }
}

/// Whether an entry sequence holds the key at all.
pub open spec fn contains_key(s: Seq<(char, u64)>, c: char) -> bool {
    lookup(s, c) is Some
}

/// The keys of an entry sequence, in order.
pub open spec fn entry_keys(s: Seq<(char, u64)>) -> Seq<char> {
    s.map_values(|e: (char, u64)| e.0)
}

/// Whether no key repeats.
pub open spec fn distinct_keys(s: Seq<(char, u64)>) -> bool {
    forall|i: int, j: int| 0 <= i < j < s.len() ==> s[i].0 != s[j].0
}

/// Looking a key up after overwriting its first entry finds the new value;
/// every other key is unaffected.
proof fn lemma_lookup_update(s: Seq<(char, u64)>, i: int, c: char, v: u64, d: char)
    requires
        0 <= i < s.len(),
        s[i].0 == c,
        forall|j: int| 0 <= j < i ==> s[j].0 != c,
    ensures
        lookup(s.update(i, (c, v)), c) == Some(v),
        d != c ==> lookup(s.update(i, (c, v)), d) == lookup(s, d),
    decreases i,
{
    let t = s.update(i, (c, v));
    if i == 0 {
        if d != c && s[0].0 != d {
            assert(t.drop_first() =~= s.drop_first());
        }
    } else {
        assert(t[0] == s[0]);
        assert(t.drop_first() =~= s.drop_first().update(i - 1, (c, v)));
        lemma_lookup_update(s.drop_first(), i - 1, c, v, d);
    }
}

/// Looking a key up after appending an entry for it finds the new value,
/// provided the key was absent; every other key is unaffected.
proof fn lemma_lookup_push(s: Seq<(char, u64)>, c: char, v: u64, d: char)
    requires
        forall|j: int| 0 <= j < s.len() ==> s[j].0 != c,
    ensures
        lookup(s.push((c, v)), c) == Some(v),
        d != c ==> lookup(s.push((c, v)), d) == lookup(s, d),
    decreases s.len(),
{
    let t = s.push((c, v));
    if s.len() == 0 {
        assert(t.drop_first() =~= Seq::<(char, u64)>::empty());
        assert(lookup(Seq::<(char, u64)>::empty(), d) is None);
    } else {
        assert(t[0] == s[0]);
        assert(t.drop_first() =~= s.drop_first().push((c, v)));
        lemma_lookup_push(s.drop_first(), c, v, d);
    }
}

/// A key that some entry holds is found, and the absent key is not.
pub proof fn lemma_lookup_exists(s: Seq<(char, u64)>, c: char)
    ensures
        contains_key(s, c) <==> exists|i: int| 0 <= i < s.len() && s[i].0 == c,
    decreases s.len(),
{
    if s.len() > 0 {
        lemma_lookup_exists(s.drop_first(), c);
        if s[0].0 != c {
            if contains_key(s.drop_first(), c) {
                let i = choose|i: int|
                    0 <= i < s.drop_first().len() && s.drop_first()[i].0 == c;
                assert(s[i + 1].0 == c);
            }
            assert forall|i: int| 0 <= i < s.len() && s[i].0 == c implies
                contains_key(s.drop_first(), c) by {
                assert(s.drop_first()[i - 1].0 == c);
            }
        }
    }
}

/// What binding a key does to an entry sequence: overwrite the value of its
/// first entry, or append an entry where the key is absent.
pub open spec fn spec_store(s: Seq<(char, u64)>, c: char, v: u64) -> Seq<(char, u64)>
    decreases s.len(),
{
    if s.len() == 0 {
        seq![(c, v)]
    } else if s[0].0 == c {
        seq![(c, v)] + s.drop_first()
    } else {
        seq![s[0]] + spec_store(s.drop_first(), c, v)
    }
}

/// Storing under a key whose first entry is at `i` is the update at `i`.
proof fn lemma_store_is_update(s: Seq<(char, u64)>, i: int, c: char, v: u64)
    requires
        0 <= i < s.len(),
        s[i].0 == c,
        forall|j: int| 0 <= j < i ==> s[j].0 != c,
    ensures
        spec_store(s, c, v) == s.update(i, (c, v)),
    decreases i,
{
    if i == 0 {
        assert(seq![(c, v)] + s.drop_first() =~= s.update(0, (c, v)));
    } else {
        lemma_store_is_update(s.drop_first(), i - 1, c, v);
        assert(seq![s[0]] + s.drop_first().update(i - 1, (c, v)) =~= s.update(i, (c, v)));
    }
}

/// Storing under an absent key is the append.
proof fn lemma_store_is_push(s: Seq<(char, u64)>, c: char, v: u64)
    requires
        forall|j: int| 0 <= j < s.len() ==> s[j].0 != c,
    ensures
        spec_store(s, c, v) == s.push((c, v)),
    decreases s.len(),
{
    if s.len() == 0 {
        assert(seq![(c, v)] =~= s.push((c, v)));
    } else {
        lemma_store_is_push(s.drop_first(), c, v);
        assert(seq![s[0]] + s.drop_first().push((c, v)) =~= s.push((c, v)));
    }
}

/// The ordered mapping from identifier key to the bits of its value.
pub struct Binding {
    entries: Vec<(char, u64)>,
}

impl View for Binding {
    type V = Seq<(char, u64)>;

    closed spec fn view(&self) -> Seq<(char, u64)> {
        self.entries@
    }
}

impl Binding {
    /// The empty binding.
    pub fn new() -> (r: Binding)
        ensures
            r@ == Seq::<(char, u64)>::empty(),
    {
        Binding { entries: Vec::new() }
    }

    /// A binding with the given keys in the given order, every value zero
    /// bits: the pattern of +0.0, the default of every parameter.
    pub fn with_keys(ks: &Vec<char>) -> (r: Binding)
        ensures
            r@ == ks@.map_values(|c: char| (c, 0u64)),
    {
        let mut entries: Vec<(char, u64)> = Vec::new();
        let n = ks.len();
        for i in 0..n
            invariant
                n == ks@.len(),
                entries@ =~= ks@.subrange(0, i as int).map_values(|c: char| (c, 0u64)),
        {
            entries.push((ks[i], 0u64));
            assert(ks@.subrange(0, i + 1 as int)
                =~= ks@.subrange(0, i as int).push(ks@[i as int]));
        }
        assert(ks@.subrange(0, n as int) =~= ks@);
        Binding { entries }
    }

    /// How many keys the binding holds.
    pub fn len(&self) -> (n: usize)
        ensures
            n == self@.len(),
    {
        self.entries.len()
    }

    /// The entry at a position, for ordered listing.
    pub fn entry(&self, i: usize) -> (e: (char, u64))
        requires
            i < self@.len(),
        ensures
            e == self@[i as int],
    {
        self.entries[i]
    }

    /// The value bound to a key, or `None` where the key is absent.
    pub fn get(&self, c: char) -> (r: Option<u64>)
        ensures
            r == lookup(self@, c),
    {
        let n = self.entries.len();
        assert(self@.skip(0) =~= self@);
        for i in 0..n
            invariant
                n == self@.len(),
                lookup(self@, c) == lookup(self@.skip(i as int), c),
        {
            let ghost rest = self@.skip(i as int);
            assert(rest[0] == self@[i as int]);
            assert(rest.drop_first() =~= self@.skip(i + 1 as int));
            if self.entries[i].0 == c {
                return Some(self.entries[i].1);
            }
        }
        assert(self@.skip(n as int) =~= Seq::<(char, u64)>::empty());
        None
    }

    /// Bind a key to a value: overwrite its entry where the key is present,
    /// append an entry where it is not.  Every other key keeps its value,
    /// and the key order is untouched but for a possible new last key.
    pub fn set(&mut self, c: char, v: u64)
        ensures
            final(self)@ == spec_store(old(self)@, c, v),
            lookup(final(self)@, c) == Some(v),
            forall|d: char| d != c ==> lookup(final(self)@, d) == lookup(old(self)@, d),
            contains_key(old(self)@, c) ==> entry_keys(final(self)@)
                == entry_keys(old(self)@),
            !contains_key(old(self)@, c) ==> entry_keys(final(self)@)
                == entry_keys(old(self)@).push(c),
            distinct_keys(old(self)@) ==> distinct_keys(final(self)@),
    {
        let n = self.entries.len();
        for i in 0..n
            invariant
                n == self@.len(),
                self@ == old(self)@,
                forall|j: int| 0 <= j < i ==> self@[j].0 != c,
        {
            if self.entries[i].0 == c {
                proof {
                    lemma_store_is_update(old(self)@, i as int, c, v);
                    lemma_lookup_exists(old(self)@, c);
                    assert forall|d: char| d != c implies
                        lookup(old(self)@.update(i as int, (c, v)), d)
                            == lookup(old(self)@, d) by {
                        lemma_lookup_update(old(self)@, i as int, c, v, d);
                    }
                    lemma_lookup_update(old(self)@, i as int, c, v, c);
                }
                self.entries.set(i, (c, v));
                proof {
                    assert(entry_keys(self@) =~= entry_keys(old(self)@));
                }
                return;
            }
        }
        proof {
            lemma_store_is_push(old(self)@, c, v);
            lemma_lookup_exists(old(self)@, c);
            assert forall|d: char| d != c implies
                lookup(old(self)@.push((c, v)), d) == lookup(old(self)@, d) by {
                lemma_lookup_push(old(self)@, c, v, d);
            }
            lemma_lookup_push(old(self)@, c, v, c);
        }
        self.entries.push((c, v));
        proof {
            assert(entry_keys(self@) =~= entry_keys(old(self)@).push(c));
        }
    }

    /// Overwrite the value at a position, keeping its key: how the listing
    /// edits a parameter in place.
    pub fn set_value_at(&mut self, i: usize, v: u64)
        requires
            i < old(self)@.len(),
        ensures
            final(self)@ == old(self)@.update(i as int, (old(self)@[i as int].0, v)),
    {
        let c = self.entries[i].0;
        self.entries.set(i, (c, v));
    }
}

} // verus!
