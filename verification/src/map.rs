//! `StringMap`: a map keyed by strings that keeps its entries in insertion
//! order, each key at most once.

use vstd::prelude::*;
use crate::text::str_eq;

verus! {

/// The value stored under `k` in `es` (the first entry with that key).
pub open spec fn lookup<W>(es: Seq<(Seq<char>, W)>, k: Seq<char>) -> Option<W>
    decreases es.len(),
{
    if es.len() == 0 {
        None
    } else if es[0].0 == k {
        Some(es[0].1)
    } else {
        lookup(es.drop_first(), k)
    }
}

/// No key occurs twice.
pub open spec fn keys_distinct<W>(es: Seq<(Seq<char>, W)>) -> bool {
    forall|i: int, j: int| 0 <= i < j < es.len() ==> es[i].0 != es[j].0
}

/// `es` with the value under `k` replaced in place, or `(k, v)` appended when
/// `k` is new.
pub open spec fn insert_spec<W>(es: Seq<(Seq<char>, W)>, k: Seq<char>, v: W) -> Seq<
    (Seq<char>, W),
>
    decreases es.len(),
{
    if es.len() == 0 {
        seq![(k, v)]
    } else if es[0].0 == k {
        seq![(k, v)] + es.drop_first()
    } else {
        seq![es[0]] + insert_spec(es.drop_first(), k, v)
    }
}

/// `es` without the entry for `k`.
pub open spec fn remove_spec<W>(es: Seq<(Seq<char>, W)>, k: Seq<char>) -> Seq<(Seq<char>, W)>
    decreases es.len(),
{
    if es.len() == 0 {
        es
    } else if es[0].0 == k {
        es.drop_first()
    } else {
        seq![es[0]] + remove_spec(es.drop_first(), k)
    }
}

/// Whether a key begins with the character `c`.
pub open spec fn key_starts_with(k: Seq<char>, c: char) -> bool {
    k.len() > 0 && k[0] == c
}

/// `es` without the entries whose key begins with `c`, order kept.
pub open spec fn drop_prefixed<W>(es: Seq<(Seq<char>, W)>, c: char) -> Seq<(Seq<char>, W)>
    decreases es.len(),
{
    if es.len() == 0 {
        es
    } else {
        let rest = drop_prefixed(es.drop_first(), c);
        if key_starts_with(es[0].0, c) {
            rest
        } else {
            seq![es[0]] + rest
        }
    }
}

/// `es` after inserting each pair of `pairs` in turn.
pub open spec fn insert_all<W>(es: Seq<(Seq<char>, W)>, pairs: Seq<(Seq<char>, W)>) -> Seq<
    (Seq<char>, W),
>
    decreases pairs.len(),
{
    if pairs.len() == 0 {
        es
    } else {
        insert_all(insert_spec(es, pairs[0].0, pairs[0].1), pairs.drop_first())
    }
}

pub proof fn lemma_lookup_skip<W>(es: Seq<(Seq<char>, W)>, k: Seq<char>, i: int)
    requires
        0 <= i <= es.len(),
        forall|j: int| 0 <= j < i ==> es[j].0 != k,
    ensures
        lookup(es, k) == lookup(es.skip(i), k),
    decreases i,
{
    if i > 0 {
        lemma_lookup_skip(es.drop_first(), k, i - 1);
        assert(es.drop_first().skip(i - 1) =~= es.skip(i));
    } else {
        assert(es.skip(0) =~= es);
    }
}

pub proof fn lemma_insert_skip<W>(es: Seq<(Seq<char>, W)>, k: Seq<char>, v: W, i: int)
    requires
        0 <= i <= es.len(),
        forall|j: int| 0 <= j < i ==> es[j].0 != k,
    ensures
        insert_spec(es, k, v) == es.take(i) + insert_spec(es.skip(i), k, v),
    decreases i,
{
    if i > 0 {
        lemma_insert_skip(es.drop_first(), k, v, i - 1);
        assert(es.drop_first().skip(i - 1) =~= es.skip(i));
        assert(es.take(i) =~= seq![es[0]] + es.drop_first().take(i - 1));
    } else {
        assert(es.skip(0) =~= es);
        assert(es.take(0) + insert_spec(es, k, v) =~= insert_spec(es, k, v));
    }
}

pub proof fn lemma_remove_skip<W>(es: Seq<(Seq<char>, W)>, k: Seq<char>, i: int)
    requires
        0 <= i <= es.len(),
        forall|j: int| 0 <= j < i ==> es[j].0 != k,
    ensures
        remove_spec(es, k) == es.take(i) + remove_spec(es.skip(i), k),
    decreases i,
{
    if i > 0 {
        lemma_remove_skip(es.drop_first(), k, i - 1);
        assert(es.drop_first().skip(i - 1) =~= es.skip(i));
        assert(es.take(i) =~= seq![es[0]] + es.drop_first().take(i - 1));
    } else {
        assert(es.skip(0) =~= es);
        assert(es.take(0) + remove_spec(es, k) =~= remove_spec(es, k));
    }
}

/// A key that has a value has an entry.
pub proof fn lemma_lookup_some_key<W>(es: Seq<(Seq<char>, W)>, k: Seq<char>)
    requires
        lookup(es, k) is Some,
    ensures
        exists|i: int| 0 <= i < es.len() && es[i].0 == k,
    decreases es.len(),
{
    if es[0].0 != k {
        lemma_lookup_some_key(es.drop_first(), k);
        let i = choose|i: int| 0 <= i < es.drop_first().len() && es.drop_first()[i].0 == k;
        assert(es[i + 1].0 == k);
    }
}

/// Reading a key right after storing under it gives the stored value;
/// reading any other key gives what it gave before.
pub proof fn law_get_after_insert<W>(es: Seq<(Seq<char>, W)>, k: Seq<char>, v: W, other: Seq<char>)
    ensures
        lookup(insert_spec(es, k, v), k) == Some(v),
        other != k ==> lookup(insert_spec(es, k, v), other) == lookup(es, other),
    decreases es.len(),
{
    if es.len() > 0 && es[0].0 != k {
        law_get_after_insert(es.drop_first(), k, v, other);
        assert((seq![es[0]] + insert_spec(es.drop_first(), k, v)).drop_first() =~= insert_spec(
            es.drop_first(),
            k,
            v,
        ));
    } else if es.len() > 0 {
        assert((seq![(k, v)] + es.drop_first()).drop_first() =~= es.drop_first());
    } else {
        assert(seq![(k, v)].drop_first() =~= es);
    }
}

/// After removing a key, reading it gives nothing; reading any other key
/// gives what it gave before.
pub proof fn law_get_after_remove<W>(es: Seq<(Seq<char>, W)>, k: Seq<char>, other: Seq<char>)
    requires
        keys_distinct(es),
    ensures
        lookup(remove_spec(es, k), k) is None,
        other != k ==> lookup(remove_spec(es, k), other) == lookup(es, other),
    decreases es.len(),
{
    if es.len() > 0 {
        let tail = es.drop_first();
        assert(keys_distinct(tail)) by {
            assert forall|i: int, j: int| 0 <= i < j < tail.len() implies tail[i].0 != tail[j].0 by {
                assert(tail[i] == es[i + 1] && tail[j] == es[j + 1]);
            }
        }
        law_get_after_remove(tail, k, other);
        if es[0].0 == k {
            assert forall|j: int| 0 <= j < tail.len() implies tail[j].0 != k by {
                assert(tail[j] == es[j + 1]);
            }
            lemma_lookup_skip(tail, k, tail.len() as int);
            assert(tail.skip(tail.len() as int) =~= Seq::<(Seq<char>, W)>::empty());
        } else {
            assert((seq![es[0]] + remove_spec(tail, k)).drop_first() =~= remove_spec(tail, k));
        }
    }
}

/// Storing under a key and then removing it leaves the map as removing it
/// alone would.
pub proof fn law_remove_after_insert<W>(es: Seq<(Seq<char>, W)>, k: Seq<char>, v: W)
    requires
        keys_distinct(es),
    ensures
        remove_spec(insert_spec(es, k, v), k) == remove_spec(es, k),
    decreases es.len(),
{
    if es.len() > 0 {
        let tail = es.drop_first();
        assert(keys_distinct(tail)) by {
            assert forall|i: int, j: int| 0 <= i < j < tail.len() implies tail[i].0 != tail[j].0 by {
                assert(tail[i] == es[i + 1] && tail[j] == es[j + 1]);
            }
        }
        if es[0].0 == k {
            assert((seq![(k, v)] + tail).drop_first() =~= tail);
        } else {
            law_remove_after_insert(tail, k, v);
            let ins = seq![es[0]] + insert_spec(tail, k, v);
            assert(ins.drop_first() =~= insert_spec(tail, k, v));
            assert(ins[0] == es[0]);
        }
    }
}

/// Dropping the entries whose key begins with `c` leaves the value of any
/// key that does not.
pub proof fn lemma_lookup_drop_prefixed<W>(es: Seq<(Seq<char>, W)>, c: char, k: Seq<char>)
    requires
        !key_starts_with(k, c),
    ensures
        lookup(drop_prefixed(es, c), k) == lookup(es, k),
    decreases es.len(),
{
    if es.len() > 0 {
        lemma_lookup_drop_prefixed(es.drop_first(), c, k);
        let rest = drop_prefixed(es.drop_first(), c);
        if !key_starts_with(es[0].0, c) {
            assert((seq![es[0]] + rest).drop_first() =~= rest);
        }
    }
}

/// A map from strings to values that keeps its entries in insertion order;
/// inserting under a key that is present replaces the value in place.
pub struct StringMap<V> {
    entries: Vec<(String, V)>,
}

impl<V: View> View for StringMap<V> {
    type V = Seq<(Seq<char>, V::V)>;

    closed spec fn view(&self) -> Seq<(Seq<char>, V::V)> {
        self.entries@.map_values(|e: (String, V)| (e.0@, e.1@))
    }
}

impl<V> StringMap<V> {
    #[verifier::type_invariant]
    closed spec fn distinct_keys(&self) -> bool {
        forall|i: int, j: int|
            0 <= i < j < self.entries@.len() ==> #[trigger] self.entries@[i].0@
                != #[trigger] self.entries@[j].0@
    }
}

impl<V: View> StringMap<V> {

    /// The value stored under `k`, if any.
    pub open spec fn spec_get(&self, k: Seq<char>) -> Option<V::V> {
        lookup(self@, k)
    }

    /// Brings into the proof that the keys of the map are pairwise distinct;
    /// it does nothing at run time.
    pub fn witness_keys_distinct(&self)
        ensures
            keys_distinct(self@),
    {
        proof {
            use_type_invariant(self);
        }
        assert forall|i: int, j: int| 0 <= i < j < self@.len() implies self@[i].0 != self@[j].0 by {
            assert(self@[i].0 == self.entries@[i].0@);
            assert(self@[j].0 == self.entries@[j].0@);
        }
    }

    /// An empty map.
    pub fn new() -> (m: Self)
        ensures
            m@ == Seq::<(Seq<char>, V::V)>::empty(),
    {
        let m = StringMap { entries: Vec::new() };
        assert(m@ =~= Seq::<(Seq<char>, V::V)>::empty());
        m
    }

    /// The number of entries.
    pub fn len(&self) -> (n: usize)
        ensures
            n == self@.len(),
    {
        self.entries.len()
    }

    /// Whether the map has no entry.
    pub fn is_empty(&self) -> (b: bool)
        ensures
            b == (self@.len() == 0),
    {
        self.entries.len() == 0
    }

    /// The key of the `i`-th entry.
    pub fn key_at(&self, i: usize) -> (k: &String)
        requires
            i < self@.len(),
        ensures
            k@ == self@[i as int].0,
    {
        &self.entries[i].0
    }

    /// The value of the `i`-th entry.
    pub fn value_at(&self, i: usize) -> (v: &V)
        requires
            i < self@.len(),
        ensures
            v@ == self@[i as int].1,
    {
        &self.entries[i].1
    }

    /// The index of the entry for `key`, if there is one.
    fn position(&self, key: &str) -> (r: Option<usize>)
        ensures
            match r {
                Some(i) => i < self@.len() && self@[i as int].0 == key@ && forall|j: int|
                    0 <= j < i ==> self@[j].0 != key@,
                None => forall|j: int| 0 <= j < self@.len() ==> self@[j].0 != key@,
            },
    {
        let mut i: usize = 0;
        while i < self.entries.len()
            invariant
                i <= self@.len(),
                self@.len() == self.entries@.len(),
                forall|j: int| 0 <= j < i ==> self@[j].0 != key@,
            decreases self.entries.len() - i,
        {
            if str_eq(self.entries[i].0.as_str(), key) {
                return Some(i);
            }
            i = i + 1;
        }
        None
    }

    /// Whether `key` has an entry.
    pub fn contains_key(&self, key: &str) -> (b: bool)
        ensures
            b == (self.spec_get(key@) is Some),
    {
        match self.position(key) {
            Some(i) => {
                proof {
                    lemma_lookup_skip(self@, key@, i as int);
                }
                true
            },
            None => {
                proof {
                    lemma_lookup_skip(self@, key@, self@.len() as int);
                }
                false
            },
        }
    }

    /// The value stored under `key`, if any.
    pub fn get(&self, key: &str) -> (r: Option<&V>)
        ensures
            match r {
                Some(v) => self.spec_get(key@) == Some(v@),
                None => self.spec_get(key@) is None,
            },
    {
        match self.position(key) {
            Some(i) => {
                proof {
                    lemma_lookup_skip(self@, key@, i as int);
                }
                Some(&self.entries[i].1)
            },
            None => {
                proof {
                    lemma_lookup_skip(self@, key@, self@.len() as int);
                }
                None
            },
        }
    }

    /// Stores `value` under `key`: in place when `key` is present, else as a
    /// new last entry.
    pub fn insert(&mut self, key: String, value: V)
        ensures
            final(self)@ == insert_spec(old(self)@, key@, value@),
    {
        proof {
            use_type_invariant(&*self);
        }
        let ghost es = self@;
        let ghost k = key@;
        let ghost v = value@;
        match self.position(key.as_str()) {
            Some(i) => {
                proof {
                    lemma_insert_skip(es, k, v, i as int);
                    assert(es.skip(i as int).drop_first() =~= es.skip(i + 1));
                }
                let mut entries: Vec<(String, V)> = Vec::new();
                std::mem::swap(&mut entries, &mut self.entries);
                entries.set(i, (key, value));
                assert(entries@.map_values(|e: (String, V)| (e.0@, e.1@)) =~= insert_spec(es, k, v));
                self.entries = entries;
            },
            None => {
                proof {
                    lemma_insert_skip(es, k, v, es.len() as int);
                    assert(es.skip(es.len() as int) =~= Seq::<(Seq<char>, V::V)>::empty());
                    assert(es.take(es.len() as int) =~= es);
                }
                let mut entries: Vec<(String, V)> = Vec::new();
                std::mem::swap(&mut entries, &mut self.entries);
                assert(forall|j: int| 0 <= j < es.len() ==> #[trigger] entries@[j].0@ == es[j].0);
                entries.push((key, value));
                assert(entries@.map_values(|e: (String, V)| (e.0@, e.1@)) =~= insert_spec(es, k, v));
                self.entries = entries;
            },
        }
    }

    /// Removes the entry for `key` and returns its value.
    pub fn remove(&mut self, key: &str) -> (r: Option<V>)
        ensures
            final(self)@ == remove_spec(old(self)@, key@),
            match r {
                Some(v) => old(self).spec_get(key@) == Some(v@),
                None => old(self).spec_get(key@) is None,
            },
    {
        proof {
            use_type_invariant(&*self);
        }
        let ghost es = self@;
        let ghost k = key@;
        match self.position(key) {
            Some(i) => {
                proof {
                    lemma_remove_skip(es, k, i as int);
                    lemma_lookup_skip(es, k, i as int);
                    assert(es.skip(i as int).drop_first() =~= es.skip(i + 1));
                }
                let mut entries: Vec<(String, V)> = Vec::new();
                std::mem::swap(&mut entries, &mut self.entries);
                let (_, v) = entries.remove(i);
                assert(entries@.map_values(|e: (String, V)| (e.0@, e.1@)) =~= remove_spec(es, k));
                self.entries = entries;
                Some(v)
            },
            None => {
                proof {
                    lemma_remove_skip(es, k, es.len() as int);
                    lemma_lookup_skip(es, k, es.len() as int);
                    assert(es.skip(es.len() as int) =~= Seq::<(Seq<char>, V::V)>::empty());
                    assert(es.take(es.len() as int) =~= es);
                }
                None
            },
        }
    }
}


impl<V: View> StringMap<V> {
    /// Drops the entries whose key begins with `c`; the others keep their
    /// order.
    pub fn retain_unprefixed(&mut self, c: char)
        ensures
            final(self)@ == drop_prefixed(old(self)@, c),
    {
        proof {
            use_type_invariant(&*self);
        }
        let ghost es = self@;
        let mut old_entries: Vec<(String, V)> = Vec::new();
        std::mem::swap(&mut old_entries, &mut self.entries);
        let mut kept: Vec<(String, V)> = Vec::new();
        let mut rest = old_entries;
        let total = rest.len();
        assert(total == es.len());
        assert(forall|j: int| 0 <= j < rest@.len() ==> (#[trigger] rest@[j]).0@ == es[j].0
            && rest@[j].1@ == es[j].1);
        let mut i: usize = 0;
        assert(es.skip(0) =~= es);
        assert(kept@.map_values(|e: (String, V)| (e.0@, e.1@)) =~= Seq::<(Seq<char>, V::V)>::empty());
        while rest.len() > 0
            invariant
                i + rest@.len() == es.len(),
                i <= es.len(),
                es.len() <= usize::MAX,
                forall|j: int| 0 <= j < rest@.len() ==> (#[trigger] rest@[j]).0@ == es[i + j].0
                    && rest@[j].1@ == es[i + j].1,
                drop_prefixed(es, c) == kept@.map_values(|e: (String, V)| (e.0@, e.1@))
                    + drop_prefixed(es.skip(i as int), c),
                keys_distinct(es),
                forall|a: int, b: int|
                    0 <= a < b < kept@.len() ==> #[trigger] kept@[a].0@ != #[trigger] kept@[b].0@,
                forall|a: int|
                    0 <= a < kept@.len() ==> exists|j: int| 0 <= j < i && #[trigger] kept@[a].0@ == es[j].0,
            decreases rest@.len(),
        {
            let ghost tail = es.skip(i as int);
            assert(tail.drop_first() =~= es.skip(i + 1));
            let e = rest.remove(0);
            let starts = crate::text::starts_with_char(e.0.as_str(), c);
            if !starts {
                let ghost prev = kept@.map_values(|e: (String, V)| (e.0@, e.1@));
                assert forall|a: int| 0 <= a < kept@.len() implies kept@[a].0@ != e.0@ by {
                    let j = choose|j: int| 0 <= j < i && kept@[a].0@ == es[j].0;
                    assert(es[j].0 != es[i as int].0);
                }
                kept.push(e);
                assert(kept@.map_values(|e: (String, V)| (e.0@, e.1@)) =~= prev + seq![tail[0]]);
                assert forall|a: int| 0 <= a < kept@.len() implies exists|j: int|
                    0 <= j < i + 1 && #[trigger] kept@[a].0@ == es[j].0 by {
                    if a < kept@.len() - 1 {
                        let j = choose|j: int| 0 <= j < i && kept@[a].0@ == es[j].0;
                        assert(kept@[a].0@ == es[j].0);
                    } else {
                        assert(kept@[a].0@ == es[i as int].0);
                    }
                }
            } else {
                assert forall|a: int| 0 <= a < kept@.len() implies exists|j: int|
                    0 <= j < i + 1 && #[trigger] kept@[a].0@ == es[j].0 by {
                    let j = choose|j: int| 0 <= j < i && kept@[a].0@ == es[j].0;
                    assert(kept@[a].0@ == es[j].0);
                }
            }
            i = i + 1;
        }
        assert(es.skip(i as int) =~= Seq::<(Seq<char>, V::V)>::empty());
        assert(kept@.map_values(|e: (String, V)| (e.0@, e.1@)) + drop_prefixed(
            es.skip(i as int),
            c,
        ) =~= kept@.map_values(|e: (String, V)| (e.0@, e.1@)));
        self.entries = kept;
    }
}

impl StringMap<String> {
    /// A copy of the map.
    pub fn duplicate(&self) -> (r: Self)
        ensures
            r@ == self@,
    {
        proof {
            use_type_invariant(self);
        }
        let mut entries: Vec<(String, String)> = Vec::new();
        let mut i: usize = 0;
        while i < self.entries.len()
            invariant
                i <= self.entries@.len(),
                entries@.len() == i,
                forall|j: int| 0 <= j < i ==> (#[trigger] entries@[j]).0@ == self.entries@[j].0@
                    && entries@[j].1@ == self.entries@[j].1@,
                forall|a: int, b: int|
                    0 <= a < b < self.entries@.len() ==> #[trigger] self.entries@[a].0@
                        != #[trigger] self.entries@[b].0@,
            decreases self.entries.len() - i,
        {
            let k = self.entries[i].0.clone();
            let v = self.entries[i].1.clone();
            entries.push((k, v));
            i = i + 1;
        }
        let r = StringMap { entries };
        assert(r@ =~= self@);
        r
    }
}


/// The entries of `es` whose flag is false, order kept.
pub open spec fn kept_entries<W>(es: Seq<(Seq<char>, W)>, flags: Seq<bool>) -> Seq<(Seq<char>, W)>
    decreases es.len(),
{
    if es.len() == 0 {
        es
    } else {
        let rest = kept_entries(es.drop_first(), flags.drop_first());
        if flags.len() > 0 && flags[0] {
            rest
        } else {
            seq![es[0]] + rest
        }
    }
}

/// The entries of `es` whose flag is true, order kept.
pub open spec fn taken_entries<W>(es: Seq<(Seq<char>, W)>, flags: Seq<bool>) -> Seq<(Seq<char>, W)>
    decreases es.len(),
{
    if es.len() == 0 {
        es
    } else {
        let rest = taken_entries(es.drop_first(), flags.drop_first());
        if flags.len() > 0 && flags[0] {
            seq![es[0]] + rest
        } else {
            rest
        }
    }
}

impl<V: View> StringMap<V> {
    /// Removes the entries whose flag (by position) is true and returns them
    /// in order; the other entries stay, in order.
    pub fn take_flagged(&mut self, flags: &Vec<bool>) -> (taken: Vec<(String, V)>)
        requires
            flags@.len() == old(self)@.len(),
        ensures
            final(self)@ == kept_entries(old(self)@, flags@),
            taken@.map_values(|e: (String, V)| (e.0@, e.1@)) == taken_entries(old(self)@, flags@),
    {
        proof {
            use_type_invariant(&*self);
        }
        let ghost es = self@;
        let mut rest: Vec<(String, V)> = Vec::new();
        std::mem::swap(&mut rest, &mut self.entries);
        let total = rest.len();
        let mut kept: Vec<(String, V)> = Vec::new();
        let mut taken: Vec<(String, V)> = Vec::new();
        let mut i: usize = 0;
        assert(es.skip(0) =~= es);
        assert(flags@.skip(0) =~= flags@);
        assert(forall|j: int| 0 <= j < rest@.len() ==> (#[trigger] rest@[j]).0@ == es[j].0
            && rest@[j].1@ == es[j].1);
        while rest.len() > 0
            invariant
                total == es.len(),
                flags@.len() == es.len(),
                i + rest@.len() == es.len(),
                i <= es.len(),
                forall|j: int| 0 <= j < rest@.len() ==> (#[trigger] rest@[j]).0@ == es[i + j].0
                    && rest@[j].1@ == es[i + j].1,
                kept_entries(es, flags@) == kept@.map_values(|e: (String, V)| (e.0@, e.1@))
                    + kept_entries(es.skip(i as int), flags@.skip(i as int)),
                taken_entries(es, flags@) == taken@.map_values(|e: (String, V)| (e.0@, e.1@))
                    + taken_entries(es.skip(i as int), flags@.skip(i as int)),
                keys_distinct(es),
                forall|a: int, b: int|
                    0 <= a < b < kept@.len() ==> #[trigger] kept@[a].0@ != #[trigger] kept@[b].0@,
                forall|a: int|
                    0 <= a < kept@.len() ==> exists|j: int| 0 <= j < i && #[trigger] kept@[a].0@ == es[j].0,
            decreases rest@.len(),
        {
            let ghost tail = es.skip(i as int);
            assert(tail.drop_first() =~= es.skip(i + 1));
            assert(flags@.skip(i as int).drop_first() =~= flags@.skip(i + 1));
            assert(flags@.skip(i as int)[0] == flags@[i as int]);
            let e = rest.remove(0);
            if flags[i] {
                let ghost prev = taken@.map_values(|e: (String, V)| (e.0@, e.1@));
                taken.push(e);
                assert(taken@.map_values(|e: (String, V)| (e.0@, e.1@)) =~= prev + seq![tail[0]]);
                assert forall|a: int| 0 <= a < kept@.len() implies exists|j: int|
                    0 <= j < i + 1 && #[trigger] kept@[a].0@ == es[j].0 by {
                    let j = choose|j: int| 0 <= j < i && kept@[a].0@ == es[j].0;
                    assert(kept@[a].0@ == es[j].0);
                }
            } else {
                let ghost prev = kept@.map_values(|e: (String, V)| (e.0@, e.1@));
                assert forall|a: int| 0 <= a < kept@.len() implies kept@[a].0@ != e.0@ by {
                    let j = choose|j: int| 0 <= j < i && kept@[a].0@ == es[j].0;
                    assert(es[j].0 != es[i as int].0);
                }
                kept.push(e);
                assert(kept@.map_values(|e: (String, V)| (e.0@, e.1@)) =~= prev + seq![tail[0]]);
                assert forall|a: int| 0 <= a < kept@.len() implies exists|j: int|
                    0 <= j < i + 1 && #[trigger] kept@[a].0@ == es[j].0 by {
                    if a < kept@.len() - 1 {
                        let j = choose|j: int| 0 <= j < i && kept@[a].0@ == es[j].0;
                        assert(kept@[a].0@ == es[j].0);
                    } else {
                        assert(kept@[a].0@ == es[i as int].0);
                    }
                }
            }
            i = i + 1;
        }
        assert(es.skip(i as int) =~= Seq::<(Seq<char>, V::V)>::empty());
        assert(kept@.map_values(|e: (String, V)| (e.0@, e.1@)) + kept_entries(
            es.skip(i as int),
            flags@.skip(i as int),
        ) =~= kept@.map_values(|e: (String, V)| (e.0@, e.1@)));
        assert(taken@.map_values(|e: (String, V)| (e.0@, e.1@)) + taken_entries(
            es.skip(i as int),
            flags@.skip(i as int),
        ) =~= taken@.map_values(|e: (String, V)| (e.0@, e.1@)));
        self.entries = kept;
        taken
    }
}

} // verus!
