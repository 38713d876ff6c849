//! Keyed tables and lists: the typed collections that the schema is made of.
//!
//! A table keeps its entries in a vector in which no key occurs twice; its
//! view is the map from keys to the views of the values.

use crate::crypto;
use crate::crypto::PublicKey;
use crate::helpers::Height;
use vstd::prelude::*;

verus! {

/// A key of a table: a plain value that can be compared at run time.
pub trait Key: Copy {
    /// Tells whether two keys are equal.
    fn same_key(&self, other: &Self) -> (r: bool)
        ensures
            r == (*self == *other),
    ;
}

/// A value of a table or list: it has a view and can be copied deeply.
pub trait Record: View + Sized {
    /// Returns a value with the same view.
    fn duplicate(&self) -> (r: Self)
        ensures
            r@ == self@,
    ;
}

impl Key for crypto::Hash {
    fn same_key(&self, other: &Self) -> (r: bool) {
        self.same(other)
    }
}

impl Key for PublicKey {
    fn same_key(&self, other: &Self) -> (r: bool) {
        self.same(other)
    }
}

impl Key for Height {
    fn same_key(&self, other: &Self) -> (r: bool) {
        self.0 == other.0
    }
}

impl Record for crypto::Hash {
    fn duplicate(&self) -> (r: Self) {
        *self
    }
}

impl Record for Vec<u8> {
    fn duplicate(&self) -> (r: Self) {
        let mut out: Vec<u8> = Vec::new();
        let mut i: usize = 0;
        while i < self.len()
            invariant
                0 <= i <= self@.len(),
                out@ == self@.subrange(0, i as int),
            decreases self@.len() - i,
        {
            out.push(self[i]);
            i += 1;
        }
        assert(self@.subrange(0, self@.len() as int) == self@);
        out
    }
}

/// No key occurs at two positions of `s`.
pub open spec fn keys_distinct<K, V>(s: Seq<(K, V)>) -> bool {
    forall|i: int, j: int| 0 <= i < j < s.len() ==> (#[trigger] s[i]).0 != (#[trigger] s[j]).0
}

/// Some entry of `s` has the key `k`.
pub open spec fn has_key<K, V>(s: Seq<(K, V)>, k: K) -> bool {
    exists|i: int| 0 <= i < s.len() && (#[trigger] s[i]).0 == k
}

/// A position of `s` that holds the key `k`, if there is one.
pub open spec fn key_index<K, V>(s: Seq<(K, V)>, k: K) -> int {
    choose|i: int| 0 <= i < s.len() && (#[trigger] s[i]).0 == k
}

/// The map that the entries of `s` stand for.
pub open spec fn entries_map<K, V: View>(s: Seq<(K, V)>) -> Map<K, V::V> {
    Map::new(|k: K| has_key(s, k), |k: K| s[key_index(s, k)].1@)
}

/// With distinct keys, the entry at position `i` is what the map holds
/// under its key.
pub proof fn lemma_entry_at<K, V: View>(s: Seq<(K, V)>, i: int)
    requires
        keys_distinct(s),
        0 <= i < s.len(),
    ensures
        entries_map(s).contains_key(s[i].0),
        entries_map(s)[s[i].0] == s[i].1@,
        key_index(s, s[i].0) == i,
{
    let k = s[i].0;
    assert(has_key(s, k));
    let j = key_index(s, k);
    assert(s[j].0 == k);
    if j < i {
        assert(s[j].0 != s[i].0);
    } else if i < j {
        assert(s[i].0 != s[j].0);
    }
}

/// Appending an entry under a fresh key inserts it into the map.
pub proof fn lemma_entries_push<K, V: View>(s: Seq<(K, V)>, k: K, v: V)
    requires
        keys_distinct(s),
        !has_key(s, k),
    ensures
        keys_distinct(s.push((k, v))),
        entries_map(s.push((k, v))) == entries_map(s).insert(k, v@),
{
    let t = s.push((k, v));
    assert forall|i: int, j: int| 0 <= i < j < t.len() implies (#[trigger] t[i]).0 != (
    #[trigger] t[j]).0 by {
        if j < s.len() {
            assert(s[i].0 != s[j].0);
        } else {
            assert(s[i].0 != k);
        }
    }
    assert forall|x: K| entries_map(t).contains_key(x) <==> entries_map(s).insert(
        k,
        v@,
    ).contains_key(x) by {
        if has_key(t, x) {
            let i = key_index(t, x);
            if i < s.len() {
                assert(s[i].0 == x);
            }
        }
        if has_key(s, x) {
            let i = key_index(s, x);
            assert(t[i].0 == x);
        }
        if x == k {
            assert(t[s.len() as int].0 == x);
        }
    }
    assert forall|x: K| entries_map(t).contains_key(x) implies entries_map(t)[x] == entries_map(
        s,
    ).insert(k, v@)[x] by {
        let i = key_index(t, x);
        lemma_entry_at(t, i);
        if i < s.len() {
            assert(s[i].0 == x);
            lemma_entry_at(s, i);
        }
    }
    assert(entries_map(t) =~= entries_map(s).insert(k, v@));
}

/// Replacing the value at position `i` updates the map under that key.
pub proof fn lemma_entries_update<K, V: View>(s: Seq<(K, V)>, i: int, v: V)
    requires
        keys_distinct(s),
        0 <= i < s.len(),
    ensures
        keys_distinct(s.update(i, (s[i].0, v))),
        entries_map(s.update(i, (s[i].0, v))) == entries_map(s).insert(s[i].0, v@),
{
    let k = s[i].0;
    let t = s.update(i, (k, v));
    assert forall|a: int, b: int| 0 <= a < b < t.len() implies (#[trigger] t[a]).0 != (
    #[trigger] t[b]).0 by {
        assert(s[a].0 != s[b].0);
    }
    assert forall|x: K| entries_map(t).contains_key(x) <==> entries_map(s).insert(
        k,
        v@,
    ).contains_key(x) by {
        if has_key(t, x) {
            let j = key_index(t, x);
            assert(s[j].0 == x);
        }
        if has_key(s, x) {
            let j = key_index(s, x);
            assert(t[j].0 == x);
        }
        if x == k {
            assert(t[i].0 == x);
        }
    }
    assert forall|x: K| entries_map(t).contains_key(x) implies entries_map(t)[x] == entries_map(
        s,
    ).insert(k, v@)[x] by {
        let j = key_index(t, x);
        lemma_entry_at(t, j);
        assert(s[j].0 == x);
        lemma_entry_at(s, j);
    }
    assert(entries_map(t) =~= entries_map(s).insert(k, v@));
}

/// Taking the entry at position `i` out removes its key from the map.
pub proof fn lemma_entries_remove<K, V: View>(s: Seq<(K, V)>, i: int)
    requires
        keys_distinct(s),
        0 <= i < s.len(),
    ensures
        keys_distinct(s.remove(i)),
        entries_map(s.remove(i)) == entries_map(s).remove(s[i].0),
{
    let k = s[i].0;
    let t = s.remove(i);
    assert forall|a: int, b: int| 0 <= a < b < t.len() implies (#[trigger] t[a]).0 != (
    #[trigger] t[b]).0 by {
        let a0 = if a < i { a } else { a + 1 };
        let b0 = if b < i { b } else { b + 1 };
        assert(s[a0].0 != s[b0].0);
    }
    assert forall|x: K| entries_map(t).contains_key(x) <==> entries_map(s).remove(
        k,
    ).contains_key(x) by {
        if has_key(t, x) {
            let j = key_index(t, x);
            let j0 = if j < i { j } else { j + 1 };
            assert(s[j0].0 == x);
            if x == k {
                lemma_entry_at(s, j0);
                lemma_entry_at(s, i);
            }
        }
        if has_key(s, x) && x != k {
            let j = key_index(s, x);
            let j1 = if j < i { j } else { j - 1 };
            assert(t[j1].0 == x);
        }
    }
    assert forall|x: K| entries_map(t).contains_key(x) implies entries_map(t)[x] == entries_map(
        s,
    ).remove(k)[x] by {
        let j = key_index(t, x);
        lemma_entry_at(t, j);
        let j0 = if j < i { j } else { j + 1 };
        assert(s[j0].0 == x);
        lemma_entry_at(s, j0);
    }
    assert(entries_map(t) =~= entries_map(s).remove(k));
}

/// Putting an entry under a fresh key at position `p` inserts it into
/// the map.
pub proof fn lemma_entries_insert<K, V: View>(s: Seq<(K, V)>, p: int, k: K, v: V)
    requires
        keys_distinct(s),
        !has_key(s, k),
        0 <= p <= s.len(),
    ensures
        keys_distinct(s.insert(p, (k, v))),
        entries_map(s.insert(p, (k, v))) == entries_map(s).insert(k, v@),
{
    let t = s.insert(p, (k, v));
    assert forall|a: int, b: int| 0 <= a < b < t.len() implies (#[trigger] t[a]).0 != (
    #[trigger] t[b]).0 by {
        let a0 = if a < p { a } else { a - 1 };
        let b0 = if b < p { b } else { b - 1 };
        if a == p {
            assert(s[b0].0 != k);
        } else if b == p {
            assert(s[a0].0 != k);
        } else {
            assert(s[a0].0 != s[b0].0);
        }
    }
    assert forall|x: K| entries_map(t).contains_key(x) <==> entries_map(s).insert(
        k,
        v@,
    ).contains_key(x) by {
        if has_key(t, x) {
            let i = key_index(t, x);
            if i != p {
                let i0 = if i < p { i } else { i - 1 };
                assert(s[i0].0 == x);
            }
        }
        if has_key(s, x) {
            let i = key_index(s, x);
            let i1 = if i < p { i } else { i + 1 };
            assert(t[i1].0 == x);
        }
        if x == k {
            assert(t[p].0 == x);
        }
    }
    assert forall|x: K| entries_map(t).contains_key(x) implies entries_map(t)[x] == entries_map(
        s,
    ).insert(k, v@)[x] by {
        let i = key_index(t, x);
        lemma_entry_at(t, i);
        if i != p {
            let i0 = if i < p { i } else { i - 1 };
            assert(s[i0].0 == x);
            lemma_entry_at(s, i0);
        }
    }
    assert(entries_map(t) =~= entries_map(s).insert(k, v@));
}

/// With distinct keys, the map has as many keys as there are entries.
pub proof fn lemma_entries_count<K, V: View>(s: Seq<(K, V)>)
    requires
        keys_distinct(s),
    ensures
        entries_map(s).dom().finite(),
        entries_map(s).dom().len() == s.len(),
    decreases s.len(),
{
    if s.len() == 0 {
        lemma_entries_empty(s);
    } else {
        let i = s.len() - 1;
        let t = s.remove(i);
        lemma_entries_remove(s, i);
        lemma_entries_count(t);
        lemma_entry_at(s, i);
        assert(entries_map(s).dom() =~= entries_map(t).dom().insert(s[i].0));
    }
}

/// The empty sequence stands for the empty map.
pub proof fn lemma_entries_empty<K, V: View>(s: Seq<(K, V)>)
    requires
        s.len() == 0,
    ensures
        keys_distinct(s),
        entries_map(s) == Map::<K, V::V>::empty(),
{
    assert(entries_map(s) =~= Map::<K, V::V>::empty());
}

/// A table from keys to records.
pub struct Table<K: Key, V: Record> {
    entries: Vec<(K, V)>,
}

impl<K: Key, V: Record> View for Table<K, V> {
    type V = Map<K, V::V>;

    closed spec fn view(&self) -> Map<K, V::V> {
        entries_map(self.entries@)
    }
}

impl<K: Key, V: Record> Table<K, V> {
    /// No key occurs twice among the entries.
    #[verifier::type_invariant]
    pub closed spec fn wf(&self) -> bool {
        keys_distinct(self.entries@)
    }

    /// The number of entries.
    pub closed spec fn count(&self) -> nat {
        self.entries@.len()
    }

    /// A table without entries.
    pub fn new() -> (r: Self)
        ensures
            r@ == Map::<K, V::V>::empty(),
            r.count() == 0,
    {
        let entries: Vec<(K, V)> = Vec::new();
        proof {
            lemma_entries_empty(entries@);
        }
        Table { entries }
    }

    /// The position of `key` among the entries.
    fn find(&self, key: &K) -> (r: Option<usize>)
        ensures
            match r {
                Some(i) => i < self.entries@.len() && self.entries@[i as int].0 == *key,
                None => !has_key(self.entries@, *key),
            },
    {
        let mut i: usize = 0;
        while i < self.entries.len()
            invariant
                0 <= i <= self.entries@.len(),
                forall|j: int| 0 <= j < i ==> (#[trigger] self.entries@[j]).0 != *key,
            decreases self.entries@.len() - i,
        {
            if self.entries[i].0.same_key(key) {
                return Some(i);
            }
            i += 1;
        }
        None
    }

    /// The number of entries: the number of keys of the map.
    pub fn len(&self) -> (r: usize)
        ensures
            r == self.count(),
            self@.dom().finite(),
            r == self@.dom().len(),
    {
        proof {
            use_type_invariant(self);
            lemma_entries_count(self.entries@);
        }
        self.entries.len()
    }

    /// Tells whether the table holds `key`.
    pub fn contains(&self, key: &K) -> (r: bool)
        ensures
            r == self@.contains_key(*key),
    {
        self.find(key).is_some()
    }

    /// Returns a copy of the value under `key`, if there is one.
    pub fn get(&self, key: &K) -> (r: Option<V>)
        ensures
            r is Some == self@.contains_key(*key),
            r matches Some(v) ==> v@ == self@[*key],
    {
        proof {
            use_type_invariant(self);
        }
        match self.find(key) {
            Some(i) => {
                proof {
                    lemma_entry_at(self.entries@, i as int);
                }
                Some(self.entries[i].1.duplicate())
            },
            None => None,
        }
    }

    /// Stores `value` under `key`, in place of what was there.
    pub fn put(&mut self, key: K, value: V)
        ensures
            final(self)@ == old(self)@.insert(key, value@),
    {
        proof {
            use_type_invariant(&*self);
        }
        let found = self.find(&key);
        let mut entries: Vec<(K, V)> = Vec::new();
        proof {
            lemma_entries_empty(entries@);
        }
        core::mem::swap(&mut self.entries, &mut entries);
        match found {
            Some(i) => {
                proof {
                    lemma_entries_update(entries@, i as int, value);
                }
                entries.set(i, (key, value));
            },
            None => {
                proof {
                    lemma_entries_push(entries@, key, value);
                }
                entries.push((key, value));
            },
        }
        core::mem::swap(&mut self.entries, &mut entries);
    }

    /// Removes `key` and returns what was stored under it.
    pub fn remove(&mut self, key: &K) -> (r: Option<V>)
        ensures
            final(self)@ == old(self)@.remove(*key),
            r is Some == old(self)@.contains_key(*key),
            r matches Some(v) ==> v@ == old(self)@[*key],
    {
        proof {
            use_type_invariant(&*self);
        }
        match self.find(key) {
            Some(i) => {
                let mut entries: Vec<(K, V)> = Vec::new();
                proof {
                    lemma_entries_empty(entries@);
                    lemma_entry_at(self.entries@, i as int);
                    lemma_entries_remove(self.entries@, i as int);
                }
                core::mem::swap(&mut self.entries, &mut entries);
                let entry = entries.remove(i);
                core::mem::swap(&mut self.entries, &mut entries);
                Some(entry.1)
            },
            None => {
                assert(self@.remove(*key) =~= self@);
                None
            },
        }
    }

    /// Takes one entry out of the table, if it has any.
    pub fn pop(&mut self) -> (r: Option<(K, V)>)
        ensures
            match r {
                Some((k, v)) => {
                    &&& old(self)@.contains_key(k)
                    &&& old(self)@[k] == v@
                    &&& final(self)@ == old(self)@.remove(k)
                    &&& final(self).count() + 1 == old(self).count()
                },
                None => {
                    &&& old(self).count() == 0
                    &&& old(self)@ == Map::<K, V::V>::empty()
                    &&& final(self)@ == old(self)@
                },
            },
    {
        proof {
            use_type_invariant(&*self);
        }
        if self.entries.len() == 0 {
            proof {
                lemma_entries_empty(self.entries@);
            }
            return None;
        }
        let i = self.entries.len() - 1;
        let mut entries: Vec<(K, V)> = Vec::new();
        proof {
            lemma_entries_empty(entries@);
            lemma_entry_at(self.entries@, i as int);
            lemma_entries_remove(self.entries@, i as int);
        }
        core::mem::swap(&mut self.entries, &mut entries);
        let entry = entries.remove(i);
        core::mem::swap(&mut self.entries, &mut entries);
        Some(entry)
    }

    /// Returns a copy of every entry, each key once.
    pub fn to_vec(&self) -> (r: Vec<(K, V)>)
        ensures
            keys_distinct(r@),
            entries_map(r@) == self@,
            r@.len() == self.count(),
    {
        proof {
            use_type_invariant(self);
        }
        let mut out: Vec<(K, V)> = Vec::new();
        let mut i: usize = 0;
        while i < self.entries.len()
            invariant
                0 <= i <= self.entries@.len(),
                out@.len() == i,
                forall|j: int|
                    0 <= j < i ==> (#[trigger] out@[j]).0 == self.entries@[j].0 && out@[j].1@
                        == self.entries@[j].1@,
            decreases self.entries@.len() - i,
        {
            let v = self.entries[i].1.duplicate();
            out.push((self.entries[i].0, v));
            i += 1;
        }
        proof {
            lemma_same_entries(self.entries@, out@);
        }
        out
    }

    /// Returns a table with the same view.
    pub fn duplicate_table(&self) -> (r: Self)
        ensures
            r@ == self@,
            r.count() == self.count(),
    {
        let entries = self.to_vec();
        Table { entries }
    }
}

impl<K: Key, V: Record> Record for Table<K, V> {
    fn duplicate(&self) -> (r: Self) {
        self.duplicate_table()
    }
}

/// Two sequences with the same keys and the same value views, position by
/// position, stand for the same map.
pub proof fn lemma_same_entries<K, V: View>(s: Seq<(K, V)>, t: Seq<(K, V)>)
    requires
        keys_distinct(s),
        s.len() == t.len(),
        forall|j: int| 0 <= j < s.len() ==> (#[trigger] t[j]).0 == s[j].0 && t[j].1@ == s[j].1@,
    ensures
        keys_distinct(t),
        entries_map(t) == entries_map(s),
{
    assert forall|a: int, b: int| 0 <= a < b < t.len() implies (#[trigger] t[a]).0 != (
    #[trigger] t[b]).0 by {
        assert(s[a].0 != s[b].0);
    }
    assert forall|x: K| entries_map(t).contains_key(x) <==> entries_map(s).contains_key(x) by {
        if has_key(t, x) {
            let j = key_index(t, x);
            assert(s[j].0 == x);
        }
        if has_key(s, x) {
            let j = key_index(s, x);
            assert(t[j].0 == x);
        }
    }
    assert forall|x: K| entries_map(t).contains_key(x) implies entries_map(t)[x] == entries_map(
        s,
    )[x] by {
        let j = key_index(t, x);
        lemma_entry_at(t, j);
        assert(s[j].0 == x);
        lemma_entry_at(s, j);
    }
    assert(entries_map(t) =~= entries_map(s));
}

} // verus!
