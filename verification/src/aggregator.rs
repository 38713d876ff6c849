//! The state-hash aggregator: a map from the unique key of a table to the
//! root hash of that table, kept in ascending order of key, so that what is
//! hashed depends on the map alone and not on the order in which it was
//! filled.

use crate::crypto;
use crate::crypto::{
    digest, hash_lt, lemma_hash_lt_irreflexive, lemma_hash_lt_total, lemma_hash_lt_transitive,
};
use crate::encoding::{append_bytes, encode_u16, le_bytes};
use crate::table::{
    entries_map, has_key, key_index, keys_distinct, lemma_entries_count, lemma_entries_empty,
    lemma_entries_insert, lemma_entries_remove, lemma_entries_update, lemma_entry_at, Record,
};
use vstd::prelude::*;

verus! {

/// Largest number of tables that one service can report: the index of a
/// table must fit in two bytes.
pub const MAX_TABLES: usize = 65536;

/// The key under which the root hash of table `table_idx` of service
/// `service_id` is aggregated: the hash of the two numbers, each as two
/// bytes, low byte first.
pub open spec fn unique_key(service_id: u16, table_idx: nat) -> crypto::Hash {
    digest(le_bytes(service_id as nat, 2) + le_bytes(table_idx, 2))
}

/// Maps the coordinates of a service table to its key in the aggregator.
pub fn table_unique_key(service_id: u16, table_idx: usize) -> (r: crypto::Hash)
    requires
        table_idx <= u16::MAX,
    ensures
        r == unique_key(service_id, table_idx as nat),
{
    let mut bytes: Vec<u8> = Vec::new();
    let id = encode_u16(service_id);
    append_bytes(&mut bytes, id.as_slice());
    let idx = encode_u16(table_idx as u16);
    append_bytes(&mut bytes, idx.as_slice());
    crypto::hash(bytes.as_slice())
}

/// The entries that a service with the root hashes `roots` contributes.
pub open spec fn table_entries(service_id: u16, roots: Seq<crypto::Hash>) -> Seq<
    (crypto::Hash, crypto::Hash),
> {
    Seq::new(roots.len(), |i: int| (unique_key(service_id, i as nat), roots[i]))
}

/// The map after putting `entries` into `m`, one after the other.
pub open spec fn put_all(
    m: Map<crypto::Hash, crypto::Hash>,
    entries: Seq<(crypto::Hash, crypto::Hash)>,
) -> Map<crypto::Hash, crypto::Hash>
    decreases entries.len(),
{
    if entries.len() == 0 {
        m
    } else {
        put_all(m, entries.drop_last()).insert(entries.last().0, entries.last().1)
    }
}

/// The map after the root hashes of the tables of each service were put
/// into `m`, service after service: `ids` holds the identifiers of the
/// services and `roots` the root hashes that each reported.
pub open spec fn put_services(
    m: Map<crypto::Hash, crypto::Hash>,
    ids: Seq<u16>,
    roots: Seq<Seq<crypto::Hash>>,
) -> Map<crypto::Hash, crypto::Hash>
    decreases ids.len(),
{
    if ids.len() == 0 {
        m
    } else {
        put_all(
            put_services(m, ids.drop_last(), roots.drop_last()),
            table_entries(ids.last(), roots.last()),
        )
    }
}

/// The keys of `s` ascend strictly.
pub open spec fn keys_sorted(s: Seq<(crypto::Hash, crypto::Hash)>) -> bool {
    forall|i: int, j: int|
        0 <= i < j < s.len() ==> hash_lt((#[trigger] s[i]).0, (#[trigger] s[j]).0)
}

/// Keys that ascend strictly are distinct.
pub proof fn lemma_sorted_distinct(s: Seq<(crypto::Hash, crypto::Hash)>)
    requires
        keys_sorted(s),
    ensures
        keys_distinct(s),
{
    assert forall|i: int, j: int| 0 <= i < j < s.len() implies (#[trigger] s[i]).0 != (
    #[trigger] s[j]).0 by {
        assert(hash_lt(s[i].0, s[j].0));
        lemma_hash_lt_irreflexive(s[i].0);
    }
}

/// Two sequences in ascending order of key that stand for the same map are
/// the same sequence.
pub proof fn lemma_sorted_entries_unique(
    a: Seq<(crypto::Hash, crypto::Hash)>,
    b: Seq<(crypto::Hash, crypto::Hash)>,
)
    requires
        keys_sorted(a),
        keys_sorted(b),
        entries_map(a) == entries_map(b),
    ensures
        a == b,
    decreases a.len(),
{
    lemma_sorted_distinct(a);
    lemma_sorted_distinct(b);
    lemma_entries_count(a);
    lemma_entries_count(b);
    assert(a.len() == b.len());
    if a.len() == 0 {
        assert(a =~= b);
    } else {
        let n = a.len() - 1;
        lemma_entry_at(a, n);
        lemma_entry_at(b, n);
        // The last key of each is the largest key of the map.
        let j = key_index(b, a[n].0);
        assert(has_key(b, a[n].0));
        assert(b[j].0 == a[n].0);
        let i = key_index(a, b[n].0);
        assert(has_key(a, b[n].0));
        assert(a[i].0 == b[n].0);
        if j < n && i < n {
            assert(hash_lt(b[j].0, b[n].0));
            assert(hash_lt(a[i].0, a[n].0));
            lemma_hash_lt_total(a[n].0, b[n].0);
        }
        if j < n {
            assert(i == n);
        }
        assert(a[n].0 == b[n].0);
        assert(a[n].1 == b[n].1);
        lemma_entries_remove(a, n);
        lemma_entries_remove(b, n);
        assert(a.remove(n) =~= a.drop_last());
        assert(b.remove(n) =~= b.drop_last());
        assert(keys_sorted(a.drop_last())) by {
            assert forall|x: int, y: int| 0 <= x < y < a.drop_last().len() implies hash_lt(
                (#[trigger] a.drop_last()[x]).0,
                (#[trigger] a.drop_last()[y]).0,
            ) by {
                assert(hash_lt(a[x].0, a[y].0));
            }
        }
        assert(keys_sorted(b.drop_last())) by {
            assert forall|x: int, y: int| 0 <= x < y < b.drop_last().len() implies hash_lt(
                (#[trigger] b.drop_last()[x]).0,
                (#[trigger] b.drop_last()[y]).0,
            ) by {
                assert(hash_lt(b[x].0, b[y].0));
            }
        }
        lemma_sorted_entries_unique(a.drop_last(), b.drop_last());
        assert(a =~= a.drop_last().push(a[n]));
        assert(b =~= b.drop_last().push(b[n]));
    }
}

/// The merkleized map from table keys to root hashes.
pub struct Aggregator {
    entries: Vec<(crypto::Hash, crypto::Hash)>,
}

impl View for Aggregator {
    type V = Map<crypto::Hash, crypto::Hash>;

    closed spec fn view(&self) -> Map<crypto::Hash, crypto::Hash> {
        entries_map(self.entries@)
    }
}

impl Aggregator {
    /// The keys of the entries ascend strictly.
    #[verifier::type_invariant]
    pub closed spec fn wf(&self) -> bool {
        keys_sorted(self.entries@)
    }

    /// The entries in ascending order of key: the form in which the map is
    /// handed to the function that computes its root hash.
    pub closed spec fn entries(&self) -> Seq<(crypto::Hash, crypto::Hash)> {
        self.entries@
    }

    /// An aggregator without entries.
    pub fn new() -> (r: Self)
        ensures
            r@ == Map::<crypto::Hash, crypto::Hash>::empty(),
            r.entries() == Seq::<(crypto::Hash, crypto::Hash)>::empty(),
    {
        let entries: Vec<(crypto::Hash, crypto::Hash)> = Vec::new();
        proof {
            lemma_entries_empty(entries@);
        }
        Aggregator { entries }
    }

    /// The number of entries.
    pub fn len(&self) -> (r: usize)
        ensures
            r == self.entries().len(),
    {
        self.entries.len()
    }

    /// Returns the root hash stored under `key`, if there is one.
    pub fn get(&self, key: &crypto::Hash) -> (r: Option<crypto::Hash>)
        ensures
            r is Some == self@.contains_key(*key),
            r matches Some(v) ==> v == self@[*key],
    {
        proof {
            use_type_invariant(self);
            lemma_sorted_distinct(self.entries@);
        }
        let mut i: usize = 0;
        while i < self.entries.len()
            invariant
                0 <= i <= self.entries@.len(),
                keys_distinct(self.entries@),
                forall|j: int| 0 <= j < i ==> (#[trigger] self.entries@[j]).0 != *key,
            decreases self.entries@.len() - i,
        {
            if self.entries[i].0.same(key) {
                proof {
                    lemma_entry_at(self.entries@, i as int);
                }
                return Some(self.entries[i].1);
            }
            i += 1;
        }
        None
    }

    /// Stores `root` under `key`, in place of what was there.
    pub fn put(&mut self, key: crypto::Hash, root: crypto::Hash)
        ensures
            final(self)@ == old(self)@.insert(key, root),
    {
        proof {
            use_type_invariant(&*self);
            lemma_sorted_distinct(self.entries@);
        }
        let mut p: usize = 0;
        while p < self.entries.len() && self.entries[p].0.less_than(&key)
            invariant
                0 <= p <= self.entries@.len(),
                forall|j: int| 0 <= j < p ==> hash_lt((#[trigger] self.entries@[j]).0, key),
            decreases self.entries@.len() - p,
        {
            p += 1;
        }
        let found = p < self.entries.len() && self.entries[p].0.same(&key);
        let mut entries: Vec<(crypto::Hash, crypto::Hash)> = Vec::new();
        core::mem::swap(&mut self.entries, &mut entries);
        let ghost before = entries@;
        if found {
            proof {
                lemma_entries_update(before, p as int, root);
                let after = before.update(p as int, (key, root));
                assert forall|x: int, y: int| 0 <= x < y < after.len() implies hash_lt(
                    (#[trigger] after[x]).0,
                    (#[trigger] after[y]).0,
                ) by {
                    assert(hash_lt(before[x].0, before[y].0));
                }
            }
            entries.set(p, (key, root));
        } else {
            proof {
                let after = before.insert(p as int, (key, root));
                assert forall|j: int| p <= j < before.len() implies hash_lt(
                    key,
                    (#[trigger] before[j]).0,
                ) by {
                    lemma_hash_lt_total(before[p as int].0, key);
                    if j > p {
                        assert(hash_lt(before[p as int].0, before[j].0));
                        lemma_hash_lt_transitive(key, before[p as int].0, before[j].0);
                    }
                }
                assert(!has_key(before, key)) by {
                    if has_key(before, key) {
                        let j = key_index(before, key);
                        lemma_hash_lt_irreflexive(key);
                        if j < p {
                            assert(hash_lt(before[j].0, key));
                        } else {
                            assert(hash_lt(key, before[j].0));
                        }
                    }
                }
                lemma_entries_insert(before, p as int, key, root);
                assert forall|x: int, y: int| 0 <= x < y < after.len() implies hash_lt(
                    (#[trigger] after[x]).0,
                    (#[trigger] after[y]).0,
                ) by {
                    let x0 = if x < p { x } else { x - 1 };
                    let y0 = if y < p { y } else { y - 1 };
                    if x == p {
                        assert(hash_lt(key, before[y0].0));
                    } else if y == p {
                        assert(hash_lt(before[x0].0, key));
                    } else {
                        assert(hash_lt(before[x0].0, before[y0].0));
                    }
                }
            }
            entries.insert(p, (key, root));
        }
        core::mem::swap(&mut self.entries, &mut entries);
    }

    /// Puts the root hashes of the tables of one service under their keys.
    pub fn put_table_roots(&mut self, service_id: u16, roots: &Vec<crypto::Hash>)
        requires
            roots@.len() <= MAX_TABLES,
        ensures
            final(self)@ == put_all(old(self)@, table_entries(service_id, roots@)),
    {
        let ghost all = table_entries(service_id, roots@);
        let mut idx: usize = 0;
        assert(all.subrange(0, 0) =~= Seq::<(crypto::Hash, crypto::Hash)>::empty());
        while idx < roots.len()
            invariant
                0 <= idx <= roots@.len(),
                roots@.len() <= MAX_TABLES,
                all == table_entries(service_id, roots@),
                self@ == put_all(old(self)@, all.subrange(0, idx as int)),
            decreases roots@.len() - idx,
        {
            let key = table_unique_key(service_id, idx);
            self.put(key, roots[idx]);
            proof {
                let next = all.subrange(0, idx + 1);
                assert(next.drop_last() =~= all.subrange(0, idx as int));
                assert(next.last() == (key, roots@[idx as int]));
            }
            idx += 1;
        }
        assert(all.subrange(0, roots@.len() as int) =~= all);
    }

    /// The entries in ascending order of key.
    pub fn to_vec(&self) -> (r: &Vec<(crypto::Hash, crypto::Hash)>)
        ensures
            r@ == self.entries(),
    {
        &self.entries
    }

    /// Returns an aggregator with the same entries.
    pub fn duplicate_aggregator(&self) -> (r: Self)
        ensures
            r@ == self@,
            r.entries() == self.entries(),
    {
        proof {
            use_type_invariant(self);
        }
        let mut entries: Vec<(crypto::Hash, crypto::Hash)> = Vec::new();
        let mut i: usize = 0;
        while i < self.entries.len()
            invariant
                0 <= i <= self.entries@.len(),
                entries@ == self.entries@.subrange(0, i as int),
            decreases self.entries@.len() - i,
        {
            entries.push(self.entries[i]);
            i += 1;
        }
        assert(self.entries@.subrange(0, self.entries@.len() as int) == self.entries@);
        Aggregator { entries }
    }
}

impl Record for Aggregator {
    fn duplicate(&self) -> (r: Self) {
        self.duplicate_aggregator()
    }
}

} // verus!
