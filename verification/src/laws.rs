//! What holds of the ledger as a whole, proved from the contracts of its
//! parts.

use crate::aggregator::{keys_sorted, lemma_sorted_entries_unique, put_all};
use crate::blockchain::{is_built_block, lemma_built_block};
use crate::crypto;
use crate::helpers::{Height, ValidatorId};
use crate::messages::SignedTransactionView;
use crate::schema::SchemaView;
use crate::service::{ids_ascending, ServiceEntry};
use crate::table::entries_map;
use vstd::prelude::*;
use vstd::seq_lib::to_multiset_remove;

verus! {

/// Two nodes that are given the same services hold them in the same order,
/// in whatever order each was given them: a sequence in ascending order of
/// identifier is determined by what it holds.
pub proof fn law_registry_order(a: Seq<ServiceEntry>, b: Seq<ServiceEntry>)
    requires
        ids_ascending(a),
        ids_ascending(b),
        a.to_multiset() == b.to_multiset(),
    ensures
        a == b,
    decreases a.len(),
{
    a.to_multiset_ensures();
    b.to_multiset_ensures();
    assert(a.len() == b.len());
    if a.len() == 0 {
        assert(a =~= b);
    } else {
        let n = a.len() - 1;
        assert(a.contains(a[n]));
        assert(b.contains(b[n]));
        assert(a.to_multiset().count(a[n]) > 0);
        assert(b.to_multiset().count(b[n]) > 0);
        assert(b.to_multiset().count(a[n]) > 0);
        assert(a.to_multiset().count(b[n]) > 0);
        assert(b.contains(a[n]));
        assert(a.contains(b[n]));
        let j = choose|j: int| 0 <= j < b.len() && b[j] == a[n];
        let i = choose|i: int| 0 <= i < a.len() && a[i] == b[n];
        if j < n {
            assert(b[j].id() < b[n].id());
            if i < n {
                assert(a[i].id() < a[n].id());
            }
        }
        assert(a[n] == b[n]);
        to_multiset_remove(a, n);
        to_multiset_remove(b, n);
        assert(a.remove(n) =~= a.drop_last());
        assert(b.remove(n) =~= b.drop_last());
        assert(ids_ascending(a.drop_last())) by {
            assert forall|x: int, y: int| 0 <= x < y < a.drop_last().len() implies (
            #[trigger] a.drop_last()[x]).id() < (#[trigger] a.drop_last()[y]).id() by {
                assert(a[x].id() < a[y].id());
            }
        }
        assert(ids_ascending(b.drop_last())) by {
            assert forall|x: int, y: int| 0 <= x < y < b.drop_last().len() implies (
            #[trigger] b.drop_last()[x]).id() < (#[trigger] b.drop_last()[y]).id() by {
                assert(b[x].id() < b[y].id());
            }
        }
        law_registry_order(a.drop_last(), b.drop_last());
        assert(a =~= a.drop_last().push(a[n]));
        assert(b =~= b.drop_last().push(b[n]));
    }
}

/// Result totality: after a block of the transactions `tx_hashes` was built
/// at a height at which no transaction was run before, the block holds
/// exactly these transactions in their order, and each of them has a
/// result, a location and its envelope among the transactions of the
/// blocks.
pub proof fn law_result_totality(
    s: SchemaView,
    cache: Map<crypto::Hash, SignedTransactionView>,
    ids: Seq<u16>,
    proposer_id: ValidatorId,
    height: Height,
    tx_hashes: Seq<crypto::Hash>,
    block_hash: crypto::Hash,
    t: SchemaView,
)
    requires
        s.wf(),
        s.transactions_at(height).len() == 0,
        is_built_block(s, cache, ids, proposer_id, height, tx_hashes, block_hash, t),
    ensures
        t.transactions_at(height) == tx_hashes,
        forall|i: int|
            0 <= i < tx_hashes.len() ==> t.transaction_results.contains_key(
                #[trigger] tx_hashes[i],
            ),
        forall|i: int|
            0 <= i < tx_hashes.len() ==> t.transactions_locations.contains_key(
                #[trigger] tx_hashes[i],
            ),
        forall|i: int|
            0 <= i < tx_hashes.len() ==> t.transactions.contains_key(#[trigger] tx_hashes[i]),
{
    lemma_built_block(s, cache, ids, proposer_id, height, tx_hashes, block_hash, t);
    assert(s.transactions_at(height) + tx_hashes =~= tx_hashes);
    assert forall|i: int| 0 <= i < tx_hashes.len() implies t.transaction_results.contains_key(
        #[trigger] tx_hashes[i],
    ) && t.transactions_locations.contains_key(tx_hashes[i]) && t.transactions.contains_key(
        tx_hashes[i],
    ) by {
        assert(t.is_recorded(tx_hashes[i]));
    }
}

/// Pool exclusivity: in well-formed tables no transaction both waits in the
/// pool and stands among the transactions of the blocks, and no transaction
/// of the pool is part of a block at any height.
pub proof fn law_pool_exclusivity(s: SchemaView, tx_hash: crypto::Hash)
    requires
        s.wf(),
        s.transactions_pool.contains_key(tx_hash),
    ensures
        !s.transactions.contains_key(tx_hash),
        forall|h: Height| !s.transactions_at(h).contains(tx_hash),
{
    assert forall|h: Height| !s.transactions_at(h).contains(tx_hash) by {
        if s.transactions_at(h).contains(tx_hash) {
            let i = choose|i: int|
                0 <= i < s.transactions_at(h).len() && s.transactions_at(h)[i] == tx_hash;
            assert(s.block_transactions.contains_key(h));
            assert(s.is_recorded(s.block_transactions[h][i]));
        }
    }
}

/// Committing keeps the tables well formed, so that pool exclusivity holds
/// after every commit.
pub proof fn law_commit_keeps_well_formed(
    s: SchemaView,
    block_hash: crypto::Hash,
    precommits: Seq<Seq<u8>>,
    cache: Map<crypto::Hash, SignedTransactionView>,
)
    requires
        s.wf(),
    ensures
        s.committed(block_hash, precommits, cache).wf(),
{
    let t = s.committed(block_hash, precommits, cache);
    assert forall|i: int| 0 <= i < t.block_hashes_by_height.len() implies t.blocks.contains_key(
        #[trigger] t.block_hashes_by_height[i],
    ) by {
        assert(s.blocks.contains_key(s.block_hashes_by_height[i]));
    }
    assert forall|h: Height, i: int|
        t.block_transactions.contains_key(h) && 0 <= i < t.block_transactions[h].len()
        implies t.is_recorded(#[trigger] t.block_transactions[h][i]) by {
        assert(s.is_recorded(s.block_transactions[h][i]));
    }
    assert forall|k: crypto::Hash|
        !(#[trigger] t.transactions_pool.contains_key(k) && t.transactions.contains_key(k)) by {
        assert(!(s.transactions_pool.contains_key(k) && s.transactions.contains_key(k)));
    }
}

/// Height monotonicity: building a block and committing it makes the chain
/// longer by exactly this block. The hashes of the earlier blocks stay where
/// they are, the new hash stands at the next height, and its header is
/// stored with the height that the block was built for.
pub proof fn law_height_monotonicity(
    s: SchemaView,
    cache: Map<crypto::Hash, SignedTransactionView>,
    ids: Seq<u16>,
    proposer_id: ValidatorId,
    height: Height,
    tx_hashes: Seq<crypto::Hash>,
    block_hash: crypto::Hash,
    t: SchemaView,
    precommits: Seq<Seq<u8>>,
    left: Map<crypto::Hash, SignedTransactionView>,
)
    requires
        s.wf(),
        is_built_block(s, cache, ids, proposer_id, height, tx_hashes, block_hash, t),
    ensures
        ({
            let u = t.committed(block_hash, precommits, left);
            &&& u.block_hashes_by_height == s.block_hashes_by_height.push(block_hash)
            &&& u.block_hashes_by_height.len() == s.block_hashes_by_height.len() + 1
            &&& forall|h: int|
                0 <= h < s.block_hashes_by_height.len() ==> u.block_hashes_by_height[h]
                    == s.block_hashes_by_height[h]
            &&& u.blocks.contains_key(block_hash)
            &&& u.blocks[block_hash].height == height
            &&& u.blocks[block_hash].prev_hash == s.last_hash()
            &&& u.transaction_count == (s.transaction_count + tx_hashes.len()) as u64
        }),
{
    lemma_built_block(s, cache, ids, proposer_id, height, tx_hashes, block_hash, t);
}

/// The header stored for the block at each height names that height.
pub open spec fn heights_contiguous(s: SchemaView) -> bool {
    forall|h: int|
        0 <= h < s.block_hashes_by_height.len() ==> s.blocks[#[trigger] s.block_hashes_by_height[h]].height.0
            == h
}

/// No gaps: where each block is built for the height that is the length of
/// the chain, and the hash of its header is not that of an earlier header,
/// the header at every height names that height, before and after the
/// block is committed.
pub proof fn law_heights_contiguous(
    s: SchemaView,
    cache: Map<crypto::Hash, SignedTransactionView>,
    ids: Seq<u16>,
    proposer_id: ValidatorId,
    height: Height,
    tx_hashes: Seq<crypto::Hash>,
    block_hash: crypto::Hash,
    t: SchemaView,
    precommits: Seq<Seq<u8>>,
    left: Map<crypto::Hash, SignedTransactionView>,
)
    requires
        s.wf(),
        heights_contiguous(s),
        height.0 == s.block_hashes_by_height.len(),
        !s.blocks.contains_key(block_hash),
        is_built_block(s, cache, ids, proposer_id, height, tx_hashes, block_hash, t),
    ensures
        heights_contiguous(t.committed(block_hash, precommits, left)),
{
    lemma_built_block(s, cache, ids, proposer_id, height, tx_hashes, block_hash, t);
    let u = t.committed(block_hash, precommits, left);
    assert forall|h: int| 0 <= h < u.block_hashes_by_height.len() implies u.blocks[
    #[trigger] u.block_hashes_by_height[h]].height.0 == h by {
        if h < s.block_hashes_by_height.len() {
            assert(s.blocks.contains_key(s.block_hashes_by_height[h]));
            assert(u.block_hashes_by_height[h] == s.block_hashes_by_height[h]);
        }
    }
}

/// No two entries of `entries` have the same key and different root
/// hashes.
pub open spec fn keys_consistent(entries: Seq<(crypto::Hash, crypto::Hash)>) -> bool {
    forall|i: int, j: int|
        0 <= i < entries.len() && 0 <= j < entries.len() && (#[trigger] entries[i]).0 == (
        #[trigger] entries[j]).0 ==> entries[i].1 == entries[j].1
}

/// Some entry of `entries` has the key `key`.
pub open spec fn names_key(entries: Seq<(crypto::Hash, crypto::Hash)>, key: crypto::Hash) -> bool {
    exists|i: int| 0 <= i < entries.len() && (#[trigger] entries[i]).0 == key
}

/// What a map holds after entries were put into it: the keys that it held
/// and the keys of the entries; under a key of the entries, the root hash
/// of the last entry with that key.
pub proof fn lemma_put_all(
    m: Map<crypto::Hash, crypto::Hash>,
    entries: Seq<(crypto::Hash, crypto::Hash)>,
)
    ensures
        forall|k: crypto::Hash| #[trigger]
            put_all(m, entries).contains_key(k) <==> m.contains_key(k) || names_key(entries, k),
        forall|k: crypto::Hash|
            !names_key(entries, k) ==> #[trigger] put_all(m, entries)[k] == m[k],
        keys_consistent(entries) ==> forall|i: int|
            0 <= i < entries.len() ==> put_all(m, entries)[(#[trigger] entries[i]).0]
                == entries[i].1,
    decreases entries.len(),
{
    let all = put_all(m, entries);
    if entries.len() == 0 {
        assert forall|k: crypto::Hash| !names_key(entries, k) by {}
    } else {
        let n = entries.len() - 1;
        let front = entries.drop_last();
        let before = put_all(m, front);
        lemma_put_all(m, front);
        assert(all == before.insert(entries[n].0, entries[n].1));
        assert forall|k: crypto::Hash| names_key(entries, k) <==> names_key(front, k) || k
            == entries[n].0 by {
            if names_key(entries, k) {
                let i = choose|i: int| 0 <= i < entries.len() && (#[trigger] entries[i]).0 == k;
                if i < n {
                    assert(front[i].0 == k);
                }
            }
            if names_key(front, k) {
                let i = choose|i: int| 0 <= i < front.len() && (#[trigger] front[i]).0 == k;
                assert(entries[i].0 == k);
            }
            if k == entries[n].0 {
                assert(entries[n].0 == k);
            }
        }
        assert forall|k: crypto::Hash| #[trigger]
            all.contains_key(k) <==> m.contains_key(k) || names_key(entries, k) by {
            assert(before.contains_key(k) <==> m.contains_key(k) || names_key(front, k));
        }
        assert forall|k: crypto::Hash| !names_key(entries, k) implies #[trigger] all[k] == m[k] by {
            assert(!names_key(front, k));
            assert(before[k] == m[k]);
        }
        if keys_consistent(entries) {
            assert(keys_consistent(front)) by {
                assert forall|i: int, j: int|
                    0 <= i < front.len() && 0 <= j < front.len() && (#[trigger] front[i]).0 == (
                    #[trigger] front[j]).0 implies front[i].1 == front[j].1 by {
                    assert(entries[i].0 == entries[j].0);
                }
            }
            assert forall|i: int| 0 <= i < entries.len() implies all[(#[trigger] entries[i]).0]
                == entries[i].1 by {
                if i < n {
                    assert(front[i] == entries[i]);
                    if entries[i].0 == entries[n].0 {
                        assert(entries[i].1 == entries[n].1);
                    } else {
                        assert(before[front[i].0] == front[i].1);
                    }
                }
            }
        }
    }
}

/// State-hash composition: an aggregator into which the entries of a block
/// were put holds the same map as a fresh aggregator that is filled with
/// the same entries in any order, provided that the block rewrote every key
/// that the aggregator held, and that no two entries share a key with
/// different root hashes.
pub proof fn law_state_hash_composition(
    held: Map<crypto::Hash, crypto::Hash>,
    entries: Seq<(crypto::Hash, crypto::Hash)>,
    refilled: Seq<(crypto::Hash, crypto::Hash)>,
)
    requires
        forall|k: crypto::Hash| held.contains_key(k) ==> names_key(entries, k),
        keys_consistent(entries),
        refilled.to_multiset() == entries.to_multiset(),
    ensures
        put_all(held, entries) == put_all(
            Map::<crypto::Hash, crypto::Hash>::empty(),
            refilled,
        ),
{
    let empty = Map::<crypto::Hash, crypto::Hash>::empty();
    let a = put_all(held, entries);
    let b = put_all(empty, refilled);
    entries.to_multiset_ensures();
    refilled.to_multiset_ensures();
    assert forall|x: (crypto::Hash, crypto::Hash)| entries.contains(x) <==> refilled.contains(
        x,
    ) by {
        assert(entries.contains(x) <==> entries.to_multiset().count(x) > 0);
        assert(refilled.contains(x) <==> refilled.to_multiset().count(x) > 0);
    }
    assert(keys_consistent(refilled)) by {
        assert forall|i: int, j: int|
            0 <= i < refilled.len() && 0 <= j < refilled.len() && (#[trigger] refilled[i]).0 == (
            #[trigger] refilled[j]).0 implies refilled[i].1 == refilled[j].1 by {
            assert(refilled.contains(refilled[i]));
            assert(refilled.contains(refilled[j]));
            let x = choose|x: int| 0 <= x < entries.len() && entries[x] == refilled[i];
            let y = choose|y: int| 0 <= y < entries.len() && entries[y] == refilled[j];
            assert(entries[x].0 == entries[y].0);
        }
    }
    lemma_put_all(held, entries);
    lemma_put_all(empty, refilled);
    assert forall|k: crypto::Hash| names_key(entries, k) <==> names_key(refilled, k) by {
        if names_key(entries, k) {
            let i = choose|i: int| 0 <= i < entries.len() && (#[trigger] entries[i]).0 == k;
            assert(entries.contains(entries[i]));
            let j = choose|j: int| 0 <= j < refilled.len() && refilled[j] == entries[i];
            assert(refilled[j].0 == k);
        }
        if names_key(refilled, k) {
            let i = choose|i: int| 0 <= i < refilled.len() && (#[trigger] refilled[i]).0 == k;
            assert(refilled.contains(refilled[i]));
            let j = choose|j: int| 0 <= j < entries.len() && entries[j] == refilled[i];
            assert(entries[j].0 == k);
        }
    }
    assert forall|k: crypto::Hash| a.contains_key(k) <==> b.contains_key(k) by {
        assert(a.contains_key(k) <==> held.contains_key(k) || names_key(entries, k));
        assert(b.contains_key(k) <==> empty.contains_key(k) || names_key(refilled, k));
    }
    assert forall|k: crypto::Hash| a.contains_key(k) implies a[k] == b[k] by {
        assert(a.contains_key(k) <==> held.contains_key(k) || names_key(entries, k));
        assert(names_key(entries, k));
        let i = choose|i: int| 0 <= i < entries.len() && (#[trigger] entries[i]).0 == k;
        assert(entries.contains(entries[i]));
        let j = choose|j: int| 0 <= j < refilled.len() && refilled[j] == entries[i];
        assert(a[entries[i].0] == entries[i].1);
        assert(b[refilled[j].0] == refilled[j].1);
    }
    assert(a =~= b);
}

/// The entries from which the state hash is computed depend on the map of
/// the aggregator alone: two aggregators that hold the same map hand the
/// same entries, in the same order, to the function that computes the
/// root hash.
pub proof fn law_state_hash_input(
    a: Seq<(crypto::Hash, crypto::Hash)>,
    b: Seq<(crypto::Hash, crypto::Hash)>,
)
    requires
        keys_sorted(a),
        keys_sorted(b),
        entries_map(a) == entries_map(b),
    ensures
        a == b,
{
    lemma_sorted_entries_unique(a, b);
}

} // verus!
