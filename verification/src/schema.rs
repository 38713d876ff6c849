//! The tables of the core: blocks, transactions with their results and
//! locations, the pool, precommits, the state-hash aggregator and the
//! configuration history; and the caches that a node keeps between rounds.

use crate::aggregator::{put_all, table_entries, Aggregator, MAX_TABLES};
use crate::block::Block;
use crate::config::{StoredConfiguration, StoredConfigurationView};
use crate::crypto;
use crate::crypto::PublicKey;
use crate::helpers::{Height, Round};
use crate::list::{items_view, List};
use crate::messages::{SignedMessage, SignedTransaction, SignedTransactionView};
use crate::table::Table;
use crate::transaction::{TransactionResult, TransactionResultView, TxLocation};
use vstd::prelude::*;

verus! {

/// The transactions that a node has seen in a round and not yet stored,
/// each under its hash.
pub type TxCache = Table<crypto::Hash, SignedTransaction>;

/// The tables of the core, as maps and sequences of plain values.
pub struct SchemaView {
    /// Header of each block, under the hash of the header.
    pub blocks: Map<crypto::Hash, Block>,
    /// Hash of the block at each height.
    pub block_hashes_by_height: Seq<crypto::Hash>,
    /// Hashes of the transactions of the block at each height, in order.
    pub block_transactions: Map<Height, Seq<crypto::Hash>>,
    /// Envelope of each transaction that a block holds.
    pub transactions: Map<crypto::Hash, SignedTransactionView>,
    /// Envelope of each transaction that waits for a block.
    pub transactions_pool: Map<crypto::Hash, SignedTransactionView>,
    /// Result of each transaction that was run.
    pub transaction_results: Map<crypto::Hash, TransactionResultView>,
    /// Block and position of each transaction that was run.
    pub transactions_locations: Map<crypto::Hash, TxLocation>,
    /// Precommits for each block, under the hash of its header.
    pub precommits: Map<crypto::Hash, Seq<Seq<u8>>>,
    /// Root hash of each table that enters the state hash.
    pub state_hash_aggregator: Map<crypto::Hash, crypto::Hash>,
    /// The configurations, oldest first.
    pub configs: Seq<StoredConfigurationView>,
    /// Number of transactions in the blocks that were committed.
    pub transaction_count: u64,
}

impl SchemaView {
    /// Tables without any entry.
    pub open spec fn empty() -> SchemaView {
        SchemaView {
            blocks: Map::empty(),
            block_hashes_by_height: Seq::empty(),
            block_transactions: Map::empty(),
            transactions: Map::empty(),
            transactions_pool: Map::empty(),
            transaction_results: Map::empty(),
            transactions_locations: Map::empty(),
            precommits: Map::empty(),
            state_hash_aggregator: Map::empty(),
            configs: Seq::empty(),
            transaction_count: 0,
        }
    }

    /// The transactions of the block at `height`; none where no transaction
    /// was run at that height.
    pub open spec fn transactions_at(self, height: Height) -> Seq<crypto::Hash> {
        if self.block_transactions.contains_key(height) {
            self.block_transactions[height]
        } else {
            Seq::empty()
        }
    }

    /// The precommits stored for `block_hash`.
    pub open spec fn precommits_of(self, block_hash: crypto::Hash) -> Seq<Seq<u8>> {
        if self.precommits.contains_key(block_hash) {
            self.precommits[block_hash]
        } else {
            Seq::empty()
        }
    }

    /// The transaction `tx_hash` is stored with its result and its location.
    pub open spec fn is_recorded(self, tx_hash: crypto::Hash) -> bool {
        &&& self.transactions.contains_key(tx_hash)
        &&& self.transaction_results.contains_key(tx_hash)
        &&& self.transactions_locations.contains_key(tx_hash)
    }

    /// What holds of the tables at all times: each block hash in the list
    /// by height has its header; each transaction of a block is stored with
    /// its result and location; no transaction both waits in the pool and
    /// stands in a block.
    pub open spec fn wf(self) -> bool {
        &&& forall|i: int|
            0 <= i < self.block_hashes_by_height.len() ==> self.blocks.contains_key(
                #[trigger] self.block_hashes_by_height[i],
            )
        &&& forall|h: Height, i: int|
            self.block_transactions.contains_key(h) && 0 <= i < self.block_transactions[h].len()
                ==> self.is_recorded(#[trigger] self.block_transactions[h][i])
        &&& forall|k: crypto::Hash|
            !(#[trigger] self.transactions_pool.contains_key(k) && self.transactions.contains_key(
                k,
            ))
    }

    /// The hash of the latest block, or the zero hash where there is none.
    pub open spec fn last_hash(self) -> crypto::Hash {
        if self.block_hashes_by_height.len() > 0 {
            self.block_hashes_by_height.last()
        } else {
            crypto::zero_hash()
        }
    }

    /// The envelope of `tx_hash`: from the transactions of the blocks, else
    /// from the pool, else from `cache`.
    pub open spec fn find_transaction(
        self,
        cache: Map<crypto::Hash, SignedTransactionView>,
        tx_hash: crypto::Hash,
    ) -> Option<SignedTransactionView> {
        if self.transactions.contains_key(tx_hash) {
            Some(self.transactions[tx_hash])
        } else if self.transactions_pool.contains_key(tx_hash) {
            Some(self.transactions_pool[tx_hash])
        } else if cache.contains_key(tx_hash) {
            Some(cache[tx_hash])
        } else {
            None
        }
    }

    /// The tables after the transaction `tx_hash` was run at `position` of
    /// the block at `height` with the result `result`.
    pub open spec fn with_transaction(
        self,
        tx_hash: crypto::Hash,
        envelope: SignedTransactionView,
        result: TransactionResultView,
        height: Height,
        position: u64,
    ) -> SchemaView {
        SchemaView {
            transaction_results: self.transaction_results.insert(tx_hash, result),
            transactions: self.transactions.insert(tx_hash, envelope),
            transactions_pool: self.transactions_pool.remove(tx_hash),
            block_transactions: self.block_transactions.insert(
                height,
                self.transactions_at(height).push(tx_hash),
            ),
            transactions_locations: self.transactions_locations.insert(
                tx_hash,
                TxLocation { block_height: height, position_in_block: position },
            ),
            ..self
        }
    }

    /// The tables after `envelope` was put into the pool under `tx_hash`.
    /// A transaction that already waits there stays as it is.
    pub open spec fn with_pooled(
        self,
        tx_hash: crypto::Hash,
        envelope: SignedTransactionView,
    ) -> SchemaView {
        if self.transactions_pool.contains_key(tx_hash) {
            self
        } else {
            SchemaView {
                transactions_pool: self.transactions_pool.insert(tx_hash, envelope),
                ..self
            }
        }
    }

    /// The tables after the block `block` with the hash `block_hash` was
    /// appended.
    pub open spec fn with_block(self, block_hash: crypto::Hash, block: Block) -> SchemaView {
        SchemaView {
            block_hashes_by_height: self.block_hashes_by_height.push(block_hash),
            blocks: self.blocks.insert(block_hash, block),
            ..self
        }
    }

    /// The tables after `precommits` were appended to those of `block_hash`.
    pub open spec fn with_precommits(
        self,
        block_hash: crypto::Hash,
        precommits: Seq<Seq<u8>>,
    ) -> SchemaView {
        SchemaView {
            precommits: self.precommits.insert(
                block_hash,
                self.precommits_of(block_hash) + precommits,
            ),
            ..self
        }
    }

    /// The pool after the transactions of `cache` were drained into it: a
    /// transaction that stands in a block does not enter, and one that
    /// already waits stays as it is.
    pub open spec fn drained_pool(
        self,
        cache: Map<crypto::Hash, SignedTransactionView>,
    ) -> Map<crypto::Hash, SignedTransactionView> {
        Map::new(
            |k: crypto::Hash|
                self.transactions_pool.contains_key(k) || (cache.contains_key(k)
                    && !self.transactions.contains_key(k)),
            |k: crypto::Hash|
                if self.transactions_pool.contains_key(k) {
                    self.transactions_pool[k]
                } else {
                    cache[k]
                },
        )
    }

    /// The tables after the block `block_hash` was committed with the
    /// precommits `precommits`: the precommits are appended to those of the
    /// block, the number of transactions of the latest block is added to
    /// the count, and the transactions of `cache` are drained into the pool.
    pub open spec fn committed(
        self,
        block_hash: crypto::Hash,
        precommits: Seq<Seq<u8>>,
        cache: Map<crypto::Hash, SignedTransactionView>,
    ) -> SchemaView {
        SchemaView {
            transaction_count: (self.transaction_count + self.blocks[self.last_hash()].tx_count) as u64,
            transactions_pool: self.drained_pool(cache),
            ..self.with_precommits(block_hash, precommits)
        }
    }

    /// Running a transaction keeps the tables well formed.
    pub proof fn lemma_with_transaction_wf(
        self,
        tx_hash: crypto::Hash,
        envelope: SignedTransactionView,
        result: TransactionResultView,
        height: Height,
        position: u64,
    )
        requires
            self.wf(),
        ensures
            self.with_transaction(tx_hash, envelope, result, height, position).wf(),
    {
        let next = self.with_transaction(tx_hash, envelope, result, height, position);
        assert forall|h: Height, i: int|
            next.block_transactions.contains_key(h) && 0 <= i < next.block_transactions[h].len()
            implies next.is_recorded(#[trigger] next.block_transactions[h][i]) by {
            if h == height {
                if i < self.transactions_at(height).len() {
                    assert(self.block_transactions.contains_key(h));
                    assert(self.is_recorded(self.block_transactions[h][i]));
                }
            } else {
                assert(self.is_recorded(self.block_transactions[h][i]));
            }
        }
        assert forall|k: crypto::Hash|
            !(#[trigger] next.transactions_pool.contains_key(k) && next.transactions.contains_key(
                k,
            )) by {
            if k != tx_hash {
                assert(!(self.transactions_pool.contains_key(k) && self.transactions.contains_key(
                    k,
                )));
            }
        }
    }
}

/// What is left of `cache` once the transactions `tx_hashes` are taken out.
pub open spec fn cache_without(
    cache: Map<crypto::Hash, SignedTransactionView>,
    tx_hashes: Seq<crypto::Hash>,
) -> Map<crypto::Hash, SignedTransactionView> {
    Map::new(
        |k: crypto::Hash| cache.contains_key(k) && !tx_hashes.contains(k),
        |k: crypto::Hash| cache[k],
    )
}

/// The tables after the transactions `tx_hashes` were run in their order as
/// the block at `height`, with the results `results`. The envelope of each
/// is the one that the tables `s` and `cache` hold for it.
pub open spec fn with_transactions(
    s: SchemaView,
    cache: Map<crypto::Hash, SignedTransactionView>,
    tx_hashes: Seq<crypto::Hash>,
    results: Seq<TransactionResultView>,
    height: Height,
) -> SchemaView
    decreases tx_hashes.len(),
{
    if tx_hashes.len() == 0 {
        s
    } else {
        let n = tx_hashes.len() - 1;
        with_transactions(
            s,
            cache,
            tx_hashes.drop_last(),
            results.drop_last(),
            height,
        ).with_transaction(
            tx_hashes[n],
            s.find_transaction(cache, tx_hashes[n]).unwrap(),
            results[n],
            height,
            n as u64,
        )
    }
}

/// Taking one more transaction out of a cache.
pub proof fn lemma_cache_without_push(
    cache: Map<crypto::Hash, SignedTransactionView>,
    tx_hashes: Seq<crypto::Hash>,
    tx_hash: crypto::Hash,
)
    ensures
        cache_without(cache, tx_hashes).remove(tx_hash) == cache_without(
            cache,
            tx_hashes.push(tx_hash),
        ),
{
    let a = cache_without(cache, tx_hashes).remove(tx_hash);
    let b = cache_without(cache, tx_hashes.push(tx_hash));
    assert forall|k: crypto::Hash| a.contains_key(k) <==> b.contains_key(k) by {
        if tx_hashes.push(tx_hash).contains(k) {
            let i = choose|i: int|
                0 <= i < tx_hashes.push(tx_hash).len() && tx_hashes.push(tx_hash)[i] == k;
            if i < tx_hashes.len() {
                assert(tx_hashes[i] == k);
            }
        }
        if tx_hashes.contains(k) {
            let i = choose|i: int| 0 <= i < tx_hashes.len() && tx_hashes[i] == k;
            assert(tx_hashes.push(tx_hash)[i] == k);
        }
        if k == tx_hash {
            assert(tx_hashes.push(tx_hash)[tx_hashes.len() as int] == k);
        }
    }
    assert(a =~= b);
}

/// Running transactions does not change where the envelope of a
/// transaction is found: an envelope that the tables and the cache held at
/// the start is the one that they hold after any number of transactions
/// were run.
pub proof fn lemma_find_transaction_stable(
    s: SchemaView,
    cache: Map<crypto::Hash, SignedTransactionView>,
    tx_hashes: Seq<crypto::Hash>,
    results: Seq<TransactionResultView>,
    height: Height,
    tx_hash: crypto::Hash,
)
    requires
        s.find_transaction(cache, tx_hash) is Some,
        forall|i: int|
            0 <= i < tx_hashes.len() ==> s.find_transaction(cache, #[trigger] tx_hashes[i]) is Some,
    ensures
        with_transactions(s, cache, tx_hashes, results, height).find_transaction(
            cache_without(cache, tx_hashes),
            tx_hash,
        ) == s.find_transaction(cache, tx_hash),
    decreases tx_hashes.len(),
{
    if tx_hashes.len() == 0 {
        assert(cache_without(cache, tx_hashes) =~= cache);
    } else {
        let n = tx_hashes.len() - 1;
        let front = tx_hashes.drop_last();
        assert forall|i: int| 0 <= i < front.len() implies s.find_transaction(
            cache,
            #[trigger] front[i],
        ) is Some by {
            assert(front[i] == tx_hashes[i]);
        }
        lemma_find_transaction_stable(s, cache, front, results.drop_last(), height, tx_hash);
        lemma_cache_without_push(cache, front, tx_hashes[n]);
        assert(front.push(tx_hashes[n]) =~= tx_hashes);
    }
}

/// After the transactions `tx_hashes` were run at `height`, the block at
/// that height holds what it held, then `tx_hashes` in their order; each
/// of them is stored with a result and a location; and the blocks at other
/// heights hold what they held.
pub proof fn lemma_with_transactions(
    s: SchemaView,
    cache: Map<crypto::Hash, SignedTransactionView>,
    tx_hashes: Seq<crypto::Hash>,
    results: Seq<TransactionResultView>,
    height: Height,
)
    requires
        s.wf(),
    ensures
        ({
            let t = with_transactions(s, cache, tx_hashes, results, height);
            &&& t.wf()
            &&& t.transactions_at(height) == s.transactions_at(height) + tx_hashes
            &&& forall|h: Height| h != height ==> t.transactions_at(h) == s.transactions_at(h)
            &&& forall|i: int| 0 <= i < tx_hashes.len() ==> t.is_recorded(#[trigger] tx_hashes[i])
            &&& forall|i: int|
                0 <= i < tx_hashes.len() ==> !t.transactions_pool.contains_key(
                    #[trigger] tx_hashes[i],
                )
            &&& t.blocks == s.blocks
            &&& t.block_hashes_by_height == s.block_hashes_by_height
            &&& t.precommits == s.precommits
            &&& t.state_hash_aggregator == s.state_hash_aggregator
            &&& t.configs == s.configs
            &&& t.transaction_count == s.transaction_count
        }),
    decreases tx_hashes.len(),
{
    let t = with_transactions(s, cache, tx_hashes, results, height);
    if tx_hashes.len() == 0 {
        assert(s.transactions_at(height) + tx_hashes =~= s.transactions_at(height));
    } else {
        let n = tx_hashes.len() - 1;
        let front = tx_hashes.drop_last();
        let prev = with_transactions(s, cache, front, results.drop_last(), height);
        lemma_with_transactions(s, cache, front, results.drop_last(), height);
        prev.lemma_with_transaction_wf(
            tx_hashes[n],
            s.find_transaction(cache, tx_hashes[n]).unwrap(),
            results[n],
            height,
            n as u64,
        );
        assert(t.transactions_at(height) =~= s.transactions_at(height) + tx_hashes);
        assert forall|i: int| 0 <= i < tx_hashes.len() implies t.is_recorded(
            #[trigger] tx_hashes[i],
        ) && !t.transactions_pool.contains_key(tx_hashes[i]) by {
            if i < n {
                assert(front[i] == tx_hashes[i]);
                assert(prev.is_recorded(front[i]));
            }
        }
    }
}

/// Well-formedness speaks of the blocks and the transactions only: tables
/// that agree on them are well formed together.
pub proof fn lemma_wf_frame(a: SchemaView, b: SchemaView)
    requires
        a.wf(),
        b.blocks == a.blocks,
        b.block_hashes_by_height == a.block_hashes_by_height,
        b.block_transactions == a.block_transactions,
        b.transactions == a.transactions,
        b.transactions_pool == a.transactions_pool,
        b.transaction_results == a.transaction_results,
        b.transactions_locations == a.transactions_locations,
    ensures
        b.wf(),
{
    assert forall|i: int| 0 <= i < b.block_hashes_by_height.len() implies b.blocks.contains_key(
        #[trigger] b.block_hashes_by_height[i],
    ) by {
        assert(a.blocks.contains_key(a.block_hashes_by_height[i]));
    }
    assert forall|h: Height, i: int|
        b.block_transactions.contains_key(h) && 0 <= i < b.block_transactions[h].len()
        implies b.is_recorded(#[trigger] b.block_transactions[h][i]) by {
        assert(a.is_recorded(a.block_transactions[h][i]));
    }
    assert forall|k: crypto::Hash|
        !(#[trigger] b.transactions_pool.contains_key(k) && b.transactions.contains_key(k)) by {
        assert(!(a.transactions_pool.contains_key(k) && a.transactions.contains_key(k)));
    }
}

/// The tables of the core.
pub struct Schema {
    blocks: Table<crypto::Hash, Block>,
    block_hashes_by_height: List<crypto::Hash>,
    block_transactions: Table<Height, List<crypto::Hash>>,
    transactions: Table<crypto::Hash, SignedTransaction>,
    transactions_pool: Table<crypto::Hash, SignedTransaction>,
    transaction_results: Table<crypto::Hash, TransactionResult>,
    transactions_locations: Table<crypto::Hash, TxLocation>,
    precommits: Table<crypto::Hash, List<SignedMessage>>,
    state_hash_aggregator: Aggregator,
    configs: List<StoredConfiguration>,
    transaction_count: u64,
}

impl View for Schema {
    type V = SchemaView;

    closed spec fn view(&self) -> SchemaView {
        SchemaView {
            blocks: self.blocks@,
            block_hashes_by_height: self.block_hashes_by_height@,
            block_transactions: self.block_transactions@,
            transactions: self.transactions@,
            transactions_pool: self.transactions_pool@,
            transaction_results: self.transaction_results@,
            transactions_locations: self.transactions_locations@,
            precommits: self.precommits@,
            state_hash_aggregator: self.state_hash_aggregator@,
            configs: self.configs@,
            transaction_count: self.transaction_count,
        }
    }
}

impl Schema {
    /// The entries of the aggregator in ascending order of key.
    pub closed spec fn aggregator_entries(&self) -> Seq<(crypto::Hash, crypto::Hash)> {
        self.state_hash_aggregator.entries()
    }

    /// Tables without any entry.
    pub fn new() -> (r: Schema)
        ensures
            r@ == SchemaView::empty(),
            r@.wf(),
            r.aggregator_entries() == Seq::<(crypto::Hash, crypto::Hash)>::empty(),
    {
        Schema {
            blocks: Table::new(),
            block_hashes_by_height: List::new(),
            block_transactions: Table::new(),
            transactions: Table::new(),
            transactions_pool: Table::new(),
            transaction_results: Table::new(),
            transactions_locations: Table::new(),
            precommits: Table::new(),
            state_hash_aggregator: Aggregator::new(),
            configs: List::new(),
            transaction_count: 0,
        }
    }

    /// The headers of the blocks.
    pub fn blocks(&self) -> (r: &Table<crypto::Hash, Block>)
        ensures
            r@ == self@.blocks,
    {
        &self.blocks
    }

    /// The hashes of the blocks, by height.
    pub fn block_hashes_by_height(&self) -> (r: &List<crypto::Hash>)
        ensures
            r@ == self@.block_hashes_by_height,
    {
        &self.block_hashes_by_height
    }

    /// The hashes of the transactions of the block at `height`, in order.
    pub fn block_transactions(&self, height: Height) -> (r: List<crypto::Hash>)
        ensures
            r@ == self@.transactions_at(height),
    {
        match self.block_transactions.get(&height) {
            Some(list) => list,
            None => List::new(),
        }
    }

    /// The envelopes of the transactions that the blocks hold.
    pub fn transactions(&self) -> (r: &Table<crypto::Hash, SignedTransaction>)
        ensures
            r@ == self@.transactions,
    {
        &self.transactions
    }

    /// The envelopes of the transactions that wait for a block.
    pub fn transactions_pool(&self) -> (r: &Table<crypto::Hash, SignedTransaction>)
        ensures
            r@ == self@.transactions_pool,
    {
        &self.transactions_pool
    }

    /// The number of transactions that wait for a block.
    pub fn transactions_pool_len(&self) -> (r: u64)
        ensures
            self@.transactions_pool.dom().finite(),
            r == self@.transactions_pool.dom().len(),
    {
        self.transactions_pool.len() as u64
    }

    /// The results of the transactions that were run.
    pub fn transaction_results(&self) -> (r: &Table<crypto::Hash, TransactionResult>)
        ensures
            r@ == self@.transaction_results,
    {
        &self.transaction_results
    }

    /// The locations of the transactions that were run.
    pub fn transactions_locations(&self) -> (r: &Table<crypto::Hash, TxLocation>)
        ensures
            r@ == self@.transactions_locations,
    {
        &self.transactions_locations
    }

    /// The precommits stored for the block `block_hash`.
    pub fn precommits(&self, block_hash: &crypto::Hash) -> (r: List<SignedMessage>)
        ensures
            r@ == self@.precommits_of(*block_hash),
    {
        match self.precommits.get(block_hash) {
            Some(list) => list,
            None => List::new(),
        }
    }

    /// The state-hash aggregator.
    pub fn state_hash_aggregator(&self) -> (r: &Aggregator)
        ensures
            r@ == self@.state_hash_aggregator,
            r.entries() == self.aggregator_entries(),
    {
        &self.state_hash_aggregator
    }

    /// The configuration history, oldest first.
    pub fn configs(&self) -> (r: &List<StoredConfiguration>)
        ensures
            r@ == self@.configs,
    {
        &self.configs
    }

    /// The number of transactions in the committed blocks.
    pub fn transaction_count(&self) -> (r: u64)
        ensures
            r == self@.transaction_count,
    {
        self.transaction_count
    }

    /// The hash of the block at `height`, if the chain is that long.
    pub fn block_hash_by_height(&self, height: Height) -> (r: Option<crypto::Hash>)
        ensures
            r is Some == (height.0 < self@.block_hashes_by_height.len()),
            r matches Some(h) ==> h == self@.block_hashes_by_height[height.0 as int],
    {
        if height.0 >= self.block_hashes_by_height.len() as u64 {
            return None;
        }
        self.block_hashes_by_height.get(height.0 as usize)
    }

    /// The hash of the latest block, or the zero hash where there is none.
    pub fn last_hash(&self) -> (r: crypto::Hash)
        ensures
            r == self@.last_hash(),
    {
        match self.block_hashes_by_height.last() {
            Some(hash) => hash,
            None => crypto::Hash::zero(),
        }
    }

    /// The header of the latest block.
    pub fn last_block(&self) -> (r: Block)
        requires
            self@.wf(),
            self@.block_hashes_by_height.len() > 0,
        ensures
            r == self@.blocks[self@.last_hash()],
    {
        let hash = self.last_hash();
        assert(hash == self@.block_hashes_by_height[self@.block_hashes_by_height.len() - 1]);
        match self.blocks.get(&hash) {
            Some(block) => block,
            None => {
                assert(false);
                Block {
                    proposer_id: crate::helpers::ValidatorId(0),
                    height: Height(0),
                    tx_count: 0,
                    prev_hash: hash,
                    tx_hash: hash,
                    state_hash: hash,
                }
            },
        }
    }

    /// Records that the transaction `tx_hash` was run at `position` of the
    /// block at `height`: stores its result, moves its envelope from the
    /// pool to the transactions of the blocks, appends its hash to the
    /// transactions of the block, and stores its location.
    pub fn record_transaction(
        &mut self,
        tx_hash: crypto::Hash,
        envelope: SignedTransaction,
        result: TransactionResult,
        height: Height,
        position: u64,
    )
        requires
            old(self)@.wf(),
        ensures
            final(self)@ == old(self)@.with_transaction(
                tx_hash,
                envelope@,
                result@,
                height,
                position,
            ),
            final(self)@.wf(),
            final(self).aggregator_entries() == old(self).aggregator_entries(),
    {
        proof {
            self@.lemma_with_transaction_wf(tx_hash, envelope@, result@, height, position);
        }
        self.transaction_results.put(tx_hash, result);
        let _ = self.transactions_pool.remove(&tx_hash);
        self.transactions.put(tx_hash, envelope);
        let mut list = self.block_transactions(height);
        list.push(tx_hash);
        self.block_transactions.put(height, list);
        self.transactions_locations.put(tx_hash, TxLocation::new(height, position));
    }

    /// Puts `envelope` into the pool under `tx_hash`, unless a transaction
    /// already waits there under that hash.
    pub fn add_transaction_into_pool(&mut self, tx_hash: crypto::Hash, envelope: SignedTransaction)
        requires
            old(self)@.wf(),
            !old(self)@.transactions.contains_key(tx_hash),
        ensures
            final(self)@ == old(self)@.with_pooled(tx_hash, envelope@),
            final(self)@.wf(),
            final(self).aggregator_entries() == old(self).aggregator_entries(),
    {
        if !self.transactions_pool.contains(&tx_hash) {
            self.transactions_pool.put(tx_hash, envelope);
        }
        proof {
            let prev = old(self)@;
            let next = self@;
            assert forall|i: int| 0 <= i < next.block_hashes_by_height.len() implies next.blocks.contains_key(
            #[trigger] next.block_hashes_by_height[i]) by {
                assert(prev.blocks.contains_key(prev.block_hashes_by_height[i]));
            }
            assert forall|h: Height, i: int|
                next.block_transactions.contains_key(h) && 0 <= i
                    < next.block_transactions[h].len() implies next.is_recorded(
                #[trigger] next.block_transactions[h][i],
            ) by {
                assert(prev.is_recorded(prev.block_transactions[h][i]));
            }
            assert forall|k: crypto::Hash|
                !(#[trigger] next.transactions_pool.contains_key(k)
                    && next.transactions.contains_key(k)) by {
                assert(!(prev.transactions_pool.contains_key(k) && prev.transactions.contains_key(
                    k,
                )));
            }
        }
    }

    /// Appends the block `block` under its hash `block_hash`.
    pub fn push_block(&mut self, block_hash: crypto::Hash, block: Block)
        requires
            old(self)@.wf(),
        ensures
            final(self)@ == old(self)@.with_block(block_hash, block),
            final(self)@.wf(),
            final(self).aggregator_entries() == old(self).aggregator_entries(),
    {
        self.block_hashes_by_height.push(block_hash);
        self.blocks.put(block_hash, block);
        proof {
            let prev = old(self)@;
            let next = self@;
            assert forall|i: int| 0 <= i < next.block_hashes_by_height.len() implies next.blocks.contains_key(
            #[trigger] next.block_hashes_by_height[i]) by {
                if i < prev.block_hashes_by_height.len() {
                    assert(prev.blocks.contains_key(prev.block_hashes_by_height[i]));
                }
            }
            assert forall|h: Height, i: int|
                next.block_transactions.contains_key(h) && 0 <= i
                    < next.block_transactions[h].len() implies next.is_recorded(
                #[trigger] next.block_transactions[h][i],
            ) by {
                assert(prev.is_recorded(prev.block_transactions[h][i]));
            }
            assert forall|k: crypto::Hash|
                !(#[trigger] next.transactions_pool.contains_key(k)
                    && next.transactions.contains_key(k)) by {
                assert(!(prev.transactions_pool.contains_key(k) && prev.transactions.contains_key(
                    k,
                )));
            }
        }
    }

    /// Appends `precommits` to those of the block `block_hash`.
    pub fn add_precommits(&mut self, block_hash: crypto::Hash, precommits: Vec<SignedMessage>)
        requires
            old(self)@.wf(),
        ensures
            final(self)@ == old(self)@.with_precommits(block_hash, items_view(precommits@)),
            final(self)@.wf(),
            final(self).aggregator_entries() == old(self).aggregator_entries(),
    {
        let mut list = self.precommits(&block_hash);
        list.extend(precommits);
        self.precommits.put(block_hash, list);
        proof {
            lemma_wf_frame(old(self)@, self@);
        }
    }

    /// Adds `count` to the number of committed transactions.
    pub fn update_transaction_count(&mut self, count: u64)
        requires
            old(self)@.wf(),
            old(self)@.transaction_count + count <= u64::MAX,
        ensures
            final(self)@ == (SchemaView {
                transaction_count: (old(self)@.transaction_count + count) as u64,
                ..old(self)@
            }),
            final(self)@.wf(),
            final(self).aggregator_entries() == old(self).aggregator_entries(),
    {
        self.transaction_count = self.transaction_count + count;
        proof {
            lemma_wf_frame(old(self)@, self@);
        }
    }

    /// Appends `config` to the configuration history.
    pub fn commit_configuration(&mut self, config: StoredConfiguration)
        requires
            old(self)@.wf(),
        ensures
            final(self)@ == (SchemaView {
                configs: old(self)@.configs.push(config@),
                ..old(self)@
            }),
            final(self)@.wf(),
            final(self).aggregator_entries() == old(self).aggregator_entries(),
    {
        self.configs.push(config);
        proof {
            lemma_wf_frame(old(self)@, self@);
        }
    }

    /// Puts the root hashes of the tables of the service `service_id` into
    /// the aggregator, each under its unique key.
    pub fn aggregate_table_roots(&mut self, service_id: u16, roots: &Vec<crypto::Hash>)
        requires
            old(self)@.wf(),
            roots@.len() <= MAX_TABLES,
        ensures
            final(self)@ == (SchemaView {
                state_hash_aggregator: put_all(
                    old(self)@.state_hash_aggregator,
                    table_entries(service_id, roots@),
                ),
                ..old(self)@
            }),
            final(self)@.wf(),
    {
        self.state_hash_aggregator.put_table_roots(service_id, roots);
        proof {
            lemma_wf_frame(old(self)@, self@);
        }
    }

    /// Returns tables with the same view.
    pub fn duplicate_schema(&self) -> (r: Schema)
        ensures
            r@ == self@,
            r.aggregator_entries() == self.aggregator_entries(),
    {
        Schema {
            blocks: self.blocks.duplicate_table(),
            block_hashes_by_height: self.block_hashes_by_height.duplicate_list(),
            block_transactions: self.block_transactions.duplicate_table(),
            transactions: self.transactions.duplicate_table(),
            transactions_pool: self.transactions_pool.duplicate_table(),
            transaction_results: self.transaction_results.duplicate_table(),
            transactions_locations: self.transactions_locations.duplicate_table(),
            precommits: self.precommits.duplicate_table(),
            state_hash_aggregator: self.state_hash_aggregator.duplicate_aggregator(),
            configs: self.configs.duplicate_list(),
            transaction_count: self.transaction_count,
        }
    }
}

/// What a node keeps between rounds, as plain values.
pub struct CachesView {
    /// The connect message of each known peer, under its public key.
    pub peers_cache: Map<PublicKey, Seq<u8>>,
    /// The consensus messages of the current height, in order of arrival.
    pub consensus_messages_cache: Seq<Seq<u8>>,
    /// The current round.
    pub consensus_round: Round,
}

/// What a node keeps between rounds: the peers it knows and the consensus
/// messages of the height it works on.
pub struct Caches {
    peers_cache: Table<PublicKey, SignedMessage>,
    consensus_messages_cache: List<SignedMessage>,
    consensus_round: Round,
}

impl View for Caches {
    type V = CachesView;

    closed spec fn view(&self) -> CachesView {
        CachesView {
            peers_cache: self.peers_cache@,
            consensus_messages_cache: self.consensus_messages_cache@,
            consensus_round: self.consensus_round,
        }
    }
}

impl CachesView {
    /// Empty caches, at round zero.
    pub open spec fn empty() -> CachesView {
        CachesView {
            peers_cache: Map::empty(),
            consensus_messages_cache: Seq::empty(),
            consensus_round: Round(0),
        }
    }
}

impl Caches {
    /// Empty caches, at round zero.
    pub fn new() -> (r: Caches)
        ensures
            r@ == CachesView::empty(),
    {
        Caches {
            peers_cache: Table::new(),
            consensus_messages_cache: List::new(),
            consensus_round: Round(0),
        }
    }

    /// The connect messages of the known peers.
    pub fn peers_cache(&self) -> (r: &Table<PublicKey, SignedMessage>)
        ensures
            r@ == self@.peers_cache,
    {
        &self.peers_cache
    }

    /// The consensus messages of the current height.
    pub fn consensus_messages_cache(&self) -> (r: &List<SignedMessage>)
        ensures
            r@ == self@.consensus_messages_cache,
    {
        &self.consensus_messages_cache
    }

    /// The current round.
    pub fn consensus_round(&self) -> (r: Round)
        ensures
            r == self@.consensus_round,
    {
        self.consensus_round
    }

    /// Stores the connect message `peer` of the peer `pubkey`.
    pub fn put_peer(&mut self, pubkey: PublicKey, peer: SignedMessage)
        ensures
            final(self)@ == (CachesView {
                peers_cache: old(self)@.peers_cache.insert(pubkey, peer@),
                ..old(self)@
            }),
    {
        self.peers_cache.put(pubkey, peer);
    }

    /// Forgets the peer `pubkey`.
    pub fn remove_peer(&mut self, pubkey: &PublicKey)
        ensures
            final(self)@ == (CachesView {
                peers_cache: old(self)@.peers_cache.remove(*pubkey),
                ..old(self)@
            }),
    {
        let _ = self.peers_cache.remove(pubkey);
    }

    /// Appends `messages` to the consensus messages and sets the round.
    pub fn add_messages(&mut self, round: Round, messages: Vec<SignedMessage>)
        ensures
            final(self)@ == (CachesView {
                consensus_messages_cache: old(self)@.consensus_messages_cache + items_view(
                    messages@,
                ),
                consensus_round: round,
                ..old(self)@
            }),
    {
        self.consensus_messages_cache.extend(messages);
        self.consensus_round = round;
    }

    /// Returns caches with the same view.
    pub fn duplicate_caches(&self) -> (r: Caches)
        ensures
            r@ == self@,
    {
        Caches {
            peers_cache: self.peers_cache.duplicate_table(),
            consensus_messages_cache: self.consensus_messages_cache.duplicate_list(),
            consensus_round: self.consensus_round,
        }
    }

    /// Forgets the consensus messages: a new height begins.
    pub fn clear_messages(&mut self)
        ensures
            final(self)@ == (CachesView {
                consensus_messages_cache: Seq::<Seq<u8>>::empty(),
                ..old(self)@
            }),
    {
        self.consensus_messages_cache.clear();
    }
}

} // verus!
