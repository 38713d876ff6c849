//! The ledger facade: the store, the registry of services and the keys of
//! the node, with the block builder, the transaction executor and the
//! commit engine.

use crate::aggregator::{
    put_all, put_services, table_entries, table_unique_key, unique_key, MAX_TABLES,
};
use crate::block::Block;
use crate::config::{GenesisConfig, ServiceConfig, StoredConfiguration, StoredConfigurationView};
use crate::crypto;
use crate::crypto::{PublicKey, SecretKey};
use crate::database::{
    next_version, Database, DatabaseView, Fork, ForkView, Patch, Snapshot, StorageError,
};
use crate::helpers::{Height, Round, ValidatorId};
use crate::list::items_view;
use crate::messages::{RawTransaction, SignedMessage, SignedTransaction, SignedTransactionView};
use crate::schema::{
    cache_without, lemma_cache_without_push, lemma_find_transaction_stable, lemma_wf_frame,
    lemma_with_transactions, with_transactions, CachesView, Schema, SchemaView, TxCache,
};
use crate::service::{
    has_service, ids_ascending, ids_distinct, names_distinct, HookOutcome, ParseError, Service,
    ServiceContext, ServiceEntry, ServiceMap,
};
use crate::table::{entries_map, keys_distinct, Record};
use crate::transaction::{
    classify, keeps_changes, recorded_result, ExecutionOutcome, Transaction, TransactionContext,
    TransactionResultView,
};
use vstd::prelude::*;

verus! {

/// Identifier of the table family of the core itself. No service may
/// claim it.
pub const CORE_SERVICE: u16 = 0;

/// Why an operation of the ledger failed.
#[derive(Clone, Debug, PartialEq, Eq)]
pub enum Error {
    /// No service has the identifier that the transaction names.
    UnknownService { service_id: u16 },
    /// The service did not take the payload for one of its transactions.
    UnparseableTransaction { service_id: u16, description: String },
    /// The transaction is not stored, does not wait in the pool and is not
    /// in the cache.
    MissingTransaction { tx_hash: crypto::Hash },
    /// The store failed or refused.
    Storage(StorageError),
}

/// A transaction of a service that is to be signed with the keys of the
/// services and sent to the network.
#[derive(Clone, Debug, PartialEq, Eq)]
pub struct BroadcastRequest {
    /// The public key of the pair that signs.
    pub author: PublicKey,
    /// The transaction to sign and send.
    pub transaction: RawTransaction,
}

/// A ledger with its services and its store.
///
/// Only nodes with the same services and the same genesis block can form
/// one network.
pub struct Blockchain {
    db: Database,
    service_map: ServiceMap,
    /// The keys with which the transactions of the services are signed.
    pub service_keypair: (PublicKey, SecretKey),
}

impl Blockchain {
    /// The store of the ledger.
    pub closed spec fn db(&self) -> Database {
        self.db
    }

    /// The services, in ascending order of identifier.
    pub closed spec fn services(&self) -> Seq<ServiceEntry> {
        self.service_map.entries()
    }

    /// The keys with which the transactions of the services are signed.
    pub closed spec fn keypair(&self) -> (PublicKey, SecretKey) {
        self.service_keypair
    }

    /// The committed tables of the core are well formed.
    pub open spec fn wf(&self) -> bool {
        self.db().wf()
    }

    /// The genesis block is committed.
    pub open spec fn has_genesis(&self) -> bool {
        self.db()@.schema.block_hashes_by_height.len() > 0
    }

    /// The transaction `tx_hash` can be dispatched: its envelope is found,
    /// and a service has the identifier that it names.
    pub open spec fn can_dispatch(
        &self,
        cache: Map<crypto::Hash, SignedTransactionView>,
        tx_hash: crypto::Hash,
    ) -> bool {
        match self.db()@.schema.find_transaction(cache, tx_hash) {
            Some(envelope) => has_service(self.services(), envelope.raw.service_id),
            None => false,
        }
    }

    /// Makes a ledger on the store `storage` with the services `services`.
    /// Two services must not have the same identifier.
    pub fn new(
        storage: Database,
        services: Vec<ServiceEntry>,
        service_public_key: PublicKey,
        service_secret_key: SecretKey,
    ) -> (r: Blockchain)
        requires
            ids_distinct(services@),
        ensures
            r.db() == storage,
            r.services().to_multiset() == services@.to_multiset(),
            ids_ascending(r.services()),
            r.keypair() == (service_public_key, service_secret_key),
    {
        let service_map = ServiceMap::new(services);
        proof {
            service_map.lemma_ascending();
        }
        Blockchain {
            db: storage,
            service_map,
            service_keypair: (service_public_key, service_secret_key),
        }
    }

    /// The services of the ledger, in ascending order of identifier.
    pub fn service_map(&self) -> (r: &ServiceMap)
        ensures
            r.entries() == self.services(),
    {
        &self.service_map
    }

    /// Copies the committed state into a read-only snapshot.
    pub fn snapshot(&self) -> (r: Snapshot)
        ensures
            r.schema_of()@ == self.db()@.schema,
            r.data_of()@ == self.db()@.data,
            r.caches_of()@ == self.db()@.caches,
    {
        self.db.snapshot()
    }

    /// Makes a fork of the committed state, whose patch `merge` can take.
    pub fn fork(&self) -> (r: Fork)
        ensures
            r@.base_version == self.db()@.version,
            r@.schema == self.db()@.schema,
            r@.data == self.db()@.data,
            r@.saved == self.db()@.data,
    {
        self.db.fork()
    }

    /// Makes the fork on which a block is built.
    fn fork_for_block(&self) -> (r: Fork)
        ensures
            r@ == (ForkView {
                base_version: self.db()@.version,
                schema: self.db()@.schema,
                data: self.db()@.data,
                saved: self.db()@.data,
            }),
            r.schema_of().aggregator_entries() == self.db().schema_of().aggregator_entries(),
    {
        self.db.fork()
    }

    /// Takes the changes of `patch` into the store, all at once. A patch
    /// that was made from another version of the store than the committed
    /// one is refused; the committed state then stays as it is.
    pub fn merge(&mut self, patch: Patch) -> (r: Result<(), StorageError>)
        ensures
            final(self).services() == old(self).services(),
            final(self).keypair() == old(self).keypair(),
            match r {
                Ok(_) => {
                    &&& patch@.base_version == old(self).db()@.version
                    &&& final(self).db()@.version == next_version(old(self).db()@.version)
                    &&& final(self).db()@.schema == patch@.schema
                    &&& final(self).db()@.data == patch@.data
                    &&& final(self).db()@.caches == old(self).db()@.caches
                    &&& final(self).db().schema_of() == patch.schema_of()
                },
                Err(e) => {
                    &&& e == StorageError::StalePatch
                    &&& patch@.base_version != old(self).db()@.version
                    &&& final(self).db() == old(self).db()
                },
            },
    {
        self.db.merge(patch)
    }

    /// Parses `raw` with the service that it names. Where no service has
    /// the identifier, the error says so; else the service decides.
    pub fn tx_from_raw(&self, raw: RawTransaction) -> (r: Result<Box<dyn Transaction>, Error>)
        ensures
            match r {
                Ok(_) => has_service(self.services(), raw@.service_id),
                Err(Error::UnknownService { service_id }) => service_id == raw@.service_id
                    && !has_service(self.services(), raw@.service_id),
                Err(Error::UnparseableTransaction { service_id, .. }) => service_id
                    == raw@.service_id && has_service(self.services(), raw@.service_id),
                Err(_) => false,
            },
    {
        let service_id = raw.service_id();
        match self.service_map.find(service_id) {
            None => Err(Error::UnknownService { service_id }),
            Some(i) => {
                let entry = self.service_map.get(i);
                parsed(service_id, entry.service().tx_from_raw(raw))
            },
        }
    }

    /// Returns the hash of the latest committed block, or the zero hash
    /// where no block is committed.
    pub fn last_hash(&self) -> (r: crypto::Hash)
        ensures
            r == self.db()@.schema.last_hash(),
    {
        self.db.schema().last_hash()
    }

    /// Returns the header of the latest committed block.
    pub fn last_block(&self) -> (r: Block)
        requires
            self.wf(),
            self.has_genesis(),
        ensures
            r == self.db()@.schema.blocks[self.db()@.schema.last_hash()],
    {
        self.db.schema().last_block()
    }

    /// Returns the number of transactions that wait in the pool.
    pub fn pool_size(&self) -> (r: u64)
        ensures
            self.db()@.schema.transactions_pool.dom().finite(),
            r == self.db()@.schema.transactions_pool.dom().len(),
    {
        self.db.schema().transactions_pool_len()
    }

    /// Maps the coordinates of a service table to the 32-byte key under
    /// which its root hash is aggregated: the hash of `service_id` and
    /// `table_idx`, each as two bytes, low byte first.
    pub fn service_table_unique_key(service_id: u16, table_idx: usize) -> (r: crypto::Hash)
        requires
            table_idx <= u16::MAX,
        ensures
            r == unique_key(service_id, table_idx as nat),
    {
        table_unique_key(service_id, table_idx)
    }

    /// Checks that `tx` is for a service of this ledger, and returns what is
    /// to be signed with the keys of the services and sent to the network.
    pub fn broadcast_raw_transaction(&self, tx: RawTransaction) -> (r: Result<
        BroadcastRequest,
        Error,
    >)
        ensures
            match r {
                Ok(request) => has_service(self.services(), tx@.service_id) && request.transaction
                    == tx && request.author == self.keypair().0,
                Err(e) => !has_service(self.services(), tx@.service_id) && e == (
                Error::UnknownService { service_id: tx@.service_id }),
            },
    {
        let service_id = tx.service_id();
        if !self.service_map.contains_key(service_id) {
            return Err(Error::UnknownService { service_id });
        }
        Ok(BroadcastRequest { author: self.service_keypair.0, transaction: tx })
    }

    /// Runs the transaction `tx_hash` as number `index` of the block at
    /// `height`, on `fork`.
    ///
    /// The envelope is looked for in the transactions of the blocks, in the
    /// pool and in `tx_cache`; the service that it names parses it; the
    /// transaction runs; `record_outcome` settles how it ended. A
    /// transaction that fails or ends unexpectedly leaves the data of the
    /// services as it was at the last savepoint, and its failure is
    /// recorded. A storage fault is handed up and never recorded.
    pub fn execute_transaction(
        &self,
        tx_hash: crypto::Hash,
        height: Height,
        index: usize,
        fork: &mut Fork,
        tx_cache: &mut TxCache,
    ) -> (r: Result<(), Error>)
        requires
            old(fork).wf(),
        ensures
            final(fork).wf(),
            final(fork)@.base_version == old(fork)@.base_version,
            match r {
                Ok(_) => {
                    &&& old(fork)@.schema.find_transaction(old(tx_cache)@, tx_hash) matches Some(
                        envelope,
                    )
                    &&& has_service(self.services(), envelope.raw.service_id)
                    &&& final(fork)@.schema.transaction_results.contains_key(tx_hash)
                    &&& final(fork)@.schema == old(fork)@.schema.with_transaction(
                        tx_hash,
                        envelope,
                        final(fork)@.schema.transaction_results[tx_hash],
                        height,
                        index as u64,
                    )
                    &&& !(final(fork)@.schema.transaction_results[tx_hash] is Success)
                        ==> final(fork)@.data == old(fork)@.saved
                    &&& final(fork).is_clean()
                    &&& final(fork).schema_of().aggregator_entries() == old(
                        fork,
                    ).schema_of().aggregator_entries()
                    &&& final(tx_cache)@ == old(tx_cache)@.remove(tx_hash)
                },
                Err(Error::MissingTransaction { tx_hash: missing }) => {
                    &&& missing == tx_hash
                    &&& old(fork)@.schema.find_transaction(old(tx_cache)@, tx_hash) is None
                    &&& *final(fork) == *old(fork)
                    &&& final(tx_cache)@ == old(tx_cache)@
                },
                Err(Error::UnknownService { service_id }) => {
                    &&& old(fork)@.schema.find_transaction(old(tx_cache)@, tx_hash) matches Some(
                        envelope,
                    )
                    &&& service_id == envelope.raw.service_id
                    &&& !has_service(self.services(), service_id)
                    &&& *final(fork) == *old(fork)
                    &&& final(tx_cache)@ == old(tx_cache)@
                },
                Err(Error::UnparseableTransaction { service_id, .. }) => {
                    &&& old(fork)@.schema.find_transaction(old(tx_cache)@, tx_hash) matches Some(
                        envelope,
                    )
                    &&& service_id == envelope.raw.service_id
                    &&& has_service(self.services(), service_id)
                    &&& *final(fork) == *old(fork)
                    &&& final(tx_cache)@ == old(tx_cache)@
                },
                Err(Error::Storage(e)) => {
                    &&& e is Fault
                    &&& old(fork)@.schema.find_transaction(old(tx_cache)@, tx_hash) matches Some(
                        envelope,
                    )
                    &&& has_service(self.services(), envelope.raw.service_id)
                    &&& final(fork).schema_of() == old(fork).schema_of()
                    &&& final(tx_cache)@ == old(tx_cache)@
                },
            },
    {
        let envelope = match get_tx(&tx_hash, fork.schema(), tx_cache) {
            Some(envelope) => envelope,
            None => {
                return Err(Error::MissingTransaction { tx_hash });
            },
        };
        let service_id = envelope.service_id();
        let service_name = match self.service_map.find(service_id) {
            Some(i) => self.service_map.get(i).service_name(),
            None => {
                return Err(Error::UnknownService { service_id });
            },
        };
        let tx = match self.tx_from_raw(envelope.raw.duplicate()) {
            Ok(tx) => tx,
            Err(e) => {
                return Err(e);
            },
        };
        let context = TransactionContext::new(service_id, service_name, tx_hash, envelope.author);
        let outcome = tx.execute(fork.data_mut(), &context);
        match record_outcome(fork, tx_cache, tx_hash, envelope, outcome, height, index) {
            Ok(_) => Ok(()),
            Err(e) => Err(Error::Storage(e)),
        }
    }

    /// Makes and commits the genesis block from the configuration `cfg`, if
    /// no block is committed yet; otherwise nothing changes. The store in
    /// memory refuses neither of the two patches of genesis, so that the
    /// call always succeeds.
    ///
    /// Two services must not have the same name.
    pub fn initialize<C, L, M>(
        &mut self,
        cfg: GenesisConfig,
        core_roots: C,
        list_root: L,
        map_root: M,
    ) -> (r: Result<(), Error>) where
        C: Fn(&Schema) -> Vec<crypto::Hash>,
        L: Fn(&Vec<crypto::Hash>) -> crypto::Hash,
        M: Fn(&Vec<(crypto::Hash, crypto::Hash)>) -> crypto::Hash,

        requires
            old(self).wf(),
            names_distinct(old(self).services()),
            forall|schema: &Schema| call_requires(core_roots, (schema,)),
            forall|schema: &Schema, roots: Vec<crypto::Hash>|
                call_ensures(core_roots, (schema,), roots) ==> roots@.len() <= MAX_TABLES,
            forall|items: &Vec<crypto::Hash>| call_requires(list_root, (items,)),
            forall|entries: &Vec<(crypto::Hash, crypto::Hash)>| call_requires(map_root, (entries,)),
        ensures
            final(self).services() == old(self).services(),
            final(self).keypair() == old(self).keypair(),
            r is Ok,
            old(self).has_genesis() ==> final(self).db() == old(self).db(),
            !old(self).has_genesis() ==> is_genesis(
                old(self).db()@,
                old(self).services(),
                cfg,
                list_root,
                map_root,
                final(self).db(),
            ),
    {
        let has_genesis_block = !self.db.schema().block_hashes_by_height().is_empty();
        if !has_genesis_block {
            self.create_genesis_block(cfg, core_roots, list_root, map_root)
        } else {
            Ok(())
        }
    }

    /// Makes and commits the genesis block from the configuration `cfg`.
    ///
    /// Every service prepares its tables on a fork and returns its initial
    /// configuration, which is stored under the name of the service. If a
    /// block is already committed, nothing else is done. Else the
    /// configuration is committed and merged; then the block at height zero
    /// is built without transactions, for the first validator, and merged.
    fn create_genesis_block<C, L, M>(
        &mut self,
        cfg: GenesisConfig,
        core_roots: C,
        list_root: L,
        map_root: M,
    ) -> (r: Result<(), Error>) where
        C: Fn(&Schema) -> Vec<crypto::Hash>,
        L: Fn(&Vec<crypto::Hash>) -> crypto::Hash,
        M: Fn(&Vec<(crypto::Hash, crypto::Hash)>) -> crypto::Hash,

        requires
            old(self).wf(),
            names_distinct(old(self).services()),
            forall|schema: &Schema| call_requires(core_roots, (schema,)),
            forall|schema: &Schema, roots: Vec<crypto::Hash>|
                call_ensures(core_roots, (schema,), roots) ==> roots@.len() <= MAX_TABLES,
            forall|items: &Vec<crypto::Hash>| call_requires(list_root, (items,)),
            forall|entries: &Vec<(crypto::Hash, crypto::Hash)>| call_requires(map_root, (entries,)),
        ensures
            final(self).services() == old(self).services(),
            final(self).keypair() == old(self).keypair(),
            r is Ok,
            old(self).has_genesis() ==> final(self).db() == old(self).db(),
            !old(self).has_genesis() ==> is_genesis(
                old(self).db()@,
                old(self).services(),
                cfg,
                list_root,
                map_root,
                final(self).db(),
            ),
    {
        let ghost before = self.db()@;
        let mut fork = self.fork_for_block();

        // Let each service prepare its tables.
        let mut services: Vec<ServiceConfig> = Vec::new();
        let mut i: usize = 0;
        while i < self.service_map.len()
            invariant
                0 <= i <= self.service_map.entries().len(),
                self.services() == self.service_map.entries(),
                fork.wf(),
                fork@.base_version == before.version,
                fork@.schema == before.schema,
                services@.len() == i,
                forall|j: int|
                    0 <= j < i ==> (#[trigger] services@[j]).name@ == self.services()[j].name(),
            decreases self.service_map.entries().len() - i,
        {
            let entry = self.service_map.get(i);
            let config = entry.service().initialize(fork.data_mut());
            let name = entry.service_name();
            services.push(ServiceConfig { name, config });
            i += 1;
        }

        if fork.schema().block_hash_by_height(Height::zero()).is_some() {
            return Ok(());
        }
        // Commit the configuration.
        let config = StoredConfiguration {
            previous_cfg_hash: crypto::Hash::zero(),
            actual_from: Height::zero(),
            validator_keys: cfg.validator_keys,
            consensus: cfg.consensus,
            services,
        };
        fork.schema_mut().commit_configuration(config);
        match self.merge(fork.into_patch()) {
            Ok(_) => {},
            Err(e) => {
                // The fork was made from the committed state.
                return vstd::pervasive::unreached();
            },
        }
        let ghost configured = self.db()@.schema;

        // Build and commit the block at height zero.
        let mut tx_cache = TxCache::new();
        let no_transactions: Vec<crypto::Hash> = Vec::new();
        let (block_hash, patch) = match self.create_patch(
            ValidatorId::zero(),
            Height::zero(),
            no_transactions.as_slice(),
            &mut tx_cache,
            core_roots,
            list_root,
            map_root,
        ) {
            Ok(built) => built,
            Err(e) => {
                return vstd::pervasive::unreached();
            },
        };
        proof {
            lemma_built_block(
                configured,
                Map::<crypto::Hash, SignedTransactionView>::empty(),
                self.service_ids(),
                ValidatorId(0),
                Height(0),
                Seq::<crypto::Hash>::empty(),
                block_hash,
                patch@.schema,
            );
        }
        match self.merge(patch) {
            Ok(_) => Ok(()),
            Err(e) => {
                // The patch was built on the committed state.
                vstd::pervasive::unreached()
            },
        }
    }

    /// Tells whether every transaction of `tx_hashes` can be dispatched:
    /// whether a block of them can be built.
    pub fn can_dispatch_all(&self, tx_hashes: &[crypto::Hash], tx_cache: &TxCache) -> (r: bool)
        ensures
            r == forall|i: int|
                0 <= i < tx_hashes@.len() ==> self.can_dispatch(
                    tx_cache@,
                    #[trigger] tx_hashes@[i],
                ),
    {
        let mut index: usize = 0;
        while index < tx_hashes.len()
            invariant
                0 <= index <= tx_hashes@.len(),
                forall|i: int|
                    0 <= i < index ==> self.can_dispatch(tx_cache@, #[trigger] tx_hashes@[i]),
            decreases tx_hashes@.len() - index,
        {
            let dispatched = match get_tx(&tx_hashes[index], self.db.schema(), tx_cache) {
                Some(envelope) => self.service_map.contains_key(envelope.service_id()),
                None => false,
            };
            if !dispatched {
                return false;
            }
            index += 1;
        }
        true
    }

    /// The identifiers of the services, in ascending order.
    pub open spec fn service_ids(&self) -> Seq<u16> {
        Seq::new(self.services().len(), |i: int| self.services()[i].id())
    }

    /// Runs the transactions `tx_hashes` in their order on a fork of the
    /// committed state, as the block at `height` proposed by `proposer_id`,
    /// and returns the hash of the new block with the patch that holds it.
    /// Nothing is merged.
    ///
    /// After the transactions, the hook of each service runs in ascending
    /// order of identifier, unless the block is the genesis block. Then the
    /// root hashes that enter the state hash are put into the aggregator:
    /// those that `core_roots` returns for the tables of the core, under
    /// the identifier of the core, then those of each service in ascending
    /// order of identifier. `map_root` computes the state hash from the
    /// entries of the aggregator in ascending order of key, and `list_root`
    /// the hash of the transactions of the block.
    ///
    /// Every transaction must be one that can be dispatched: a hash whose
    /// envelope is not found, or that names no service, is a fault of the
    /// caller. Where a service refuses the payload of a transaction, or the
    /// store fails under a transaction or a hook, the error is handed up
    /// and no patch is made.
    pub fn create_patch<C, L, M>(
        &self,
        proposer_id: ValidatorId,
        height: Height,
        tx_hashes: &[crypto::Hash],
        tx_cache: &mut TxCache,
        core_roots: C,
        list_root: L,
        map_root: M,
    ) -> (r: Result<(crypto::Hash, Patch), Error>) where
        C: Fn(&Schema) -> Vec<crypto::Hash>,
        L: Fn(&Vec<crypto::Hash>) -> crypto::Hash,
        M: Fn(&Vec<(crypto::Hash, crypto::Hash)>) -> crypto::Hash,

        requires
            self.wf(),
            tx_hashes@.len() <= u32::MAX,
            forall|i: int|
                0 <= i < tx_hashes@.len() ==> self.can_dispatch(
                    old(tx_cache)@,
                    #[trigger] tx_hashes@[i],
                ),
            forall|schema: &Schema| call_requires(core_roots, (schema,)),
            forall|schema: &Schema, roots: Vec<crypto::Hash>|
                call_ensures(core_roots, (schema,), roots) ==> roots@.len() <= MAX_TABLES,
            forall|items: &Vec<crypto::Hash>| call_requires(list_root, (items,)),
            forall|entries: &Vec<(crypto::Hash, crypto::Hash)>| call_requires(map_root, (entries,)),
        ensures
            (tx_hashes@.len() == 0 && (height.0 == 0 || self.services().len() == 0)) ==> r is Ok,
            match r {
                Ok((block_hash, patch)) => {
                    &&& patch.wf()
                    &&& patch@.base_version == self.db()@.version
                    &&& is_built_block(
                        self.db()@.schema,
                        old(tx_cache)@,
                        self.service_ids(),
                        proposer_id,
                        height,
                        tx_hashes@,
                        block_hash,
                        patch@.schema,
                    )
                    &&& is_list_root(
                        list_root,
                        patch@.schema.transactions_at(height),
                        patch@.schema.blocks[block_hash].tx_hash,
                    )
                    &&& is_map_root(
                        map_root,
                        patch.schema_of().aggregator_entries(),
                        patch@.schema.blocks[block_hash].state_hash,
                    )
                    &&& final(tx_cache)@ == cache_without(old(tx_cache)@, tx_hashes@)
                },
                Err(Error::Storage(e)) => e is Fault && is_partly_drained(
                    old(tx_cache)@,
                    tx_hashes@,
                    final(tx_cache)@,
                ),
                Err(Error::UnparseableTransaction { .. }) => tx_hashes@.len() > 0
                    && is_partly_drained(old(tx_cache)@, tx_hashes@, final(tx_cache)@),
                Err(_) => false,
            },
    {
        let mut fork = self.fork_for_block();
        let last_hash = self.last_hash();
        let ghost start = self.db()@.schema;
        let ghost held = tx_cache@;
        let ghost ids = self.service_ids();
        let ghost mut results: Seq<TransactionResultView> = Seq::empty();

        // Save and run the transactions.
        let mut index: usize = 0;
        while index < tx_hashes.len()
            invariant
                0 <= index <= tx_hashes@.len(),
                start.wf(),
                held == old(tx_cache)@,
                forall|i: int|
                    0 <= i < tx_hashes@.len() ==> self.can_dispatch(held, #[trigger] tx_hashes@[i]),
                fork.wf(),
                fork@.base_version == self.db()@.version,
                start == self.db()@.schema,
                results.len() == index,
                fork@.schema == with_transactions(
                    start,
                    held,
                    tx_hashes@.subrange(0, index as int),
                    results,
                    height,
                ),
                tx_cache@ == cache_without(held, tx_hashes@.subrange(0, index as int)),
                fork.schema_of().aggregator_entries()
                    == self.db().schema_of().aggregator_entries(),
            decreases tx_hashes@.len() - index,
        {
            let tx_hash = tx_hashes[index];
            let ghost done = tx_hashes@.subrange(0, index as int);
            proof {
                assert forall|i: int| 0 <= i < done.len() implies start.find_transaction(
                    held,
                    #[trigger] done[i],
                ) is Some by {
                    assert(self.can_dispatch(held, tx_hashes@[i]));
                }
                lemma_find_transaction_stable(start, held, done, results, height, tx_hash);
            }
            match self.execute_transaction(tx_hash, height, index, &mut fork, tx_cache) {
                Ok(_) => {},
                Err(Error::Storage(e)) => {
                    return Err(Error::Storage(e));
                },
                Err(Error::UnparseableTransaction { service_id, description }) => {
                    return Err(Error::UnparseableTransaction { service_id, description });
                },
                Err(_) => {
                    // The envelope is found and names a service.
                    assert(false);
                    return vstd::pervasive::unreached();
                },
            }
            proof {
                let result = fork@.schema.transaction_results[tx_hash];
                let next = tx_hashes@.subrange(0, index + 1);
                let results_before = results;
                results = results.push(result);
                assert(next.drop_last() =~= done);
                assert(results.drop_last() =~= results_before);
                lemma_cache_without_push(held, done, tx_hash);
            }
            index += 1;
        }
        assert(tx_hashes@.subrange(0, tx_hashes@.len() as int) =~= tx_hashes@);
        proof {
            lemma_with_transactions(start, held, tx_hashes@, results, height);
        }
        let ghost after_txs = fork@.schema;
        assert(is_partly_drained(held, tx_hashes@, tx_cache@)) by {
            assert(tx_cache@ == cache_without(
                held,
                tx_hashes@.subrange(0, tx_hashes@.len() as int),
            ));
        }

        // Run the hook of each service, but not for the genesis block.
        let mut i: usize = 0;
        while i < self.service_map.len()
            invariant
                0 <= i <= self.service_map.entries().len(),
                held == old(tx_cache)@,
                is_partly_drained(held, tx_hashes@, tx_cache@),
                fork.wf(),
                fork@.base_version == self.db()@.version,
                fork@.schema == after_txs,
                fork.schema_of().aggregator_entries()
                    == self.db().schema_of().aggregator_entries(),
            decreases self.service_map.entries().len() - i,
        {
            if height.0 > 0 {
                match before_commit(self.service_map.get(i).service(), &mut fork) {
                    Ok(_) => {},
                    Err(e) => {
                        return Err(Error::Storage(e));
                    },
                }
            }
            i += 1;
        }

        // Put the root hashes into the aggregator.
        let core = core_roots(fork.schema());
        let ghost core_view = core@;
        fork.schema_mut().aggregate_table_roots(CORE_SERVICE, &core);
        let ghost with_core = put_all(start.state_hash_aggregator, table_entries(CORE_SERVICE, core_view));
        let ghost mut roots: Seq<Seq<crypto::Hash>> = Seq::empty();
        let mut k: usize = 0;
        while k < self.service_map.len()
            invariant
                0 <= k <= self.service_map.entries().len(),
                ids == self.service_ids(),
                self.services() == self.service_map.entries(),
                fork.wf(),
                fork@.base_version == self.db()@.version,
                roots.len() == k,
                fork@.schema == (SchemaView {
                    state_hash_aggregator: put_services(
                        with_core,
                        ids.subrange(0, k as int),
                        roots,
                    ),
                    ..after_txs
                }),
            decreases self.service_map.entries().len() - k,
        {
            let entry = self.service_map.get(k);
            let service_id = entry.service_id();
            let service_roots = entry.service().state_hash(fork.data());
            fork.schema_mut().aggregate_table_roots(service_id, &service_roots);
            proof {
                let roots_before = roots;
                roots = roots.push(service_roots@);
                let next = ids.subrange(0, k + 1);
                assert(next.drop_last() =~= ids.subrange(0, k as int));
                assert(roots.drop_last() =~= roots_before);
            }
            k += 1;
        }
        assert(ids.subrange(0, ids.len() as int) =~= ids);

        // Compute the hashes of the state and of the transactions.
        let (tx_hash, state_hash) = {
            let schema = fork.schema();
            let state_hash = map_root(schema.state_hash_aggregator().to_vec());
            let transactions = schema.block_transactions(height);
            let items = transactions.as_vec();
            assert(items@ =~= transactions@);
            let tx_hash = list_root(items);
            (tx_hash, state_hash)
        };

        // Make the block, and store it under its hash.
        let block = Block::new(
            proposer_id,
            height,
            tx_hashes.len() as u32,
            &last_hash,
            &tx_hash,
            &state_hash,
        );
        let block_hash = block.hash();
        let ghost aggregated = fork@.schema;
        fork.schema_mut().push_block(block_hash, block);
        proof {
            assert(is_built_block(
                start,
                held,
                ids,
                proposer_id,
                height,
                tx_hashes@,
                block_hash,
                fork@.schema,
            )) by {
                assert(is_aggregated(start, held, ids, height, tx_hashes@, aggregated)) by {
                    assert(aggregated == (SchemaView {
                        state_hash_aggregator: put_services(
                            put_all(start.state_hash_aggregator, table_entries(CORE_SERVICE, core_view)),
                            ids,
                            roots,
                        ),
                        ..with_transactions(start, held, tx_hashes@, results, height)
                    }));
                }
            }
        }
        Ok((block_hash, fork.into_patch()))
    }

    /// Commits the block `block_hash` that `patch` holds, with the
    /// precommits `precommits`, and then runs the hook of each service in
    /// ascending order of identifier. Returns the transactions that the
    /// hooks handed to the sink, to be signed and sent.
    ///
    /// The precommits are appended to those of the block, the consensus
    /// messages of the height are forgotten, the number of transactions of
    /// the block is added to the count, and every transaction of `tx_cache`
    /// that does not stand in a block moves to the pool. Where the store
    /// refuses the patch, the committed state stays as it is and no hook
    /// runs.
    pub fn commit(
        &mut self,
        patch: Patch,
        block_hash: crypto::Hash,
        precommits: Vec<SignedMessage>,
        tx_cache: &mut TxCache,
    ) -> (r: Result<Vec<BroadcastRequest>, Error>)
        requires
            patch.wf(),
            patch@.schema.block_hashes_by_height.len() > 0,
            patch@.schema.transaction_count + patch@.schema.blocks[patch@.schema.last_hash()].tx_count
                <= u64::MAX,
        ensures
            final(self).services() == old(self).services(),
            final(self).keypair() == old(self).keypair(),
            final(tx_cache)@ == Map::<crypto::Hash, SignedTransactionView>::empty(),
            match r {
                Ok(requests) => {
                    &&& forall|i: int|
                        0 <= i < requests@.len() ==> (#[trigger] requests@[i]).author
                            == old(self).keypair().0
                    &&& patch@.base_version == old(self).db()@.version
                    &&& final(self).db()@.version == next_version(old(self).db()@.version)
                    &&& final(self).db()@.schema == patch@.schema.committed(
                        block_hash,
                        items_view(precommits@),
                        old(tx_cache)@,
                    )
                    &&& final(self).db()@.data == patch@.data
                    &&& final(self).db()@.caches == (CachesView {
                        consensus_messages_cache: Seq::<Seq<u8>>::empty(),
                        ..old(self).db()@.caches
                    })
                    &&& final(self).wf()
                },
                Err(e) => {
                    &&& e == Error::Storage(StorageError::StalePatch)
                    &&& patch@.base_version != old(self).db()@.version
                    &&& final(self).db() == old(self).db()
                },
            },
    {
        let ghost held = tx_cache@;
        let ghost sealed = patch@.schema;
        let mut fork = patch.into_fork();
        fork.schema_mut().add_precommits(block_hash, precommits);
        let txs_in_block = fork.schema().last_block().tx_count();
        fork.schema_mut().update_transaction_count(txs_in_block as u64);
        let ghost counted = fork@.schema;

        // Move what is left in the cache into the pool.
        assert(fork@.schema.transactions_pool =~= drain_step(counted, held, tx_cache@));
        loop
            invariant
                fork.wf(),
                fork@.base_version == patch@.base_version,
                fork@.data == patch@.data,
                counted.transactions == sealed.transactions,
                counted.transactions_pool == sealed.transactions_pool,
                forall|k: crypto::Hash| #[trigger]
                    tx_cache@.contains_key(k) ==> held.contains_key(k) && held[k]
                        == tx_cache@[k],
                fork@.schema == (SchemaView {
                    transactions_pool: drain_step(counted, held, tx_cache@),
                    ..counted
                }),
            ensures
                tx_cache@ == Map::<crypto::Hash, SignedTransactionView>::empty(),
                fork.wf(),
                fork@.base_version == patch@.base_version,
                fork@.data == patch@.data,
                fork@.schema == (SchemaView {
                    transactions_pool: drain_step(counted, held, tx_cache@),
                    ..counted
                }),
            decreases tx_cache.count(),
        {
            let ghost cache_before = tx_cache@;
            let ghost pool_before = fork@.schema.transactions_pool;
            match tx_cache.pop() {
                None => {
                    break ;
                },
                Some((tx_hash, tx)) => {
                    if !fork.schema().transactions().contains(&tx_hash) {
                        fork.schema_mut().add_transaction_into_pool(tx_hash, tx);
                    }
                    proof {
                        assert(fork@.schema.transactions_pool =~= drain_step(counted, held, tx_cache@))
                            by {
                            assert forall|k: crypto::Hash|
                                fork@.schema.transactions_pool.contains_key(k) <==> drain_step(
                                    counted,
                                    held,
                                    tx_cache@,
                                ).contains_key(k) by {
                                if k != tx_hash {
                                    assert(pool_before.contains_key(k) == drain_step(
                                        counted,
                                        held,
                                        cache_before,
                                    ).contains_key(k));
                                }
                            }
                        }
                    }
                },
            }
        }
        assert(drain_step(counted, held, tx_cache@) =~= sealed.drained_pool(held));

        match self.merge(fork.into_patch()) {
            Ok(_) => {},
            Err(e) => {
                return Err(Error::Storage(e));
            },
        }
        self.db.caches_mut().clear_messages();

        // Run the hook of each service, in ascending order of identifier.
        let mut requests: Vec<BroadcastRequest> = Vec::new();
        let mut i: usize = 0;
        while i < self.service_map.len()
            invariant
                0 <= i <= self.service_map.entries().len(),
                forall|x: int|
                    0 <= x < requests@.len() ==> (#[trigger] requests@[x]).author
                        == self.service_keypair.0,
            decreases self.service_map.entries().len() - i,
        {
            let entry = self.service_map.get(i);
            let mut context = ServiceContext::new(
                self.service_keypair.0,
                self.service_keypair.1,
                self.db.fork(),
                entry.service_id(),
            );
            entry.service().after_commit(&mut context);
            let mut outbox = context.take_outbox();
            let mut j: usize = 0;
            while j < outbox.len()
                invariant
                    0 <= j <= outbox@.len(),
                    forall|x: int|
                        0 <= x < requests@.len() ==> (#[trigger] requests@[x]).author
                            == self.service_keypair.0,
                decreases outbox@.len() - j,
            {
                let transaction = outbox[j].duplicate();
                requests.push(BroadcastRequest { author: self.service_keypair.0, transaction });
                j += 1;
            }
            i += 1;
        }
        Ok(requests)
    }

    /// Saves the connect message `peer` of the peer `pubkey` to the cache.
    pub fn save_peer(&mut self, pubkey: &PublicKey, peer: SignedMessage)
        ensures
            final(self).db()@.caches.peers_cache == old(self).db()@.caches.peers_cache.insert(
                *pubkey,
                peer@,
            ),
            final(self).db()@.caches.consensus_messages_cache
                == old(self).db()@.caches.consensus_messages_cache,
            final(self).db()@.caches.consensus_round == old(self).db()@.caches.consensus_round,
            final(self).db().schema_of() == old(self).db().schema_of(),
            final(self).db().data_of() == old(self).db().data_of(),
            final(self).db().version() == old(self).db().version(),
            final(self).services() == old(self).services(),
            final(self).keypair() == old(self).keypair(),
    {
        let caches = self.db.caches_mut();
        caches.put_peer(*pubkey, peer);
    }

    /// Removes the connect message of the peer `key` from the cache.
    pub fn remove_peer_with_pubkey(&mut self, key: &PublicKey)
        ensures
            final(self).db()@.caches.peers_cache == old(self).db()@.caches.peers_cache.remove(*key),
            final(self).db()@.caches.consensus_messages_cache
                == old(self).db()@.caches.consensus_messages_cache,
            final(self).db()@.caches.consensus_round == old(self).db()@.caches.consensus_round,
            final(self).db().schema_of() == old(self).db().schema_of(),
            final(self).db().data_of() == old(self).db().data_of(),
            final(self).db().version() == old(self).db().version(),
            final(self).services() == old(self).services(),
            final(self).keypair() == old(self).keypair(),
    {
        let caches = self.db.caches_mut();
        caches.remove_peer(key);
    }

    /// Returns the connect messages of the peers in the cache, each peer
    /// once.
    pub fn get_saved_peers(&self) -> (r: Vec<(PublicKey, SignedMessage)>)
        ensures
            keys_distinct(r@),
            entries_map(r@) == self.db()@.caches.peers_cache,
    {
        self.db.caches().peers_cache().to_vec()
    }

    /// Saves the consensus message `raw` to the cache and sets the round.
    pub fn save_message(&mut self, round: Round, raw: SignedMessage)
        ensures
            final(self).db()@.caches.consensus_messages_cache
                == old(self).db()@.caches.consensus_messages_cache.push(raw@),
            final(self).db()@.caches.consensus_round == round,
            final(self).db()@.caches.peers_cache == old(self).db()@.caches.peers_cache,
            final(self).db().schema_of() == old(self).db().schema_of(),
            final(self).db().data_of() == old(self).db().data_of(),
            final(self).db().version() == old(self).db().version(),
            final(self).services() == old(self).services(),
            final(self).keypair() == old(self).keypair(),
    {
        let mut messages: Vec<SignedMessage> = Vec::new();
        messages.push(raw);
        self.save_messages(round, messages);
    }

    /// Saves the consensus messages `messages` to the cache, in their
    /// order, and sets the round.
    pub fn save_messages(&mut self, round: Round, messages: Vec<SignedMessage>)
        ensures
            final(self).db()@.caches.consensus_messages_cache
                == old(self).db()@.caches.consensus_messages_cache + items_view(
                messages@,
            ),
            final(self).db()@.caches.consensus_round == round,
            final(self).db()@.caches.peers_cache == old(self).db()@.caches.peers_cache,
            final(self).db().schema_of() == old(self).db().schema_of(),
            final(self).db().data_of() == old(self).db().data_of(),
            final(self).db().version() == old(self).db().version(),
            final(self).services() == old(self).services(),
            final(self).keypair() == old(self).keypair(),
    {
        let caches = self.db.caches_mut();
        caches.add_messages(round, messages);
    }
}

/// `root` is what `list_root` returned for the items `items`.
pub open spec fn is_list_root<L: Fn(&Vec<crypto::Hash>) -> crypto::Hash>(
    list_root: L,
    items: Seq<crypto::Hash>,
    root: crypto::Hash,
) -> bool {
    exists|v: Vec<crypto::Hash>| v@ == items && call_ensures(list_root, (&v,), root)
}

/// `root` is what `map_root` returned for the entries `entries`.
pub open spec fn is_map_root<M: Fn(&Vec<(crypto::Hash, crypto::Hash)>) -> crypto::Hash>(
    map_root: M,
    entries: Seq<(crypto::Hash, crypto::Hash)>,
    root: crypto::Hash,
) -> bool {
    exists|v: Vec<(crypto::Hash, crypto::Hash)>|
        v@ == entries && call_ensures(map_root, (&v,), root)
}

/// `t` is what the tables `s` become when the transactions `tx_hashes` are
/// run at `height` and the root hashes of the core and of the services
/// with the identifiers `ids` are put into the aggregator: for some results
/// of the transactions and some root hashes, one list for the core and one
/// for each service.
pub open spec fn is_aggregated(
    s: SchemaView,
    cache: Map<crypto::Hash, SignedTransactionView>,
    ids: Seq<u16>,
    height: Height,
    tx_hashes: Seq<crypto::Hash>,
    t: SchemaView,
) -> bool {
    exists|
        results: Seq<TransactionResultView>,
        core: Seq<crypto::Hash>,
        roots: Seq<Seq<crypto::Hash>>,
    |
        #![trigger with_transactions(s, cache, tx_hashes, results, height), put_services(put_all(s.state_hash_aggregator, table_entries(CORE_SERVICE, core)), ids, roots)]
        results.len() == tx_hashes.len() && roots.len() == ids.len() && t == (SchemaView {
            state_hash_aggregator: put_services(
                put_all(s.state_hash_aggregator, table_entries(CORE_SERVICE, core)),
                ids,
                roots,
            ),
            ..with_transactions(s, cache, tx_hashes, results, height)
        })
}

/// `t` is what the tables `s` become when the block of the transactions
/// `tx_hashes` is built at `height` for the proposer `proposer_id`: the
/// transactions are run, the aggregator is filled, and the header of the
/// block is appended under its hash `block_hash`. The header names the
/// proposer, the height, the number of transactions and the hash of the
/// block before it.
pub open spec fn is_built_block(
    s: SchemaView,
    cache: Map<crypto::Hash, SignedTransactionView>,
    ids: Seq<u16>,
    proposer_id: ValidatorId,
    height: Height,
    tx_hashes: Seq<crypto::Hash>,
    block_hash: crypto::Hash,
    t: SchemaView,
) -> bool {
    exists|aggregated: SchemaView, block: Block|
        #![trigger aggregated.with_block(block_hash, block)]
        {
            &&& is_aggregated(s, cache, ids, height, tx_hashes, aggregated)
            &&& t == aggregated.with_block(block_hash, block)
            &&& block_hash == block.hash_spec()
            &&& block.proposer_id == proposer_id
            &&& block.height == height
            &&& block.tx_count == tx_hashes.len()
            &&& block.prev_hash == s.last_hash()
        }
}

/// The pool while the cache is drained into it: `cache` is what the cache
/// held at the start and `left` what it still holds.
pub open spec fn drain_step(
    s: SchemaView,
    cache: Map<crypto::Hash, SignedTransactionView>,
    left: Map<crypto::Hash, SignedTransactionView>,
) -> Map<crypto::Hash, SignedTransactionView> {
    Map::new(
        |k: crypto::Hash|
            s.transactions_pool.contains_key(k) || (cache.contains_key(k) && !left.contains_key(k)
                && !s.transactions.contains_key(k)),
        |k: crypto::Hash|
            if s.transactions_pool.contains_key(k) {
                s.transactions_pool[k]
            } else {
                cache[k]
            },
    )
}

/// `config` is the first configuration that genesis stores for `cfg` and
/// the services `services`: it replaces none, holds from height zero, keeps
/// the validators and the parameters of `cfg`, and names each service in
/// order with the configuration that its initialization returned.
pub open spec fn is_genesis_config(
    config: StoredConfigurationView,
    cfg: GenesisConfig,
    services: Seq<ServiceEntry>,
) -> bool {
    &&& config.previous_cfg_hash == crypto::zero_hash()
    &&& config.actual_from == Height(0)
    &&& config.validator_keys == cfg.validator_keys@
    &&& config.consensus == cfg.consensus
    &&& config.services.len() == services.len()
    &&& forall|i: int|
        0 <= i < services.len() ==> (#[trigger] config.services[i]).0 == services[i].name()
}

/// `after` is the store that genesis makes of the store `before`: the first
/// configuration is appended to the history, and the block at height zero
/// is built on it without transactions, for the first validator. The store
/// has then taken two patches; its caches are as they were.
pub open spec fn is_genesis<
    L: Fn(&Vec<crypto::Hash>) -> crypto::Hash,
    M: Fn(&Vec<(crypto::Hash, crypto::Hash)>) -> crypto::Hash,
>(
    before: DatabaseView,
    services: Seq<ServiceEntry>,
    cfg: GenesisConfig,
    list_root: L,
    map_root: M,
    after: Database,
) -> bool {
    &&& after.wf()
    &&& after@.version == next_version(next_version(before.version))
    &&& after@.caches == before.caches
    &&& after@.schema.block_hashes_by_height.len() == 1
    &&& exists|config: StoredConfigurationView|
        #![trigger before.schema.configs.push(config)]
        {
            &&& is_genesis_config(config, cfg, services)
            &&& is_built_block(
                SchemaView { configs: before.schema.configs.push(config), ..before.schema },
                Map::<crypto::Hash, SignedTransactionView>::empty(),
                Seq::new(services.len(), |i: int| services[i].id()),
                ValidatorId(0),
                Height(0),
                Seq::<crypto::Hash>::empty(),
                after@.schema.last_hash(),
                after@.schema,
            )
        }
    &&& is_list_root(
        list_root,
        after@.schema.transactions_at(Height(0)),
        after@.schema.blocks[after@.schema.last_hash()].tx_hash,
    )
    &&& is_map_root(
        map_root,
        after.schema_of().aggregator_entries(),
        after@.schema.blocks[after@.schema.last_hash()].state_hash,
    )
}

/// What a built block leaves of the tables: the block is appended to the
/// chain under its hash, the tables stay well formed, and nothing but the
/// blocks, the transactions and the aggregator has changed.
pub proof fn lemma_built_block(
    s: SchemaView,
    cache: Map<crypto::Hash, SignedTransactionView>,
    ids: Seq<u16>,
    proposer_id: ValidatorId,
    height: Height,
    tx_hashes: Seq<crypto::Hash>,
    block_hash: crypto::Hash,
    t: SchemaView,
)
    requires
        s.wf(),
        is_built_block(s, cache, ids, proposer_id, height, tx_hashes, block_hash, t),
    ensures
        t.wf(),
        t.block_hashes_by_height == s.block_hashes_by_height.push(block_hash),
        t.last_hash() == block_hash,
        t.blocks.contains_key(block_hash),
        t.blocks[block_hash].hash_spec() == block_hash,
        t.blocks[block_hash].proposer_id == proposer_id,
        t.blocks[block_hash].height == height,
        t.blocks[block_hash].tx_count == tx_hashes.len(),
        t.blocks[block_hash].prev_hash == s.last_hash(),
        forall|h: crypto::Hash| h != block_hash ==> (t.blocks.contains_key(h)
            == s.blocks.contains_key(h) && t.blocks[h] == s.blocks[h]),
        t.transactions_at(height) == s.transactions_at(height) + tx_hashes,
        forall|h: Height| h != height ==> t.transactions_at(h) == s.transactions_at(h),
        forall|i: int| 0 <= i < tx_hashes.len() ==> t.is_recorded(#[trigger] tx_hashes[i]),
        forall|i: int|
            0 <= i < tx_hashes.len() ==> !t.transactions_pool.contains_key(#[trigger] tx_hashes[i]),
        t.precommits == s.precommits,
        t.configs == s.configs,
        t.transaction_count == s.transaction_count,
{
    let (aggregated, block) = choose|aggregated: SchemaView, block: Block|
        #![trigger aggregated.with_block(block_hash, block)]
        {
            &&& is_aggregated(s, cache, ids, height, tx_hashes, aggregated)
            &&& t == aggregated.with_block(block_hash, block)
            &&& block_hash == block.hash_spec()
            &&& block.proposer_id == proposer_id
            &&& block.height == height
            &&& block.tx_count == tx_hashes.len()
            &&& block.prev_hash == s.last_hash()
        };
    let (results, core, roots) = choose|
        results: Seq<TransactionResultView>,
        core: Seq<crypto::Hash>,
        roots: Seq<Seq<crypto::Hash>>,
    |
        #![trigger with_transactions(s, cache, tx_hashes, results, height), put_services(put_all(s.state_hash_aggregator, table_entries(CORE_SERVICE, core)), ids, roots)]
        results.len() == tx_hashes.len() && roots.len() == ids.len() && aggregated == (SchemaView {
            state_hash_aggregator: put_services(
                put_all(s.state_hash_aggregator, table_entries(CORE_SERVICE, core)),
                ids,
                roots,
            ),
            ..with_transactions(s, cache, tx_hashes, results, height)
        });
    let run = with_transactions(s, cache, tx_hashes, results, height);
    lemma_with_transactions(s, cache, tx_hashes, results, height);
    lemma_wf_frame(run, aggregated);
    assert(t.wf()) by {
        assert forall|i: int| 0 <= i < t.block_hashes_by_height.len() implies t.blocks.contains_key(
            #[trigger] t.block_hashes_by_height[i],
        ) by {
            if i < aggregated.block_hashes_by_height.len() {
                assert(aggregated.blocks.contains_key(aggregated.block_hashes_by_height[i]));
            }
        }
        assert forall|h: Height, i: int|
            t.block_transactions.contains_key(h) && 0 <= i < t.block_transactions[h].len()
            implies t.is_recorded(#[trigger] t.block_transactions[h][i]) by {
            assert(aggregated.is_recorded(aggregated.block_transactions[h][i]));
        }
        assert forall|k: crypto::Hash|
            !(#[trigger] t.transactions_pool.contains_key(k) && t.transactions.contains_key(k)) by {
            assert(!(aggregated.transactions_pool.contains_key(k)
                && aggregated.transactions.contains_key(k)));
        }
    }
    assert forall|h: Height| h != height implies t.transactions_at(h) == s.transactions_at(h) by {
        assert(run.transactions_at(h) == s.transactions_at(h));
    }
    assert forall|i: int| 0 <= i < tx_hashes.len() implies t.is_recorded(#[trigger] tx_hashes[i])
        && !t.transactions_pool.contains_key(tx_hashes[i]) by {
        assert(!run.transactions_pool.contains_key(tx_hashes[i]));
    }
}

/// Turns what the service `service_id` made of a payload into the result
/// of the ledger: the transaction, or the error that names the service and
/// says why it refused.
pub fn parsed(service_id: u16, result: Result<Box<dyn Transaction>, ParseError>) -> (r: Result<
    Box<dyn Transaction>,
    Error,
>)
    ensures
        match result {
            Ok(_) => r is Ok,
            Err(e) => r matches Err(Error::UnparseableTransaction { service_id: id, description })
                && id == service_id && description == e.description,
        },
{
    match result {
        Ok(tx) => Ok(tx),
        Err(e) => Err(Error::UnparseableTransaction { service_id, description: e.description }),
    }
}

/// `left` is what the cache `cache` holds once some of the transactions
/// `tx_hashes` were run, the first of them first.
pub open spec fn is_partly_drained(
    cache: Map<crypto::Hash, SignedTransactionView>,
    tx_hashes: Seq<crypto::Hash>,
    left: Map<crypto::Hash, SignedTransactionView>,
) -> bool {
    exists|n: int|
        0 <= n <= tx_hashes.len() && left == cache_without(cache, #[trigger] tx_hashes.subrange(0, n))
}

/// Settles a transaction that was run with the outcome `outcome`.
///
/// A storage fault is handed up and nothing is recorded. For any other
/// outcome the changes of the transaction are kept if it succeeded and
/// taken back to the last savepoint if it did not; then the result is
/// recorded, the envelope moves from the pool and from `tx_cache` to the
/// transactions of the blocks, the hash is appended to the transactions of
/// the block at `height`, the location is stored, and a savepoint is set.
pub fn record_outcome(
    fork: &mut Fork,
    tx_cache: &mut TxCache,
    tx_hash: crypto::Hash,
    envelope: SignedTransaction,
    outcome: ExecutionOutcome,
    height: Height,
    index: usize,
) -> (r: Result<(), StorageError>)
    requires
        old(fork).wf(),
    ensures
        final(fork).wf(),
        match recorded_result(outcome) {
            None => {
                &&& r matches Err(StorageError::Fault { description })
                &&& outcome == (ExecutionOutcome::StorageFault { description })
                &&& *final(fork) == *old(fork)
                &&& final(tx_cache)@ == old(tx_cache)@
            },
            Some(result) => {
                &&& r is Ok
                &&& final(fork)@ == (ForkView {
                    base_version: old(fork)@.base_version,
                    schema: old(fork)@.schema.with_transaction(
                        tx_hash,
                        envelope@,
                        result,
                        height,
                        index as u64,
                    ),
                    data: if keeps_changes(outcome) {
                        old(fork)@.data
                    } else {
                        old(fork)@.saved
                    },
                    saved: if keeps_changes(outcome) {
                        old(fork)@.data
                    } else {
                        old(fork)@.saved
                    },
                })
                &&& final(fork).schema_of().aggregator_entries() == old(
                    fork,
                ).schema_of().aggregator_entries()
                &&& final(tx_cache)@ == old(tx_cache)@.remove(tx_hash)
            },
        },
{
    match classify(outcome) {
        Err(description) => Err(StorageError::Fault { description }),
        Ok(result) => {
            if !result.is_success() {
                fork.rollback();
            }
            let schema = fork.schema_mut();
            schema.record_transaction(tx_hash, envelope, result, height, index as u64);
            let _ = tx_cache.remove(&tx_hash);
            fork.flush();
            Ok(())
        },
    }
}

/// Settles a hook that was run with the outcome `outcome`: a storage fault
/// is handed up; the changes of a hook that ran to its end are kept, with a
/// savepoint after them; those of a hook that ended unexpectedly are taken
/// back to the last savepoint, and the block goes on without them.
pub fn settle_hook(fork: &mut Fork, outcome: HookOutcome) -> (r: Result<(), StorageError>)
    ensures
        final(fork).schema_of() == old(fork).schema_of(),
        final(fork)@.base_version == old(fork)@.base_version,
        match outcome {
            HookOutcome::Success => {
                &&& r is Ok
                &&& final(fork)@.data == old(fork)@.data
                &&& final(fork)@.saved == old(fork)@.data
            },
            HookOutcome::Panicked { .. } => {
                &&& r is Ok
                &&& final(fork)@.data == old(fork)@.saved
                &&& final(fork)@.saved == old(fork)@.saved
            },
            HookOutcome::StorageFault { description } => {
                &&& r == Err::<(), StorageError>(StorageError::Fault { description })
                &&& *final(fork) == *old(fork)
            },
        },
{
    match outcome {
        HookOutcome::Success => {
            fork.flush();
            Ok(())
        },
        HookOutcome::Panicked { description } => {
            fork.rollback();
            Ok(())
        },
        HookOutcome::StorageFault { description } => Err(StorageError::Fault { description }),
    }
}

/// Runs the hook of `service` that comes after the transactions of a block,
/// and settles it. Whatever the hook does, the tables of the core stay as
/// they are, and the fork is left at a savepoint unless the store failed.
pub fn before_commit(service: &Box<dyn Service>, fork: &mut Fork) -> (r: Result<(), StorageError>)
    ensures
        final(fork).schema_of() == old(fork).schema_of(),
        final(fork)@.base_version == old(fork)@.base_version,
        r is Ok ==> final(fork).is_clean(),
        r matches Err(e) ==> e is Fault,
{
    let outcome = service.before_commit(fork.data_mut());
    settle_hook(fork, outcome)
}

/// Returns the envelope of the transaction `hash`: from the transactions of
/// the blocks, else from the pool, else from `tx_cache`.
pub fn get_tx(hash: &crypto::Hash, schema: &Schema, tx_cache: &TxCache) -> (r: Option<
    SignedTransaction,
>)
    ensures
        match r {
            Some(tx) => schema@.find_transaction(tx_cache@, *hash) == Some(tx@),
            None => schema@.find_transaction(tx_cache@, *hash) is None,
        },
{
    match schema.transactions().get(hash) {
        Some(tx) => Some(tx),
        None => match schema.transactions_pool().get(hash) {
            Some(tx) => Some(tx),
            None => tx_cache.get(hash),
        },
    }
}

/// Tells whether the transaction `hash` is stored, waits in the pool or is
/// in `tx_cache`.
pub fn check_tx(hash: &crypto::Hash, schema: &Schema, tx_cache: &TxCache) -> (r: bool)
    ensures
        r == (schema@.find_transaction(tx_cache@, *hash) is Some),
{
    schema.transactions().contains(hash) || schema.transactions_pool().contains(hash)
        || tx_cache.contains(hash)
}

} // verus!
