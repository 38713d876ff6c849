use blockchain::blockchain::{
    before_commit, check_tx, get_tx, parsed, record_outcome, settle_hook, Blockchain, Error,
};
use blockchain::config::{ConsensusConfig, GenesisConfig, ValidatorKeys};
use blockchain::crypto;
use blockchain::crypto::{PublicKey, SecretKey};
use blockchain::database::{Database, Patch, StorageError};
use blockchain::helpers::{Height, Round, ValidatorId};
use blockchain::messages::{RawTransaction, SignedMessage, SignedTransaction};
use blockchain::schema::{Schema, TxCache};
use blockchain::service::{
    find_duplicate_id, HookOutcome, ParseError, Service, ServiceContext, ServiceEntry,
};
use blockchain::service_data::ServiceData;
use blockchain::transaction::{
    classify, ExecutionOutcome, Transaction, TransactionContext, TransactionResult, TxLocation,
};

// A service that keeps one counter. The first byte of a payload says what
// the transaction does.

const INCREMENT: u8 = 0;
const FAIL: u8 = 1;
const PANIC: u8 = 2;
const STORAGE_FAULT: u8 = 3;

fn counter_key(service_id: u16) -> crypto::Hash {
    crypto::hash(&[b'c', service_id as u8, (service_id >> 8) as u8])
}

fn read_counter(data: &ServiceData, service_id: u16) -> u64 {
    match data.get(&counter_key(service_id)) {
        Some(bytes) => {
            let mut raw = [0u8; 8];
            raw.copy_from_slice(&bytes);
            u64::from_le_bytes(raw)
        }
        None => 0,
    }
}

fn write_counter(data: &mut ServiceData, service_id: u16, value: u64) {
    data.put(counter_key(service_id), value.to_le_bytes().to_vec());
}

struct CounterTx {
    service_id: u16,
    action: u8,
}

impl Transaction for CounterTx {
    fn execute(&self, data: &mut ServiceData, context: &TransactionContext) -> ExecutionOutcome {
        assert_eq!(context.service_id, self.service_id);
        // Every transaction first writes, so that a rollback has work to do.
        let value = read_counter(data, self.service_id);
        write_counter(data, self.service_id, value + 1);
        match self.action {
            INCREMENT => ExecutionOutcome::Success,
            FAIL => ExecutionOutcome::Failed { code: 7, description: "refused".to_string() },
            PANIC => ExecutionOutcome::Panicked { description: "boom".to_string() },
            _ => ExecutionOutcome::StorageFault { description: "disk".to_string() },
        }
    }
}

struct CounterService {
    id: u16,
    name: &'static str,
    hook: u8,
    tables: usize,
}

impl CounterService {
    fn entry(id: u16, name: &'static str) -> ServiceEntry {
        ServiceEntry::new(Box::new(CounterService { id, name, hook: INCREMENT, tables: 1 }))
    }

    fn entry_with(id: u16, name: &'static str, hook: u8, tables: usize) -> ServiceEntry {
        ServiceEntry::new(Box::new(CounterService { id, name, hook, tables }))
    }
}

fn hook_key(service_id: u16) -> crypto::Hash {
    crypto::hash(&[b'h', service_id as u8, (service_id >> 8) as u8])
}

impl Service for CounterService {
    fn service_id(&self) -> u16 {
        self.id
    }

    fn service_name(&self) -> String {
        self.name.to_string()
    }

    fn state_hash(&self, data: &ServiceData) -> Vec<crypto::Hash> {
        let mut roots = Vec::new();
        for table in 0..self.tables {
            let mut bytes = read_counter(data, self.id).to_le_bytes().to_vec();
            bytes.push(table as u8);
            roots.push(crypto::hash(&bytes));
        }
        roots
    }

    fn tx_from_raw(&self, raw: RawTransaction) -> Result<Box<dyn Transaction>, ParseError> {
        match raw.payload.first() {
            Some(action) if *action <= STORAGE_FAULT => {
                Ok(Box::new(CounterTx { service_id: self.id, action: *action }))
            }
            _ => Err(ParseError { description: "unknown action".to_string() }),
        }
    }

    fn initialize(&self, data: &mut ServiceData) -> Vec<u8> {
        write_counter(data, self.id, 0);
        vec![self.id as u8]
    }

    fn before_commit(&self, data: &mut ServiceData) -> HookOutcome {
        let calls = match data.get(&hook_key(self.id)) {
            Some(bytes) => bytes[0],
            None => 0,
        };
        data.put(hook_key(self.id), vec![calls + 1]);
        match self.hook {
            INCREMENT => HookOutcome::Success,
            PANIC => HookOutcome::Panicked { description: "hook".to_string() },
            _ => HookOutcome::StorageFault { description: "hook disk".to_string() },
        }
    }

    fn after_commit(&self, context: &mut ServiceContext) {
        let height = context.fork().schema().block_hashes_by_height().len() as u8;
        context.broadcast_transaction(RawTransaction::new(context.service_id(), vec![height]));
    }
}

// Root hashes for the tests: the hash of the items, one after the other.

fn core_roots(_schema: &Schema) -> Vec<crypto::Hash> {
    Vec::new()
}

fn list_root(items: &Vec<crypto::Hash>) -> crypto::Hash {
    let mut bytes = vec![b'l'];
    for item in items {
        bytes.extend_from_slice(&item.bytes);
    }
    crypto::hash(&bytes)
}

fn map_root(entries: &Vec<(crypto::Hash, crypto::Hash)>) -> crypto::Hash {
    let mut bytes = vec![b'm'];
    for (key, value) in entries {
        bytes.extend_from_slice(&key.bytes);
        bytes.extend_from_slice(&value.bytes);
    }
    crypto::hash(&bytes)
}

fn keys() -> (PublicKey, SecretKey) {
    (PublicKey::new([11u8; 32]), SecretKey::new([12u8; 64]))
}

fn genesis_config() -> GenesisConfig {
    let consensus = ConsensusConfig {
        first_round_timeout: 3000,
        status_timeout: 5000,
        peers_timeout: 10000,
        txs_block_limit: 1000,
        max_message_len: 1024 * 1024,
        min_propose_timeout: 10,
        max_propose_timeout: 200,
        propose_timeout_threshold: 500,
    };
    let validator = ValidatorKeys {
        consensus_key: PublicKey::new([21u8; 32]),
        service_key: PublicKey::new([22u8; 32]),
    };
    GenesisConfig::new_with_consensus(consensus, vec![validator])
}

fn ledger(services: Vec<ServiceEntry>) -> Blockchain {
    let (public_key, secret_key) = keys();
    let mut blockchain = Blockchain::new(Database::new(), services, public_key, secret_key);
    blockchain.initialize(genesis_config(), core_roots, list_root, map_root).unwrap();
    blockchain
}

fn counter_ledger() -> Blockchain {
    ledger(vec![CounterService::entry(1, "counter")])
}

fn envelope(service_id: u16, action: u8, nonce: u8) -> (crypto::Hash, SignedTransaction) {
    let raw = RawTransaction::new(service_id, vec![action, nonce]);
    let author = PublicKey::new([nonce; 32]);
    let signature = vec![nonce; 64];
    let mut bytes = author.bytes.to_vec();
    bytes.extend_from_slice(&service_id.to_le_bytes());
    bytes.extend_from_slice(&raw.payload);
    bytes.extend_from_slice(&signature);
    (crypto::hash(&bytes), SignedTransaction::new(author, raw, signature))
}

fn cache_of(transactions: &[(crypto::Hash, SignedTransaction)]) -> TxCache {
    let mut cache = TxCache::new();
    for (hash, tx) in transactions {
        cache.put(*hash, tx.clone());
    }
    cache
}

fn hashes_of(transactions: &[(crypto::Hash, SignedTransaction)]) -> Vec<crypto::Hash> {
    transactions.iter().map(|(hash, _)| *hash).collect()
}

fn propose(
    blockchain: &Blockchain,
    height: u64,
    transactions: &[(crypto::Hash, SignedTransaction)],
    cache: &mut TxCache,
) -> Result<(crypto::Hash, Patch), Error> {
    blockchain.create_patch(
        ValidatorId(0),
        Height(height),
        &hashes_of(transactions),
        cache,
        core_roots,
        list_root,
        map_root,
    )
}

fn propose_and_commit(
    blockchain: &mut Blockchain,
    height: u64,
    transactions: &[(crypto::Hash, SignedTransaction)],
) -> crypto::Hash {
    let mut cache = cache_of(transactions);
    let (block_hash, patch) = propose(blockchain, height, transactions, &mut cache).unwrap();
    blockchain.commit(patch, block_hash, Vec::new(), &mut cache).unwrap();
    block_hash
}

fn counter(blockchain: &Blockchain) -> u64 {
    read_counter(blockchain.snapshot().data(), 1)
}

// Whole runs, from genesis to a committed block.

#[test]
fn empty_genesis() {
    let blockchain = ledger(Vec::new());
    let snapshot = blockchain.snapshot();
    let schema = snapshot.schema();
    assert_eq!(schema.block_hashes_by_height().len(), 1);
    let block_hash = schema.block_hash_by_height(Height(0)).unwrap();
    assert_eq!(blockchain.last_hash(), block_hash);
    let block = schema.blocks().get(&block_hash).unwrap();
    assert_eq!(block, blockchain.last_block());
    assert_eq!(block.hash(), block_hash);
    assert_eq!(block.proposer_id, ValidatorId(0));
    assert_eq!(block.height, Height(0));
    assert_eq!(block.tx_count, 0);
    assert_eq!(block.prev_hash, crypto::Hash::zero());
    assert_eq!(block.tx_hash, list_root(&Vec::new()));
    assert_eq!(block.state_hash, map_root(&Vec::new()));
    assert_eq!(schema.state_hash_aggregator().len(), 0);
    assert_eq!(schema.configs().len(), 1);
    let config = schema.configs().get(0).unwrap();
    assert_eq!(config.previous_cfg_hash, crypto::Hash::zero());
    assert_eq!(config.actual_from, Height(0));
    assert_eq!(config.validator_keys, genesis_config().validator_keys);
    assert_eq!(config.consensus, genesis_config().consensus);
    assert!(config.services.is_empty());
}

#[test]
fn single_successful_transaction() {
    let mut blockchain = counter_ledger();
    let tx = envelope(1, INCREMENT, 1);
    let block_hash = propose_and_commit(&mut blockchain, 1, &[tx.clone()]);
    assert_eq!(counter(&blockchain), 1);
    let snapshot = blockchain.snapshot();
    let schema = snapshot.schema();
    assert_eq!(schema.transaction_results().get(&tx.0), Some(TransactionResult::Success));
    assert_eq!(schema.transactions_locations().get(&tx.0), Some(TxLocation::new(Height(1), 0)));
    assert_eq!(schema.transactions().get(&tx.0), Some(tx.1.clone()));
    assert_eq!(blockchain.pool_size(), 0);
    assert_eq!(schema.transactions_pool().len(), 0);
    assert_eq!(schema.block_hash_by_height(Height(1)), Some(block_hash));
    assert_eq!(blockchain.last_block().tx_count, 1);
    assert_eq!(schema.transaction_count(), 1);
}

#[test]
fn failing_transaction() {
    let mut blockchain = counter_ledger();
    let tx = envelope(1, FAIL, 1);
    propose_and_commit(&mut blockchain, 1, &[tx.clone()]);
    assert_eq!(counter(&blockchain), 0);
    let snapshot = blockchain.snapshot();
    let schema = snapshot.schema();
    assert_eq!(
        schema.transaction_results().get(&tx.0),
        Some(TransactionResult::Failure { code: 7, description: "refused".to_string() })
    );
    assert_eq!(schema.block_transactions(Height(1)).as_vec(), &vec![tx.0]);
}

#[test]
fn panicking_transaction() {
    let mut blockchain = counter_ledger();
    let before = blockchain.snapshot().schema().transaction_count();
    let tx = envelope(1, PANIC, 1);
    let block_hash = propose_and_commit(&mut blockchain, 1, &[tx.clone()]);
    assert_eq!(counter(&blockchain), 0);
    let snapshot = blockchain.snapshot();
    let schema = snapshot.schema();
    assert_eq!(
        schema.transaction_results().get(&tx.0),
        Some(TransactionResult::Panic { description: "boom".to_string() })
    );
    assert_eq!(blockchain.last_hash(), block_hash);
    assert_eq!(schema.block_hashes_by_height().len(), 2);
    assert_eq!(schema.transaction_count(), before + 1);
}

#[test]
fn mixed_batch() {
    let mut blockchain = counter_ledger();
    let txs = [envelope(1, INCREMENT, 1), envelope(1, FAIL, 2), envelope(1, INCREMENT, 3)];
    propose_and_commit(&mut blockchain, 1, &txs);
    assert_eq!(counter(&blockchain), 2);
    let snapshot = blockchain.snapshot();
    let schema = snapshot.schema();
    assert_eq!(schema.transaction_results().get(&txs[0].0), Some(TransactionResult::Success));
    assert_eq!(
        schema.transaction_results().get(&txs[1].0),
        Some(TransactionResult::Failure { code: 7, description: "refused".to_string() })
    );
    assert_eq!(schema.transaction_results().get(&txs[2].0), Some(TransactionResult::Success));
    for (position, tx) in txs.iter().enumerate() {
        assert_eq!(
            schema.transactions_locations().get(&tx.0),
            Some(TxLocation::new(Height(1), position as u64))
        );
    }
    assert_eq!(schema.block_transactions(Height(1)).as_vec(), &hashes_of(&txs));
    assert_eq!(blockchain.last_block().tx_count, 3);
}

#[test]
fn storage_fault() {
    let blockchain = counter_ledger();
    let genesis_hash = blockchain.last_hash();
    let txs = [envelope(1, INCREMENT, 1), envelope(1, STORAGE_FAULT, 2), envelope(1, INCREMENT, 3)];
    let mut cache = cache_of(&txs);
    let result = propose(&blockchain, 1, &txs, &mut cache);
    match result {
        Err(Error::Storage(StorageError::Fault { description })) => assert_eq!(description, "disk"),
        _ => panic!("the storage fault must be handed up"),
    }
    // Nothing of the block reached the committed state.
    let snapshot = blockchain.snapshot();
    let schema = snapshot.schema();
    assert_eq!(blockchain.last_hash(), genesis_hash);
    assert_eq!(schema.block_hashes_by_height().len(), 1);
    assert_eq!(schema.transaction_results().len(), 0);
    assert_eq!(schema.transactions().len(), 0);
    assert_eq!(schema.block_transactions(Height(1)).len(), 0);
    assert_eq!(counter(&blockchain), 0);
}

// General properties, on chosen values.

#[test]
fn two_instances_build_the_same_block() {
    let txs = [envelope(1, INCREMENT, 1), envelope(1, PANIC, 2), envelope(1, FAIL, 3)];
    let mut first = counter_ledger();
    let mut second = counter_ledger();
    assert_eq!(first.last_hash(), second.last_hash());
    let first_hash = propose_and_commit(&mut first, 1, &txs);
    let second_hash = propose_and_commit(&mut second, 1, &txs);
    assert_eq!(first_hash, second_hash);
    assert_eq!(first.last_block(), second.last_block());
    let (a, b) = (first.snapshot(), second.snapshot());
    assert_eq!(a.schema().state_hash_aggregator().to_vec(), b.schema().state_hash_aggregator().to_vec());
    assert_eq!(a.data().get(&counter_key(1)), b.data().get(&counter_key(1)));
    for tx in &txs {
        assert_eq!(
            a.schema().transaction_results().get(&tx.0),
            b.schema().transaction_results().get(&tx.0)
        );
    }
}

#[test]
fn order_of_services_does_not_change_the_block() {
    let first = ledger(vec![CounterService::entry(1, "one"), CounterService::entry(2, "two")]);
    let second = ledger(vec![CounterService::entry(2, "two"), CounterService::entry(1, "one")]);
    assert_eq!(first.last_hash(), second.last_hash());
    assert_eq!(first.service_map().get(0).service_id(), 1);
    assert_eq!(second.service_map().get(0).service_id(), 1);
    assert_eq!(second.service_map().get(1).service_id(), 2);
    assert_eq!(second.service_map().get(1).service().service_name(), "two");
}

#[test]
fn failed_transaction_leaves_the_data_at_the_savepoint() {
    let blockchain = counter_ledger();
    let txs = [envelope(1, INCREMENT, 1), envelope(1, FAIL, 2)];
    let mut cache = cache_of(&txs);
    let mut fork = blockchain.fork();
    blockchain.execute_transaction(txs[0].0, Height(1), 0, &mut fork, &mut cache).unwrap();
    assert_eq!(read_counter(fork.data(), 1), 1);
    let before = fork.data().get(&counter_key(1));
    blockchain.execute_transaction(txs[1].0, Height(1), 1, &mut fork, &mut cache).unwrap();
    assert_eq!(fork.data().get(&counter_key(1)), before);
    assert_eq!(read_counter(fork.data(), 1), 1);
    // The failure is recorded all the same.
    assert_eq!(
        fork.schema().transaction_results().get(&txs[1].0),
        Some(TransactionResult::Failure { code: 7, description: "refused".to_string() })
    );
    assert_eq!(fork.schema().transaction_results().get(&txs[0].0), Some(TransactionResult::Success));
    // A rollback now changes nothing: the fork stands at a savepoint.
    fork.rollback();
    assert_eq!(read_counter(fork.data(), 1), 1);
}

#[test]
fn every_transaction_of_a_block_has_a_result() {
    let mut blockchain = counter_ledger();
    let txs = [
        envelope(1, PANIC, 1),
        envelope(1, INCREMENT, 2),
        envelope(1, FAIL, 3),
        envelope(1, INCREMENT, 4),
    ];
    let mut cache = cache_of(&txs);
    let (_, patch) = propose(&blockchain, 1, &txs, &mut cache).unwrap();
    let schema = patch.schema();
    for tx in &txs {
        assert!(schema.transaction_results().contains(&tx.0));
        assert!(schema.transactions_locations().contains(&tx.0));
        assert!(schema.transactions().contains(&tx.0));
    }
    assert_eq!(schema.block_transactions(Height(1)).as_vec(), &hashes_of(&txs));
    assert_eq!(schema.block_transactions(Height(1)).len(), 4);
    assert_eq!(cache.len(), 0);
    // Building does not merge.
    assert_eq!(blockchain.snapshot().schema().block_hashes_by_height().len(), 1);
    let block_hash = patch.schema().last_hash();
    blockchain.commit(patch, block_hash, Vec::new(), &mut cache).unwrap();
    assert_eq!(blockchain.snapshot().schema().block_hashes_by_height().len(), 2);
}

#[test]
fn pool_and_blocks_share_no_transaction() {
    let mut blockchain = counter_ledger();
    let included = envelope(1, INCREMENT, 1);
    let waiting = envelope(1, INCREMENT, 2);
    let mut cache = cache_of(&[included.clone(), waiting.clone()]);
    let (block_hash, patch) = propose(&blockchain, 1, &[included.clone()], &mut cache).unwrap();
    assert_eq!(cache.len(), 1);
    // The included transaction is seen once more before the commit.
    cache.put(included.0, included.1.clone());
    blockchain.commit(patch, block_hash, Vec::new(), &mut cache).unwrap();
    assert_eq!(cache.len(), 0);
    let snapshot = blockchain.snapshot();
    let schema = snapshot.schema();
    assert_eq!(blockchain.pool_size(), 1);
    assert!(schema.transactions_pool().contains(&waiting.0));
    assert!(!schema.transactions_pool().contains(&included.0));
    assert!(schema.transactions().contains(&included.0));
    assert!(!schema.transactions().contains(&waiting.0));
    for (hash, _) in schema.transactions_pool().to_vec() {
        assert!(!schema.transactions().contains(&hash));
    }
    // The waiting transaction is found in the pool when it is proposed.
    let mut empty = TxCache::new();
    let (next_hash, next) = propose(&blockchain, 2, &[waiting.clone()], &mut empty).unwrap();
    blockchain.commit(next, next_hash, Vec::new(), &mut empty).unwrap();
    assert_eq!(blockchain.pool_size(), 0);
    assert!(blockchain.snapshot().schema().transactions().contains(&waiting.0));
    assert_eq!(counter(&blockchain), 2);
}

#[test]
fn state_hash_is_the_root_of_a_fresh_aggregator() {
    let blockchain = ledger(vec![
        CounterService::entry_with(7, "seven", INCREMENT, 3),
        CounterService::entry_with(2, "two", INCREMENT, 2),
    ]);
    let snapshot = blockchain.snapshot();
    let data = snapshot.data();
    // Fill an aggregator with the same entries, in another order.
    let mut fresh = blockchain::aggregator::Aggregator::new();
    for (id, tables) in [(7u16, 3usize), (2u16, 2usize)] {
        let service = CounterService { id, name: "", hook: INCREMENT, tables };
        let roots = service.state_hash(data);
        for index in (0..tables).rev() {
            fresh.put(Blockchain::service_table_unique_key(id, index), roots[index]);
        }
    }
    assert_eq!(fresh.len(), 5);
    assert_eq!(fresh.to_vec(), snapshot.schema().state_hash_aggregator().to_vec());
    assert_eq!(blockchain.last_block().state_hash, map_root(fresh.to_vec()));
    for window in fresh.to_vec().windows(2) {
        assert!(window[0].0.less_than(&window[1].0));
    }
}

#[test]
fn core_roots_enter_under_the_core_identifier() {
    let (public_key, secret_key) = keys();
    let mut blockchain = Blockchain::new(Database::new(), Vec::new(), public_key, secret_key);
    let roots = vec![crypto::Hash::new([1u8; 32]), crypto::Hash::new([2u8; 32])];
    let given = roots.clone();
    blockchain
        .initialize(genesis_config(), move |_: &Schema| given.clone(), list_root, map_root)
        .unwrap();
    let snapshot = blockchain.snapshot();
    let aggregator = snapshot.schema().state_hash_aggregator();
    assert_eq!(aggregator.len(), 2);
    assert_eq!(aggregator.get(&Blockchain::service_table_unique_key(0, 0)), Some(roots[0]));
    assert_eq!(aggregator.get(&Blockchain::service_table_unique_key(0, 1)), Some(roots[1]));
    assert_eq!(blockchain.last_block().state_hash, map_root(aggregator.to_vec()));
}

#[test]
fn second_initialize_changes_nothing() {
    let mut blockchain = counter_ledger();
    let hash = blockchain.last_hash();
    let before = blockchain.snapshot();
    blockchain.initialize(genesis_config(), core_roots, list_root, map_root).unwrap();
    let after = blockchain.snapshot();
    assert_eq!(blockchain.last_hash(), hash);
    assert_eq!(after.schema().block_hashes_by_height().len(), 1);
    assert_eq!(after.schema().configs().len(), 1);
    assert_eq!(after.schema().blocks().len(), before.schema().blocks().len());
    assert_eq!(
        after.schema().state_hash_aggregator().to_vec(),
        before.schema().state_hash_aggregator().to_vec()
    );
    assert_eq!(after.data().get(&counter_key(1)), before.data().get(&counter_key(1)));
    // A patch made before the second call is still fresh: no patch was merged.
    let mut cache = TxCache::new();
    let (block_hash, patch) = propose(&blockchain, 1, &[], &mut cache).unwrap();
    blockchain.initialize(genesis_config(), core_roots, list_root, map_root).unwrap();
    assert!(blockchain.commit(patch, block_hash, Vec::new(), &mut cache).is_ok());
}

#[test]
fn heights_follow_each_other() {
    let mut blockchain = counter_ledger();
    let mut hashes = vec![blockchain.last_hash()];
    for height in 1..=5u64 {
        let tx = envelope(1, INCREMENT, height as u8);
        hashes.push(propose_and_commit(&mut blockchain, height, &[tx]));
    }
    let snapshot = blockchain.snapshot();
    let schema = snapshot.schema();
    assert_eq!(schema.block_hashes_by_height().len(), 6);
    for (height, hash) in hashes.iter().enumerate() {
        assert_eq!(schema.block_hash_by_height(Height(height as u64)), Some(*hash));
        let block = schema.blocks().get(hash).unwrap();
        assert_eq!(block.height, Height(height as u64));
        if height > 0 {
            assert_eq!(block.prev_hash, hashes[height - 1]);
        }
    }
    assert_eq!(schema.block_hash_by_height(Height(6)), None);
    assert_eq!(schema.transaction_count(), 5);
    assert_eq!(counter(&blockchain), 5);
}

#[test]
fn storage_fault_is_not_recorded() {
    let blockchain = counter_ledger();
    let tx = envelope(1, STORAGE_FAULT, 1);
    let mut cache = cache_of(&[tx.clone()]);
    let mut fork = blockchain.fork();
    let result = blockchain.execute_transaction(tx.0, Height(1), 0, &mut fork, &mut cache);
    assert_eq!(
        result,
        Err(Error::Storage(StorageError::Fault { description: "disk".to_string() }))
    );
    assert!(!fork.schema().transaction_results().contains(&tx.0));
    assert!(!fork.schema().transactions().contains(&tx.0));
    assert_eq!(fork.schema().block_transactions(Height(1)).len(), 0);
    assert!(cache.contains(&tx.0));
}

// The executor and its errors.

#[test]
fn unparseable_transaction_stops_the_block() {
    let blockchain = counter_ledger();
    let txs = [envelope(1, INCREMENT, 1), envelope(1, 99, 2)];
    let mut cache = cache_of(&txs);
    match propose(&blockchain, 1, &txs, &mut cache) {
        Err(Error::UnparseableTransaction { service_id, description }) => {
            assert_eq!(service_id, 1);
            assert_eq!(description, "unknown action");
        }
        _ => panic!("the refusal of the service must be handed up"),
    }
    assert_eq!(blockchain.snapshot().schema().block_hashes_by_height().len(), 1);
    assert_eq!(counter(&blockchain), 0);
}

#[test]
fn missing_transaction() {
    let blockchain = counter_ledger();
    let tx = envelope(1, INCREMENT, 1);
    let mut cache = TxCache::new();
    let mut fork = blockchain.fork();
    let result = blockchain.execute_transaction(tx.0, Height(1), 0, &mut fork, &mut cache);
    assert_eq!(result, Err(Error::MissingTransaction { tx_hash: tx.0 }));
    assert_eq!(fork.schema().transaction_results().len(), 0);
}

#[test]
fn transaction_of_unknown_service() {
    let blockchain = counter_ledger();
    let tx = envelope(9, INCREMENT, 1);
    let mut cache = cache_of(&[tx.clone()]);
    let mut fork = blockchain.fork();
    let result = blockchain.execute_transaction(tx.0, Height(1), 0, &mut fork, &mut cache);
    assert_eq!(result, Err(Error::UnknownService { service_id: 9 }));
    assert!(cache.contains(&tx.0));
    assert_eq!(fork.schema().transaction_results().len(), 0);
}

#[test]
fn transaction_that_does_not_parse() {
    let blockchain = counter_ledger();
    let tx = envelope(1, 200, 1);
    let mut cache = cache_of(&[tx.clone()]);
    let mut fork = blockchain.fork();
    let result = blockchain.execute_transaction(tx.0, Height(1), 0, &mut fork, &mut cache);
    assert_eq!(
        result,
        Err(Error::UnparseableTransaction {
            service_id: 1,
            description: "unknown action".to_string()
        })
    );
    assert!(cache.contains(&tx.0));
}

#[test]
fn tx_from_raw_dispatches_by_service_id() {
    let blockchain = ledger(vec![CounterService::entry(1, "one"), CounterService::entry(2, "two")]);
    assert!(blockchain.tx_from_raw(RawTransaction::new(2, vec![INCREMENT])).is_ok());
    match blockchain.tx_from_raw(RawTransaction::new(3, vec![INCREMENT])) {
        Err(Error::UnknownService { service_id }) => assert_eq!(service_id, 3),
        _ => panic!("no service has the identifier 3"),
    }
    match blockchain.tx_from_raw(RawTransaction::new(1, vec![77])) {
        Err(Error::UnparseableTransaction { service_id, description }) => {
            assert_eq!(service_id, 1);
            assert_eq!(description, "unknown action");
        }
        _ => panic!("the payload must be refused"),
    }
    let tx = blockchain.tx_from_raw(RawTransaction::new(2, vec![INCREMENT])).unwrap();
    let mut data = ServiceData::new();
    let context = TransactionContext::new(2, "two".to_string(), crypto::Hash::zero(), keys().0);
    assert_eq!(tx.execute(&mut data, &context), ExecutionOutcome::Success);
    assert_eq!(read_counter(&data, 2), 1);
}

#[test]
fn classify_outcomes() {
    assert_eq!(classify(ExecutionOutcome::Success), Ok(TransactionResult::Success));
    assert_eq!(
        classify(ExecutionOutcome::Failed { code: 3, description: "no".to_string() }),
        Ok(TransactionResult::Failure { code: 3, description: "no".to_string() })
    );
    assert_eq!(
        classify(ExecutionOutcome::Panicked { description: "oops".to_string() }),
        Ok(TransactionResult::Panic { description: "oops".to_string() })
    );
    assert_eq!(
        classify(ExecutionOutcome::StorageFault { description: "disk".to_string() }),
        Err("disk".to_string())
    );
    assert!(TransactionResult::Success.is_success());
    assert!(!TransactionResult::Panic { description: String::new() }.is_success());
}

#[test]
fn record_outcome_keeps_or_takes_back() {
    let blockchain = counter_ledger();
    let txs = [envelope(1, INCREMENT, 1), envelope(1, INCREMENT, 2), envelope(1, INCREMENT, 3)];
    let mut cache = cache_of(&txs);
    let mut fork = blockchain.fork();

    write_counter(fork.data_mut(), 1, 10);
    let kept =
        record_outcome(&mut fork, &mut cache, txs[0].0, txs[0].1.clone(), ExecutionOutcome::Success, Height(4), 0);
    assert_eq!(kept, Ok(()));
    assert_eq!(read_counter(fork.data(), 1), 10);
    assert!(!cache.contains(&txs[0].0));

    write_counter(fork.data_mut(), 1, 20);
    let panicked = record_outcome(
        &mut fork,
        &mut cache,
        txs[1].0,
        txs[1].1.clone(),
        ExecutionOutcome::Panicked { description: "p".to_string() },
        Height(4),
        1,
    );
    assert_eq!(panicked, Ok(()));
    assert_eq!(read_counter(fork.data(), 1), 10);
    assert_eq!(
        fork.schema().transaction_results().get(&txs[1].0),
        Some(TransactionResult::Panic { description: "p".to_string() })
    );
    assert_eq!(
        fork.schema().transactions_locations().get(&txs[1].0),
        Some(TxLocation::new(Height(4), 1))
    );

    write_counter(fork.data_mut(), 1, 30);
    let fault = record_outcome(
        &mut fork,
        &mut cache,
        txs[2].0,
        txs[2].1.clone(),
        ExecutionOutcome::StorageFault { description: "d".to_string() },
        Height(4),
        2,
    );
    assert_eq!(fault, Err(StorageError::Fault { description: "d".to_string() }));
    assert!(!fork.schema().transaction_results().contains(&txs[2].0));
    assert!(cache.contains(&txs[2].0));
    assert_eq!(fork.schema().block_transactions(Height(4)).as_vec(), &vec![txs[0].0, txs[1].0]);
}

#[test]
fn transaction_run_twice_keeps_its_last_location() {
    let mut blockchain = counter_ledger();
    let tx = envelope(1, INCREMENT, 1);
    let mut cache = cache_of(&[tx.clone()]);
    let (block_hash, patch) =
        propose(&blockchain, 1, &[tx.clone(), tx.clone()], &mut cache).unwrap();
    assert_eq!(patch.schema().block_transactions(Height(1)).as_vec(), &vec![tx.0, tx.0]);
    assert_eq!(
        patch.schema().transactions_locations().get(&tx.0),
        Some(TxLocation::new(Height(1), 1))
    );
    blockchain.commit(patch, block_hash, Vec::new(), &mut cache).unwrap();
    assert_eq!(counter(&blockchain), 2);
    assert_eq!(blockchain.last_block().tx_count, 2);
}

// Hooks.

#[test]
fn before_commit_is_skipped_for_genesis() {
    let mut blockchain = counter_ledger();
    assert_eq!(blockchain.snapshot().data().get(&hook_key(1)), None);
    propose_and_commit(&mut blockchain, 1, &[]);
    assert_eq!(blockchain.snapshot().data().get(&hook_key(1)), Some(vec![1]));
    propose_and_commit(&mut blockchain, 2, &[]);
    assert_eq!(blockchain.snapshot().data().get(&hook_key(1)), Some(vec![2]));
}

#[test]
fn panicking_hook_is_taken_back() {
    let mut blockchain = ledger(vec![
        CounterService::entry_with(1, "one", PANIC, 1),
        CounterService::entry_with(2, "two", INCREMENT, 1),
    ]);
    let block_hash = propose_and_commit(&mut blockchain, 1, &[]);
    assert_eq!(blockchain.last_hash(), block_hash);
    let snapshot = blockchain.snapshot();
    assert_eq!(snapshot.data().get(&hook_key(1)), None);
    assert_eq!(snapshot.data().get(&hook_key(2)), Some(vec![1]));
}

#[test]
fn storage_fault_in_hook_stops_the_block() {
    let blockchain = ledger(vec![CounterService::entry_with(1, "one", STORAGE_FAULT, 1)]);
    let mut cache = TxCache::new();
    match propose(&blockchain, 1, &[], &mut cache) {
        Err(Error::Storage(StorageError::Fault { description })) => {
            assert_eq!(description, "hook disk")
        }
        _ => panic!("the storage fault must be handed up"),
    }
    assert_eq!(blockchain.snapshot().schema().block_hashes_by_height().len(), 1);
}

#[test]
fn settle_hook_outcomes() {
    let blockchain = counter_ledger();
    let mut fork = blockchain.fork();
    write_counter(fork.data_mut(), 1, 5);
    assert_eq!(settle_hook(&mut fork, HookOutcome::Success), Ok(()));
    write_counter(fork.data_mut(), 1, 6);
    assert_eq!(settle_hook(&mut fork, HookOutcome::Panicked { description: "x".to_string() }), Ok(()));
    assert_eq!(read_counter(fork.data(), 1), 5);
    write_counter(fork.data_mut(), 1, 7);
    assert_eq!(
        settle_hook(&mut fork, HookOutcome::StorageFault { description: "y".to_string() }),
        Err(StorageError::Fault { description: "y".to_string() })
    );
    assert_eq!(read_counter(fork.data(), 1), 7);
}

#[test]
fn before_commit_runs_the_hook_of_the_service() {
    let blockchain = counter_ledger();
    let mut fork = blockchain.fork();
    let service: Box<dyn Service> =
        Box::new(CounterService { id: 1, name: "counter", hook: INCREMENT, tables: 1 });
    assert_eq!(before_commit(&service, &mut fork), Ok(()));
    assert_eq!(fork.data().get(&hook_key(1)), Some(vec![1]));
    fork.rollback();
    assert_eq!(fork.data().get(&hook_key(1)), Some(vec![1]));
}

#[test]
fn after_commit_runs_in_ascending_order() {
    let mut blockchain =
        ledger(vec![CounterService::entry(5, "five"), CounterService::entry(3, "three")]);
    let mut cache = TxCache::new();
    let (block_hash, patch) = propose(&blockchain, 1, &[], &mut cache).unwrap();
    let requests = blockchain.commit(patch, block_hash, Vec::new(), &mut cache).unwrap();
    assert_eq!(requests.len(), 2);
    assert_eq!(requests[0].transaction, RawTransaction::new(3, vec![2]));
    assert_eq!(requests[1].transaction, RawTransaction::new(5, vec![2]));
    assert_eq!(requests[0].author, keys().0);
}

// The commit engine.

#[test]
fn commit_stores_precommits_and_clears_messages() {
    let mut blockchain = counter_ledger();
    blockchain.save_message(Round(3), SignedMessage::new(vec![1, 2, 3]));
    blockchain.save_peer(&PublicKey::new([8u8; 32]), SignedMessage::new(vec![9]));
    let tx = envelope(1, INCREMENT, 1);
    let mut cache = cache_of(&[tx.clone()]);
    let (block_hash, patch) = propose(&blockchain, 1, &[tx], &mut cache).unwrap();
    // Messages that arrive while the block waits for its precommits are kept.
    blockchain.save_message(Round(4), SignedMessage::new(vec![4]));
    assert_eq!(blockchain.snapshot().caches().consensus_messages_cache().len(), 2);
    let precommits = vec![SignedMessage::new(vec![10]), SignedMessage::new(vec![11])];
    blockchain.commit(patch, block_hash, precommits.clone(), &mut cache).unwrap();
    let snapshot = blockchain.snapshot();
    assert_eq!(snapshot.schema().precommits(&block_hash).as_vec(), &precommits);
    assert_eq!(snapshot.caches().consensus_messages_cache().len(), 0);
    assert_eq!(snapshot.caches().consensus_round(), Round(4));
    assert_eq!(blockchain.get_saved_peers().len(), 1);
}

#[test]
fn stale_patch_is_refused() {
    let mut blockchain = counter_ledger();
    let first = envelope(1, INCREMENT, 1);
    let second = envelope(1, INCREMENT, 2);
    let mut first_cache = cache_of(&[first.clone()]);
    let mut second_cache = cache_of(&[second.clone()]);
    let (first_hash, first_patch) = propose(&blockchain, 1, &[first], &mut first_cache).unwrap();
    let (second_hash, second_patch) = propose(&blockchain, 1, &[second.clone()], &mut second_cache).unwrap();
    blockchain.commit(first_patch, first_hash, Vec::new(), &mut first_cache).unwrap();
    let refused = blockchain.commit(second_patch, second_hash, Vec::new(), &mut second_cache);
    assert_eq!(refused, Err(Error::Storage(StorageError::StalePatch)));
    // The committed state is that of the first block.
    assert_eq!(blockchain.last_hash(), first_hash);
    assert_eq!(blockchain.snapshot().schema().block_hashes_by_height().len(), 2);
    assert_eq!(counter(&blockchain), 1);
    assert!(!blockchain.snapshot().schema().transactions().contains(&second.0));
}

#[test]
fn merge_takes_a_fresh_patch_once() {
    let mut blockchain = counter_ledger();
    let mut fork = blockchain.fork();
    let other = blockchain.fork();
    write_counter(fork.data_mut(), 1, 42);
    assert_eq!(counter(&blockchain), 0);
    assert_eq!(blockchain.merge(fork.into_patch()), Ok(()));
    assert_eq!(counter(&blockchain), 42);
    assert_eq!(blockchain.merge(other.into_patch()), Err(StorageError::StalePatch));
    assert_eq!(counter(&blockchain), 42);
}

#[test]
fn fork_is_isolated_until_merged() {
    let blockchain = counter_ledger();
    let mut fork = blockchain.fork();
    write_counter(fork.data_mut(), 1, 3);
    fork.flush();
    write_counter(fork.data_mut(), 1, 4);
    assert_eq!(read_counter(fork.data(), 1), 4);
    fork.rollback();
    assert_eq!(read_counter(fork.data(), 1), 3);
    fork.rollback();
    assert_eq!(read_counter(fork.data(), 1), 3);
    assert_eq!(counter(&blockchain), 0);
    assert_eq!(read_counter(blockchain.fork().data(), 1), 0);
    let patch = fork.into_patch();
    assert_eq!(read_counter(patch.data(), 1), 3);
    let reopened = patch.into_fork();
    assert_eq!(read_counter(reopened.data(), 1), 3);
}

// The facade.

#[test]
fn duplicate_service_id_is_found() {
    let services = vec![
        CounterService::entry(4, "a"),
        CounterService::entry(5, "b"),
        CounterService::entry(4, "c"),
    ];
    assert_eq!(find_duplicate_id(&services), Some(4));
    let distinct = vec![CounterService::entry(4, "a"), CounterService::entry(5, "b")];
    assert_eq!(find_duplicate_id(&distinct), None);
    assert_eq!(find_duplicate_id(&Vec::new()), None);
}

#[test]
fn duplicate_service_name_is_found() {
    let (public_key, secret_key) = keys();
    let services = vec![CounterService::entry(1, "same"), CounterService::entry(2, "same")];
    let blockchain = Blockchain::new(Database::new(), services, public_key, secret_key);
    assert_eq!(blockchain.service_map().find_duplicate_name(), Some("same".to_string()));
    assert_eq!(counter_ledger().service_map().find_duplicate_name(), None);
}

#[test]
fn services_are_kept_in_ascending_order() {
    let (public_key, secret_key) = keys();
    let services = vec![
        CounterService::entry(30, "c"),
        CounterService::entry(10, "a"),
        CounterService::entry(40, "d"),
        CounterService::entry(20, "b"),
    ];
    let blockchain = Blockchain::new(Database::new(), services, public_key, secret_key);
    let map = blockchain.service_map();
    assert_eq!(map.len(), 4);
    let ids: Vec<u16> = (0..4).map(|i| map.get(i).service_id()).collect();
    assert_eq!(ids, vec![10, 20, 30, 40]);
    let names: Vec<String> = (0..4).map(|i| map.get(i).service_name()).collect();
    assert_eq!(names, vec!["a", "b", "c", "d"]);
    assert_eq!(map.find(30), Some(2));
    assert_eq!(map.find(31), None);
    assert!(map.contains_key(40));
    assert!(!map.contains_key(0));
    assert_eq!(blockchain.service_keypair, keys());
}

#[test]
fn genesis_stores_the_configuration_of_each_service() {
    let blockchain = ledger(vec![CounterService::entry(9, "nine"), CounterService::entry(4, "four")]);
    let snapshot = blockchain.snapshot();
    let config = snapshot.schema().configs().get(0).unwrap();
    assert_eq!(config.services.len(), 2);
    assert_eq!(config.services[0].name, "four");
    assert_eq!(config.services[0].config, vec![4]);
    assert_eq!(config.services[1].name, "nine");
    assert_eq!(config.services[1].config, vec![9]);
    assert_eq!(read_counter(snapshot.data(), 4), 0);
    assert!(snapshot.data().contains(&counter_key(9)));
}

#[test]
fn broadcast_checks_the_service() {
    let blockchain = counter_ledger();
    let known = RawTransaction::new(1, vec![INCREMENT]);
    let request = blockchain.broadcast_raw_transaction(known.clone()).unwrap();
    assert_eq!(request.transaction, known);
    assert_eq!(request.author, keys().0);
    let unknown = RawTransaction::new(2, vec![INCREMENT]);
    assert_eq!(
        blockchain.broadcast_raw_transaction(unknown),
        Err(Error::UnknownService { service_id: 2 })
    );
}

#[test]
fn last_hash_without_genesis_is_zero() {
    let (public_key, secret_key) = keys();
    let blockchain = Blockchain::new(Database::new(), Vec::new(), public_key, secret_key);
    assert_eq!(blockchain.last_hash(), crypto::Hash::zero());
    assert_eq!(blockchain.pool_size(), 0);
}

#[test]
fn peers_cache() {
    let mut blockchain = counter_ledger();
    let first = PublicKey::new([1u8; 32]);
    let second = PublicKey::new([2u8; 32]);
    blockchain.save_peer(&first, SignedMessage::new(vec![1]));
    blockchain.save_peer(&second, SignedMessage::new(vec![2]));
    blockchain.save_peer(&first, SignedMessage::new(vec![3]));
    let mut peers = blockchain.get_saved_peers();
    peers.sort_by_key(|(key, _)| key.bytes);
    assert_eq!(peers, vec![(first, SignedMessage::new(vec![3])), (second, SignedMessage::new(vec![2]))]);
    blockchain.remove_peer_with_pubkey(&first);
    assert_eq!(blockchain.get_saved_peers(), vec![(second, SignedMessage::new(vec![2]))]);
    blockchain.remove_peer_with_pubkey(&first);
    assert_eq!(blockchain.get_saved_peers().len(), 1);
    // Saving a peer is no patch: a waiting patch stays fresh.
    let mut cache = TxCache::new();
    let (block_hash, patch) = propose(&blockchain, 1, &[], &mut cache).unwrap();
    blockchain.save_peer(&first, SignedMessage::new(vec![4]));
    assert!(blockchain.commit(patch, block_hash, Vec::new(), &mut cache).is_ok());
    assert_eq!(blockchain.get_saved_peers().len(), 2);
}

#[test]
fn consensus_messages_cache() {
    let mut blockchain = counter_ledger();
    blockchain.save_messages(Round(1), vec![SignedMessage::new(vec![1]), SignedMessage::new(vec![2])]);
    blockchain.save_message(Round(2), SignedMessage::new(vec![3]));
    blockchain.save_messages(Round(5), Vec::new());
    let snapshot = blockchain.snapshot();
    let messages = snapshot.caches().consensus_messages_cache();
    assert_eq!(
        messages.as_vec(),
        &vec![SignedMessage::new(vec![1]), SignedMessage::new(vec![2]), SignedMessage::new(vec![3])]
    );
    assert_eq!(snapshot.caches().consensus_round(), Round(5));
}

#[test]
fn transactions_are_found_in_blocks_pool_and_cache() {
    let mut blockchain = counter_ledger();
    let in_block = envelope(1, INCREMENT, 1);
    let in_pool = envelope(1, INCREMENT, 2);
    let in_cache = envelope(1, INCREMENT, 3);
    let nowhere = envelope(1, INCREMENT, 4);
    let mut cache = cache_of(&[in_block.clone(), in_pool.clone()]);
    let (block_hash, patch) = propose(&blockchain, 1, &[in_block.clone()], &mut cache).unwrap();
    blockchain.commit(patch, block_hash, Vec::new(), &mut cache).unwrap();
    let cache = cache_of(&[in_cache.clone()]);
    let snapshot = blockchain.snapshot();
    let schema = snapshot.schema();
    assert_eq!(get_tx(&in_block.0, schema, &cache), Some(in_block.1.clone()));
    assert_eq!(get_tx(&in_pool.0, schema, &cache), Some(in_pool.1.clone()));
    assert_eq!(get_tx(&in_cache.0, schema, &cache), Some(in_cache.1.clone()));
    assert_eq!(get_tx(&nowhere.0, schema, &cache), None);
    assert!(check_tx(&in_block.0, schema, &cache));
    assert!(check_tx(&in_pool.0, schema, &cache));
    assert!(check_tx(&in_cache.0, schema, &cache));
    assert!(!check_tx(&nowhere.0, schema, &cache));
}

#[test]
fn can_dispatch_all_checks_envelope_and_service() {
    let blockchain = counter_ledger();
    let known = envelope(1, INCREMENT, 1);
    let refused = envelope(1, 77, 2);
    let foreign = envelope(2, INCREMENT, 3);
    let absent = envelope(1, INCREMENT, 4);
    let cache = cache_of(&[known.clone(), refused.clone(), foreign.clone()]);
    assert!(blockchain.can_dispatch_all(&[], &cache));
    assert!(blockchain.can_dispatch_all(&[known.0], &cache));
    // Whether the service takes the payload is not asked here.
    assert!(blockchain.can_dispatch_all(&[known.0, refused.0], &cache));
    assert!(!blockchain.can_dispatch_all(&[known.0, foreign.0], &cache));
    assert!(!blockchain.can_dispatch_all(&[absent.0, known.0], &cache));
}

#[test]
fn parsed_names_the_service_that_refused() {
    let refusal: Result<Box<dyn Transaction>, ParseError> =
        Err(ParseError { description: "bad".to_string() });
    match parsed(6, refusal) {
        Err(error) => assert_eq!(
            error,
            Error::UnparseableTransaction { service_id: 6, description: "bad".to_string() }
        ),
        Ok(_) => panic!("a refusal stays a refusal"),
    }
    let taken: Result<Box<dyn Transaction>, ParseError> =
        Ok(Box::new(CounterTx { service_id: 6, action: INCREMENT }));
    assert!(parsed(6, taken).is_ok());
}

#[test]
fn entry_keeps_the_identity_given_at_registration() {
    let service = Box::new(CounterService { id: 3, name: "three", hook: INCREMENT, tables: 1 });
    let entry = ServiceEntry::new(service);
    assert_eq!(entry.service_id(), 3);
    assert_eq!(entry.service_name(), "three");
    let service = Box::new(CounterService { id: 3, name: "three", hook: INCREMENT, tables: 1 });
    let renamed = ServiceEntry::with_identity(8, "eight".to_string(), service);
    assert_eq!(renamed.service_id(), 8);
    assert_eq!(renamed.service_name(), "eight");
    assert_eq!(renamed.service().service_id(), 3);
}

#[test]
fn service_context_collects_broadcasts() {
    let blockchain = counter_ledger();
    let (public_key, secret_key) = keys();
    let mut context = ServiceContext::new(public_key, secret_key, blockchain.fork(), 4);
    assert_eq!(context.service_id(), 4);
    assert_eq!(context.public_key(), public_key);
    assert_eq!(context.secret_key(), secret_key);
    assert_eq!(context.fork().schema().block_hashes_by_height().len(), 1);
    context.broadcast_transaction(RawTransaction::new(4, vec![1]));
    context.broadcast_transaction(RawTransaction::new(4, vec![2]));
    assert_eq!(
        context.take_outbox(),
        vec![RawTransaction::new(4, vec![1]), RawTransaction::new(4, vec![2])]
    );
    assert!(context.take_outbox().is_empty());
}

#[test]
fn block_names_the_block_before_it() {
    let mut blockchain = counter_ledger();
    let genesis = blockchain.last_hash();
    let first = propose_and_commit(&mut blockchain, 1, &[]);
    let second = propose_and_commit(&mut blockchain, 2, &[]);
    let snapshot = blockchain.snapshot();
    let blocks = snapshot.schema().blocks();
    assert_eq!(blocks.get(&first).unwrap().prev_hash, genesis);
    assert_eq!(blocks.get(&second).unwrap().prev_hash, first);
    assert_eq!(blocks.get(&second).unwrap().proposer_id, ValidatorId(0));
    assert_eq!(blocks.get(&second).unwrap().hash(), second);
}

#[test]
fn block_commits_to_transactions_and_state() {
    let mut blockchain = counter_ledger();
    let txs = [envelope(1, INCREMENT, 1), envelope(1, INCREMENT, 2)];
    propose_and_commit(&mut blockchain, 1, &txs);
    let snapshot = blockchain.snapshot();
    let block = blockchain.last_block();
    assert_eq!(block.tx_hash, list_root(&hashes_of(&txs)));
    assert_eq!(block.state_hash, map_root(snapshot.schema().state_hash_aggregator().to_vec()));
    // The state hash follows the state: another block changes it.
    let before = block.state_hash;
    propose_and_commit(&mut blockchain, 2, &[envelope(1, INCREMENT, 3)]);
    assert_ne!(blockchain.last_block().state_hash, before);
}
