//! Block-production and commit core of a permissioned ledger.
//!
//! Given a set of pluggable services and a transactional store, the core
//! turns an ordered list of pending transaction hashes into a patch of the
//! persistent state and a block header whose hash commits to both the
//! transactions and the resulting state. Every replica that starts from the
//! same state and is given the same transactions builds the same block.
//!
//! # Parts
//!
//! - [`blockchain`]: the ledger facade with the block builder
//!   (`create_patch`), the transaction executor (`execute_transaction`),
//!   the commit engine (`commit`) and genesis (`initialize`).
//! - [`schema`]: the tables of the core and the caches of a node.
//! - [`database`]: the store in memory, with forks, savepoints and patches.
//! - [`aggregator`]: the map of root hashes from which the state hash is
//!   computed, and the unique keys of the tables.
//! - [`service`] and [`transaction`]: what a service implements.
//! - [`laws`]: what holds of the ledger as a whole.
//!
//! # Outside code
//!
//! The code of the services runs behind a fault barrier that stands outside
//! this crate: a transaction or a hook reports how it ended as a value. A
//! storage fault is never recorded as the result of a transaction; it is
//! handed up to the caller, who must halt.
//!
//! The root hashes of merkleized collections are computed by functions that
//! the caller passes in. The core fixes what is handed to them: the hashes
//! of the transactions of a block in their order, and the entries of the
//! aggregator in ascending order of key.
//!
//! SHA-256 comes from the crate `sha2`, and the little-endian encoding of
//! integers from the crate `byteorder`.

pub mod aggregator;
pub mod block;
pub mod blockchain;
pub mod config;
pub mod crypto;
pub mod database;
pub mod encoding;
pub mod helpers;
pub mod laws;
pub mod list;
pub mod messages;
pub mod schema;
pub mod service;
pub mod service_data;
pub mod table;
pub mod transaction;

pub use crate::block::Block;
pub use crate::blockchain::{Blockchain, BroadcastRequest, Error, CORE_SERVICE};
pub use crate::config::{ConsensusConfig, GenesisConfig, StoredConfiguration, ValidatorKeys};
pub use crate::database::{Database, Fork, Patch, Snapshot, StorageError};
pub use crate::schema::{Schema, TxCache};
pub use crate::service::{Service, ServiceContext, ServiceEntry, ServiceMap};
pub use crate::transaction::{
    ExecutionOutcome, Transaction, TransactionContext, TransactionResult, TxLocation,
};
