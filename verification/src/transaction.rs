//! Transactions as the services hand them to the core, what running one
//! may yield, and what the core records of it.

use crate::crypto;
use crate::crypto::PublicKey;
use crate::helpers::Height;
use crate::service_data::ServiceData;
use crate::table::Record;
use vstd::prelude::*;

verus! {

/// What came of running a transaction, or a hook of a service, behind the
/// fault barrier.
#[derive(Clone, Debug, PartialEq, Eq)]
pub enum ExecutionOutcome {
    /// It ran to its end and reported success.
    Success,
    /// It ran to its end and reported an error of the service.
    Failed { code: u8, description: String },
    /// It ended unexpectedly, for a reason other than the store.
    Panicked { description: String },
    /// It ended unexpectedly because the store failed under it.
    StorageFault { description: String },
}

/// What the core records of a transaction that it has run.
#[derive(Clone, Debug, PartialEq, Eq)]
pub enum TransactionResult {
    /// The transaction succeeded; its changes are part of the state.
    Success,
    /// The service reported an error; the state holds none of its changes.
    Failure { code: u8, description: String },
    /// The transaction ended unexpectedly; the state holds none of its changes.
    Panic { description: String },
}

/// A `TransactionResult` as plain values.
pub enum TransactionResultView {
    Success,
    Failure { code: u8, description: Seq<char> },
    Panic { description: Seq<char> },
}

impl View for TransactionResult {
    type V = TransactionResultView;

    open spec fn view(&self) -> TransactionResultView {
        match *self {
            TransactionResult::Success => TransactionResultView::Success,
            TransactionResult::Failure { code, description } => TransactionResultView::Failure {
                code,
                description: description@,
            },
            TransactionResult::Panic { description } => TransactionResultView::Panic {
                description: description@,
            },
        }
    }
}

impl Record for TransactionResult {
    fn duplicate(&self) -> (r: Self) {
        match self {
            TransactionResult::Success => TransactionResult::Success,
            TransactionResult::Failure { code, description } => TransactionResult::Failure {
                code: *code,
                description: description.clone(),
            },
            TransactionResult::Panic { description } => TransactionResult::Panic {
                description: description.clone(),
            },
        }
    }
}

impl TransactionResult {
    /// Tells whether the transaction succeeded.
    pub fn is_success(&self) -> (r: bool)
        ensures
            r == (self@ is Success),
    {
        match self {
            TransactionResult::Success => true,
            _ => false,
        }
    }
}

/// What the core records for an outcome: nothing for a storage fault, which
/// is never turned into a result.
pub open spec fn recorded_result(outcome: ExecutionOutcome) -> Option<TransactionResultView> {
    match outcome {
        ExecutionOutcome::Success => Some(TransactionResultView::Success),
        ExecutionOutcome::Failed { code, description } => Some(
            TransactionResultView::Failure { code, description: description@ },
        ),
        ExecutionOutcome::Panicked { description } => Some(
            TransactionResultView::Panic { description: description@ },
        ),
        ExecutionOutcome::StorageFault { description } => None,
    }
}

/// Tells whether the changes made while the outcome arose are kept.
pub open spec fn keeps_changes(outcome: ExecutionOutcome) -> bool {
    outcome is Success
}

/// Classifies an outcome: the result to record, or the description of the
/// storage fault that must not be recorded but handed up.
pub fn classify(outcome: ExecutionOutcome) -> (r: Result<TransactionResult, String>)
    ensures
        match r {
            Ok(result) => recorded_result(outcome) == Some(result@),
            Err(description) => outcome == (ExecutionOutcome::StorageFault { description }),
        },
{
    match outcome {
        ExecutionOutcome::Success => Ok(TransactionResult::Success),
        ExecutionOutcome::Failed { code, description } => Ok(
            TransactionResult::Failure { code, description },
        ),
        ExecutionOutcome::Panicked { description } => Ok(TransactionResult::Panic { description }),
        ExecutionOutcome::StorageFault { description } => Err(description),
    }
}

/// Where a transaction stands in the chain.
#[derive(Clone, Copy, Debug, PartialEq, Eq)]
pub struct TxLocation {
    pub block_height: Height,
    pub position_in_block: u64,
}

impl View for TxLocation {
    type V = TxLocation;

    open spec fn view(&self) -> TxLocation {
        *self
    }
}

impl Record for TxLocation {
    fn duplicate(&self) -> (r: Self) {
        *self
    }
}

impl TxLocation {
    /// The location `position_in_block` of the block at `block_height`.
    pub fn new(block_height: Height, position_in_block: u64) -> (r: TxLocation)
        ensures
            r == (TxLocation { block_height, position_in_block }),
    {
        TxLocation { block_height, position_in_block }
    }

    /// The height of the block that holds the transaction.
    pub fn block_height(&self) -> (r: Height)
        ensures
            r == self.block_height,
    {
        self.block_height
    }

    /// The position of the transaction in its block.
    pub fn position_in_block(&self) -> (r: u64)
        ensures
            r == self.position_in_block,
    {
        self.position_in_block
    }
}

/// What a transaction may read about itself while it runs.
#[derive(Clone, Debug, PartialEq, Eq)]
pub struct TransactionContext {
    pub service_id: u16,
    pub service_name: String,
    pub tx_hash: crypto::Hash,
    pub author: PublicKey,
}

impl TransactionContext {
    /// The context of the transaction `tx_hash` of `author`, dispatched to
    /// the service `service_id` with the name `service_name`.
    pub fn new(service_id: u16, service_name: String, tx_hash: crypto::Hash, author: PublicKey) -> (r:
        TransactionContext)
        ensures
            r.service_id == service_id,
            r.service_name == service_name,
            r.tx_hash == tx_hash,
            r.author == author,
    {
        TransactionContext { service_id, service_name, tx_hash, author }
    }
}

/// A transaction that a service has parsed and that can be run.
///
/// An implementation reports how the run ended instead of unwinding: the
/// fault barrier around the code of the service stands outside this crate.
pub trait Transaction {
    /// Runs the transaction on the data of the services.
    fn execute(&self, data: &mut ServiceData, context: &TransactionContext) -> ExecutionOutcome;
}

} // verus!
