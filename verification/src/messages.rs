//! Messages that the core stores and dispatches: transactions with their
//! signed envelope, and signed consensus messages that it keeps as they came.

use crate::crypto::PublicKey;
use crate::table::Record;
use vstd::prelude::*;

verus! {

/// The part of a transaction that a service reads: the identifier of the
/// service it is meant for, and the payload that this service parses.
#[derive(Clone, Debug, PartialEq, Eq)]
pub struct RawTransaction {
    pub service_id: u16,
    pub payload: Vec<u8>,
}

/// What a `RawTransaction` holds, as plain values.
pub struct RawTransactionView {
    pub service_id: u16,
    pub payload: Seq<u8>,
}

impl View for RawTransaction {
    type V = RawTransactionView;

    open spec fn view(&self) -> RawTransactionView {
        RawTransactionView { service_id: self.service_id, payload: self.payload@ }
    }
}

impl RawTransaction {
    /// A transaction for the service `service_id`.
    pub fn new(service_id: u16, payload: Vec<u8>) -> (r: RawTransaction)
        ensures
            r@ == (RawTransactionView { service_id, payload: payload@ }),
    {
        RawTransaction { service_id, payload }
    }

    /// The identifier of the service that the transaction is meant for.
    pub fn service_id(&self) -> (r: u16)
        ensures
            r == self@.service_id,
    {
        self.service_id
    }
}

impl Record for RawTransaction {
    fn duplicate(&self) -> (r: Self) {
        RawTransaction { service_id: self.service_id, payload: self.payload.duplicate() }
    }
}

/// A transaction in its signed envelope. Its identity is the hash of the
/// whole envelope, which travels beside it as the key under which it is kept.
#[derive(Clone, Debug, PartialEq, Eq)]
pub struct SignedTransaction {
    pub author: PublicKey,
    pub raw: RawTransaction,
    pub signature: Vec<u8>,
}

/// What a `SignedTransaction` holds, as plain values.
pub struct SignedTransactionView {
    pub author: PublicKey,
    pub raw: RawTransactionView,
    pub signature: Seq<u8>,
}

impl View for SignedTransaction {
    type V = SignedTransactionView;

    open spec fn view(&self) -> SignedTransactionView {
        SignedTransactionView { author: self.author, raw: self.raw@, signature: self.signature@ }
    }
}

impl SignedTransaction {
    /// Puts `raw` into an envelope signed by `author`.
    pub fn new(author: PublicKey, raw: RawTransaction, signature: Vec<u8>) -> (r:
        SignedTransaction)
        ensures
            r@ == (SignedTransactionView { author, raw: raw@, signature: signature@ }),
    {
        SignedTransaction { author, raw, signature }
    }

    /// The identifier of the service that the transaction is meant for.
    pub fn service_id(&self) -> (r: u16)
        ensures
            r == self@.raw.service_id,
    {
        self.raw.service_id
    }
}

impl Record for SignedTransaction {
    fn duplicate(&self) -> (r: Self) {
        SignedTransaction {
            author: self.author,
            raw: self.raw.duplicate(),
            signature: self.signature.duplicate(),
        }
    }
}

/// A signed consensus message (a precommit, a connect message, or any other
/// message of a round), kept as the bytes that were received.
#[derive(Clone, Debug, PartialEq, Eq)]
pub struct SignedMessage {
    pub bytes: Vec<u8>,
}

impl View for SignedMessage {
    type V = Seq<u8>;

    open spec fn view(&self) -> Seq<u8> {
        self.bytes@
    }
}

impl SignedMessage {
    /// Wraps the bytes of a received message.
    pub fn new(bytes: Vec<u8>) -> (r: SignedMessage)
        ensures
            r@ == bytes@,
    {
        SignedMessage { bytes }
    }
}

impl Record for SignedMessage {
    fn duplicate(&self) -> (r: Self) {
        SignedMessage { bytes: self.bytes.duplicate() }
    }
}

} // verus!
