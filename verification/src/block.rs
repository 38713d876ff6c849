//! The block header and its hash.

use crate::crypto;
use crate::crypto::digest;
use crate::encoding::{append_bytes, encode_u16, encode_u32, encode_u64, le_bytes};
use crate::helpers::{Height, ValidatorId};
use crate::table::Record;
use vstd::prelude::*;

verus! {

/// Header of a block: who proposed it, where it stands in the chain, and
/// the digests that commit to its transactions and to the state they led to.
#[derive(Clone, Copy, Debug, PartialEq, Eq)]
pub struct Block {
    pub proposer_id: ValidatorId,
    pub height: Height,
    pub tx_count: u32,
    pub prev_hash: crypto::Hash,
    pub tx_hash: crypto::Hash,
    pub state_hash: crypto::Hash,
}

impl View for Block {
    type V = Block;

    open spec fn view(&self) -> Block {
        *self
    }
}

impl Record for Block {
    fn duplicate(&self) -> (r: Self) {
        *self
    }
}

impl Block {
    /// The bytes that are hashed: the proposer as two bytes, the height as
    /// eight, the number of transactions as four, each least significant
    /// byte first, then the three digests.
    pub open spec fn encoding(self) -> Seq<u8> {
        le_bytes(self.proposer_id.0 as nat, 2) + le_bytes(self.height.0 as nat, 8) + le_bytes(
            self.tx_count as nat,
            4,
        ) + self.prev_hash.bytes@ + self.tx_hash.bytes@ + self.state_hash.bytes@
    }

    /// The hash of this header: SHA-256 of its encoding.
    pub open spec fn hash_spec(self) -> crypto::Hash {
        digest(self.encoding())
    }

    /// Assembles a header from its fields.
    pub fn new(
        proposer_id: ValidatorId,
        height: Height,
        tx_count: u32,
        prev_hash: &crypto::Hash,
        tx_hash: &crypto::Hash,
        state_hash: &crypto::Hash,
    ) -> (r: Block)
        ensures
            r == (Block {
                proposer_id,
                height,
                tx_count,
                prev_hash: *prev_hash,
                tx_hash: *tx_hash,
                state_hash: *state_hash,
            }),
    {
        Block {
            proposer_id,
            height,
            tx_count,
            prev_hash: *prev_hash,
            tx_hash: *tx_hash,
            state_hash: *state_hash,
        }
    }

    /// The identifier of the validator that proposed the block.
    pub fn proposer_id(&self) -> (r: ValidatorId)
        ensures
            r == self.proposer_id,
    {
        self.proposer_id
    }

    /// The height of the block.
    pub fn height(&self) -> (r: Height)
        ensures
            r == self.height,
    {
        self.height
    }

    /// The number of transactions in the block.
    pub fn tx_count(&self) -> (r: u32)
        ensures
            r == self.tx_count,
    {
        self.tx_count
    }

    /// Serializes the header.
    pub fn to_bytes(&self) -> (r: Vec<u8>)
        ensures
            r@ == self.encoding(),
    {
        let mut out: Vec<u8> = Vec::new();
        let proposer = encode_u16(self.proposer_id.0);
        append_bytes(&mut out, proposer.as_slice());
        let height = encode_u64(self.height.0);
        append_bytes(&mut out, height.as_slice());
        let count = encode_u32(self.tx_count);
        append_bytes(&mut out, count.as_slice());
        append_bytes(&mut out, self.prev_hash.bytes.as_slice());
        append_bytes(&mut out, self.tx_hash.bytes.as_slice());
        append_bytes(&mut out, self.state_hash.bytes.as_slice());
        out
    }

    /// The hash of the header: SHA-256 of its serialization.
    pub fn hash(&self) -> (r: crypto::Hash)
        ensures
            r == self.hash_spec(),
    {
        let bytes = self.to_bytes();
        crypto::hash(bytes.as_slice())
    }
}

} // verus!
