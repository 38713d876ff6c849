//! Small numeric newtypes shared by the whole crate.

use vstd::prelude::*;

verus! {

/// Height of a block: the number of blocks that precede it.
#[derive(Clone, Copy, Debug, PartialEq, Eq)]
pub struct Height(pub u64);

impl Height {
    /// The height of the genesis block.
    pub fn zero() -> (r: Height)
        ensures
            r.0 == 0,
    {
        Height(0)
    }
}

/// Consensus round number inside one height.
#[derive(Clone, Copy, Debug, PartialEq, Eq)]
pub struct Round(pub u32);

impl Round {
    /// The round that carries no consensus message yet.
    pub fn zero() -> (r: Round)
        ensures
            r.0 == 0,
    {
        Round(0)
    }
}

/// Position of a validator in the list of validator keys.
#[derive(Clone, Copy, Debug, PartialEq, Eq)]
pub struct ValidatorId(pub u16);

impl ValidatorId {
    /// The first validator.
    pub fn zero() -> (r: ValidatorId)
        ensures
            r.0 == 0,
    {
        ValidatorId(0)
    }
}

} // verus!
