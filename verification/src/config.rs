//! Configuration of the network: what genesis is given, and what is kept in
//! the configuration history.

use crate::crypto;
use crate::crypto::PublicKey;
use crate::helpers::Height;
use crate::table::Record;
use vstd::prelude::*;

verus! {

/// The two public keys of a validator.
#[derive(Clone, Copy, Debug, PartialEq, Eq)]
pub struct ValidatorKeys {
    /// The key with which the validator signs consensus messages.
    pub consensus_key: PublicKey,
    /// The key with which the services of the validator sign transactions.
    pub service_key: PublicKey,
}

/// Parameters of the consensus algorithm. The core stores them and hands
/// them on; it reads none of them.
#[derive(Clone, Copy, Debug, PartialEq, Eq)]
pub struct ConsensusConfig {
    /// Timeout of the first round, in milliseconds.
    pub first_round_timeout: u64,
    /// Period of status messages, in milliseconds.
    pub status_timeout: u64,
    /// Period of peer exchange, in milliseconds.
    pub peers_timeout: u64,
    /// Largest number of transactions in a block.
    pub txs_block_limit: u32,
    /// Largest length of a message, in bytes.
    pub max_message_len: u32,
    /// Shortest wait before a proposal, in milliseconds.
    pub min_propose_timeout: u64,
    /// Longest wait before a proposal, in milliseconds.
    pub max_propose_timeout: u64,
    /// Number of pending transactions from which the shortest wait is used.
    pub propose_timeout_threshold: u32,
}

/// What the genesis block is made from.
#[derive(Clone, Debug, PartialEq, Eq)]
pub struct GenesisConfig {
    pub consensus: ConsensusConfig,
    pub validator_keys: Vec<ValidatorKeys>,
}

impl GenesisConfig {
    /// A genesis configuration with the given parameters and validators.
    pub fn new_with_consensus(consensus: ConsensusConfig, validator_keys: Vec<ValidatorKeys>) -> (r:
        GenesisConfig)
        ensures
            r.consensus == consensus,
            r.validator_keys == validator_keys,
    {
        GenesisConfig { consensus, validator_keys }
    }
}

/// The configuration of one service: its name and the blob that its
/// initialization returned.
#[derive(Clone, Debug, PartialEq, Eq)]
pub struct ServiceConfig {
    pub name: String,
    pub config: Vec<u8>,
}

/// An entry of the configuration history.
#[derive(Clone, Debug, PartialEq, Eq)]
pub struct StoredConfiguration {
    /// Hash of the configuration that this one replaces; zero for the first.
    pub previous_cfg_hash: crypto::Hash,
    /// Height from which the configuration holds.
    pub actual_from: Height,
    pub validator_keys: Vec<ValidatorKeys>,
    pub consensus: ConsensusConfig,
    /// The configuration of each service, in ascending order of identifier.
    pub services: Vec<ServiceConfig>,
}

/// A `StoredConfiguration` as plain values.
pub struct StoredConfigurationView {
    pub previous_cfg_hash: crypto::Hash,
    pub actual_from: Height,
    pub validator_keys: Seq<ValidatorKeys>,
    pub consensus: ConsensusConfig,
    pub services: Seq<(Seq<char>, Seq<u8>)>,
}

/// The names and blobs of `services`, in order.
pub open spec fn services_view(services: Seq<ServiceConfig>) -> Seq<(Seq<char>, Seq<u8>)> {
    Seq::new(services.len(), |i: int| (services[i].name@, services[i].config@))
}

impl View for StoredConfiguration {
    type V = StoredConfigurationView;

    open spec fn view(&self) -> StoredConfigurationView {
        StoredConfigurationView {
            previous_cfg_hash: self.previous_cfg_hash,
            actual_from: self.actual_from,
            validator_keys: self.validator_keys@,
            consensus: self.consensus,
            services: services_view(self.services@),
        }
    }
}

impl Record for StoredConfiguration {
    fn duplicate(&self) -> (r: Self) {
        let mut validator_keys: Vec<ValidatorKeys> = Vec::new();
        let mut i: usize = 0;
        while i < self.validator_keys.len()
            invariant
                0 <= i <= self.validator_keys@.len(),
                validator_keys@ == self.validator_keys@.subrange(0, i as int),
            decreases self.validator_keys@.len() - i,
        {
            validator_keys.push(self.validator_keys[i]);
            i += 1;
        }
        assert(self.validator_keys@.subrange(0, self.validator_keys@.len() as int)
            == self.validator_keys@);
        let mut services: Vec<ServiceConfig> = Vec::new();
        let mut j: usize = 0;
        while j < self.services.len()
            invariant
                0 <= j <= self.services@.len(),
                services@.len() == j,
                forall|k: int|
                    0 <= k < j ==> (#[trigger] services@[k]).name@ == self.services@[k].name@
                        && services@[k].config@ == self.services@[k].config@,
            decreases self.services@.len() - j,
        {
            let name = self.services[j].name.clone();
            let config = self.services[j].config.duplicate();
            services.push(ServiceConfig { name, config });
            j += 1;
        }
        assert(services_view(services@) =~= services_view(self.services@));
        StoredConfiguration {
            previous_cfg_hash: self.previous_cfg_hash,
            actual_from: self.actual_from,
            validator_keys,
            consensus: self.consensus,
            services,
        }
    }
}

} // verus!
