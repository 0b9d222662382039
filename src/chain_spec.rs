//! The chain parameters that this library reads.
use vstd::prelude::*;

use crate::primitives::{Hash256, Signature};

verus! {

/// The chain parameters that genesis construction reads.
#[derive(Debug, Clone, Copy, PartialEq, Eq)]
pub struct ChainSpec {
    /// The slot of the genesis block.
    pub genesis_slot: u64,
    /// The epoch of the genesis block.
    pub genesis_epoch: u64,
    /// The fork version in force at genesis.
    pub genesis_fork_version: u64,
    /// The epoch that stands for "never".
    pub far_future_epoch: u64,
    /// The balance, in Gwei, that activates a validator at genesis.
    pub max_deposit_amount: u64,
    /// The all-zero hash.
    pub zero_hash: Hash256,
    /// The placeholder signature of unsigned messages.
    pub empty_signature: Signature,
}

impl ChainSpec {
    /// The parameters of the foundation chain.
    pub fn foundation() -> (r: ChainSpec)
        ensures
            r.genesis_slot == 0,
            r.genesis_epoch == 0,
            r.genesis_fork_version == 0,
            r.far_future_epoch == u64::MAX,
            r.max_deposit_amount == 32_000_000_000,
            r.zero_hash.spec_is_zero(),
            r.empty_signature.spec_is_empty(),
    {
        ChainSpec {
            genesis_slot: 0,
            genesis_epoch: 0,
            genesis_fork_version: 0,
            far_future_epoch: u64::MAX,
            max_deposit_amount: 32_000_000_000,
            zero_hash: Hash256::zero(),
            empty_signature: Signature::empty_signature(),
        }
    }
}

} // verus!
