//! Consensus data types of a beacon chain: their canonical encoding and
//! Merkle commitments, fork domains, and genesis construction.
use vstd::prelude::*;

pub mod block;
pub mod chain_spec;
pub mod codec;
pub mod deposit;
pub mod duty;
pub mod fork;
pub mod genesis;
pub mod primitives;
pub mod records;
pub mod state;

verus! {

} // verus!
