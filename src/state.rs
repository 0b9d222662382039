//! The beacon state: the chain's registry of validators and its balances.
use vstd::prelude::*;

use crate::codec::{
    decode_fixed, decode_list, encode_list, encodes_at, keccak256, keccak256_of,
    lemma_encodes_at_split, list_encoding, list_fits, list_hash_tree_root, list_root, DecodeError,
    FixedCodec,
};
use crate::fork::Fork;
use crate::records::{Eth1Data, Validator};

verus! {

/// The state of the beacon chain.
#[derive(Debug, Clone, PartialEq, Eq)]
pub struct BeaconState {
    /// The current slot.
    pub slot: u64,
    /// When the chain started.
    pub genesis_time: u64,
    /// The fork in force.
    pub fork: Fork,
    /// The validators, one per deposit.
    pub validator_registry: Vec<Validator>,
    /// The balance of each validator, in Gwei.
    pub validator_balances: Vec<u64>,
    /// The last agreed proof-of-work chain vote.
    pub latest_eth1_data: Eth1Data,
}

/// The encoding of a `BeaconState` with these fields: their encodings in order.
pub open spec fn state_encoding(slot: u64, genesis_time: u64, fork: Fork, validator_registry: Seq<Validator>, validator_balances: Seq<u64>, latest_eth1_data: Eth1Data) -> Seq<u8> {
    slot.spec_encode() + genesis_time.spec_encode() + fork.spec_encode() + list_encoding(validator_registry) + list_encoding(validator_balances) + latest_eth1_data.spec_encode()
}

/// The commitment to a `BeaconState` with these fields: the digest of their
/// commitments in order.
pub open spec fn state_root(slot: u64, genesis_time: u64, fork: Fork, validator_registry: Seq<Validator>, validator_balances: Seq<u64>, latest_eth1_data: Eth1Data) -> Seq<u8> {
    keccak256_of(slot.spec_root() + genesis_time.spec_root() + fork.spec_root() + list_root(validator_registry) + list_root(validator_balances) + latest_eth1_data.spec_root())
}

/// The bytes from `off` on start with the encoding of a `BeaconState` exactly
/// where they hold the encoding of each field, one after another.
pub proof fn lemma_state_encoding_at(bytes: Seq<u8>, off: int, slot: u64, genesis_time: u64, fork: Fork, validator_registry: Seq<Validator>, validator_balances: Seq<u64>, latest_eth1_data: Eth1Data)
    ensures
        encodes_at(bytes, off, state_encoding(slot, genesis_time, fork, validator_registry, validator_balances, latest_eth1_data)) <==> (encodes_at(bytes, off, slot.spec_encode()) && encodes_at(bytes, off + slot.spec_encode().len(), genesis_time.spec_encode()) && encodes_at(bytes, off + slot.spec_encode().len() + genesis_time.spec_encode().len(), fork.spec_encode()) && encodes_at(bytes, off + slot.spec_encode().len() + genesis_time.spec_encode().len() + fork.spec_encode().len(), list_encoding(validator_registry)) && encodes_at(bytes, off + slot.spec_encode().len() + genesis_time.spec_encode().len() + fork.spec_encode().len() + list_encoding(validator_registry).len(), list_encoding(validator_balances)) && encodes_at(bytes, off + slot.spec_encode().len() + genesis_time.spec_encode().len() + fork.spec_encode().len() + list_encoding(validator_registry).len() + list_encoding(validator_balances).len(), latest_eth1_data.spec_encode())),
{
    lemma_encodes_at_split(bytes, off, slot.spec_encode() + genesis_time.spec_encode() + fork.spec_encode() + list_encoding(validator_registry) + list_encoding(validator_balances), latest_eth1_data.spec_encode());
    lemma_encodes_at_split(bytes, off, slot.spec_encode() + genesis_time.spec_encode() + fork.spec_encode() + list_encoding(validator_registry), list_encoding(validator_balances));
    lemma_encodes_at_split(bytes, off, slot.spec_encode() + genesis_time.spec_encode() + fork.spec_encode(), list_encoding(validator_registry));
    lemma_encodes_at_split(bytes, off, slot.spec_encode() + genesis_time.spec_encode(), fork.spec_encode());
    lemma_encodes_at_split(bytes, off, slot.spec_encode(), genesis_time.spec_encode());
}

impl BeaconState {
    /// Every list of the value fits the four-byte length of its encoding.
    pub open spec fn fits(&self) -> bool {
        list_fits(self.validator_registry@) && list_fits(self.validator_balances@)
    }

    /// The encoding of `self`.
    pub open spec fn spec_encode(&self) -> Seq<u8> {
        state_encoding(self.slot, self.genesis_time, self.fork, self.validator_registry@, self.validator_balances@, self.latest_eth1_data)
    }

    /// The commitment to `self`.
    pub open spec fn spec_root(&self) -> Seq<u8> {
        state_root(self.slot, self.genesis_time, self.fork, self.validator_registry@, self.validator_balances@, self.latest_eth1_data)
    }

    /// Appends the encoding of `self` to `out`.
    pub fn ssz_append(&self, out: &mut Vec<u8>)
        requires
            self.fits(),
        ensures
            final(out)@ == old(out)@ + self.spec_encode(),
    {
        let ghost start = out@;
        self.slot.encode_into(out);
        self.genesis_time.encode_into(out);
        self.fork.encode_into(out);
        encode_list(out, &self.validator_registry);
        encode_list(out, &self.validator_balances);
        self.latest_eth1_data.encode_into(out);
        assert(out@ =~= start + self.spec_encode());
    }

    /// Reads the value encoded at `off`, and the offset after it.
    ///
    /// Where the bytes at `off` start with the encoding of a value, that value
    /// comes back; where they start with none, an error does.
    #[verifier::rlimit(100)]
    #[verifier::spinoff_prover]
    pub fn ssz_decode(bytes: &Vec<u8>, off: usize) -> (r: Result<(BeaconState, usize), DecodeError>)
        requires
            off <= bytes@.len(),
        ensures
            r matches Ok((v, n)) ==> v.fits() && encodes_at(bytes@, off as int, v.spec_encode()) && n == off + v.spec_encode().len(),
            forall|slot: u64, genesis_time: u64, fork: Fork, validator_registry: Seq<Validator>, validator_balances: Seq<u64>, latest_eth1_data: Eth1Data|
                list_fits(validator_registry) && list_fits(validator_balances) && encodes_at(bytes@, off as int, #[trigger] state_encoding(slot, genesis_time, fork, validator_registry, validator_balances, latest_eth1_data)) ==> (r matches Ok((v, n)) && v.slot == slot && v.genesis_time == genesis_time && v.fork == fork && v.validator_registry@ == validator_registry && v.validator_balances@ == validator_balances && v.latest_eth1_data == latest_eth1_data && n == off + state_encoding(slot, genesis_time, fork, validator_registry, validator_balances, latest_eth1_data).len()),
    {
        let (slot, n_slot) = match decode_fixed::<u64>(bytes, off) {
            Ok(x) => x,
            Err(e) => {
                proof {
                    assert forall|slot: u64, genesis_time: u64, fork: Fork, validator_registry: Seq<Validator>, validator_balances: Seq<u64>, latest_eth1_data: Eth1Data| list_fits(validator_registry) && list_fits(validator_balances) && encodes_at(bytes@, off as int, #[trigger] state_encoding(slot, genesis_time, fork, validator_registry, validator_balances, latest_eth1_data)) implies false by {
                        lemma_state_encoding_at(bytes@, off as int, slot, genesis_time, fork, validator_registry, validator_balances, latest_eth1_data);
                    }
                }
                return Err(e);
            },
        };
        let (genesis_time, n_genesis_time) = match decode_fixed::<u64>(bytes, n_slot) {
            Ok(x) => x,
            Err(e) => {
                proof {
                    assert forall|slot: u64, genesis_time: u64, fork: Fork, validator_registry: Seq<Validator>, validator_balances: Seq<u64>, latest_eth1_data: Eth1Data| list_fits(validator_registry) && list_fits(validator_balances) && encodes_at(bytes@, off as int, #[trigger] state_encoding(slot, genesis_time, fork, validator_registry, validator_balances, latest_eth1_data)) implies false by {
                        lemma_state_encoding_at(bytes@, off as int, slot, genesis_time, fork, validator_registry, validator_balances, latest_eth1_data);
                    }
                }
                return Err(e);
            },
        };
        let (fork, n_fork) = match decode_fixed::<Fork>(bytes, n_genesis_time) {
            Ok(x) => x,
            Err(e) => {
                proof {
                    assert forall|slot: u64, genesis_time: u64, fork: Fork, validator_registry: Seq<Validator>, validator_balances: Seq<u64>, latest_eth1_data: Eth1Data| list_fits(validator_registry) && list_fits(validator_balances) && encodes_at(bytes@, off as int, #[trigger] state_encoding(slot, genesis_time, fork, validator_registry, validator_balances, latest_eth1_data)) implies false by {
                        lemma_state_encoding_at(bytes@, off as int, slot, genesis_time, fork, validator_registry, validator_balances, latest_eth1_data);
                    }
                }
                return Err(e);
            },
        };
        let (validator_registry, n_validator_registry) = match decode_list::<Validator>(bytes, n_fork) {
            Ok(x) => x,
            Err(e) => {
                proof {
                    assert forall|slot: u64, genesis_time: u64, fork: Fork, validator_registry: Seq<Validator>, validator_balances: Seq<u64>, latest_eth1_data: Eth1Data| list_fits(validator_registry) && list_fits(validator_balances) && encodes_at(bytes@, off as int, #[trigger] state_encoding(slot, genesis_time, fork, validator_registry, validator_balances, latest_eth1_data)) implies false by {
                        lemma_state_encoding_at(bytes@, off as int, slot, genesis_time, fork, validator_registry, validator_balances, latest_eth1_data);
                    }
                }
                return Err(e);
            },
        };
        let (validator_balances, n_validator_balances) = match decode_list::<u64>(bytes, n_validator_registry) {
            Ok(x) => x,
            Err(e) => {
                proof {
                    assert forall|slot: u64, genesis_time: u64, fork: Fork, validator_registry: Seq<Validator>, validator_balances: Seq<u64>, latest_eth1_data: Eth1Data| list_fits(validator_registry) && list_fits(validator_balances) && encodes_at(bytes@, off as int, #[trigger] state_encoding(slot, genesis_time, fork, validator_registry, validator_balances, latest_eth1_data)) implies false by {
                        lemma_state_encoding_at(bytes@, off as int, slot, genesis_time, fork, validator_registry, validator_balances, latest_eth1_data);
                    }
                }
                return Err(e);
            },
        };
        let (latest_eth1_data, n_latest_eth1_data) = match decode_fixed::<Eth1Data>(bytes, n_validator_balances) {
            Ok(x) => x,
            Err(e) => {
                proof {
                    assert forall|slot: u64, genesis_time: u64, fork: Fork, validator_registry: Seq<Validator>, validator_balances: Seq<u64>, latest_eth1_data: Eth1Data| list_fits(validator_registry) && list_fits(validator_balances) && encodes_at(bytes@, off as int, #[trigger] state_encoding(slot, genesis_time, fork, validator_registry, validator_balances, latest_eth1_data)) implies false by {
                        lemma_state_encoding_at(bytes@, off as int, slot, genesis_time, fork, validator_registry, validator_balances, latest_eth1_data);
                    }
                }
                return Err(e);
            },
        };
        let v = BeaconState { slot, genesis_time, fork, validator_registry, validator_balances, latest_eth1_data };
        proof {
            assert forall|slot: u64, genesis_time: u64, fork: Fork, validator_registry: Seq<Validator>, validator_balances: Seq<u64>, latest_eth1_data: Eth1Data| list_fits(validator_registry) && list_fits(validator_balances) && encodes_at(bytes@, off as int, #[trigger] state_encoding(slot, genesis_time, fork, validator_registry, validator_balances, latest_eth1_data)) implies (v.slot == slot && v.genesis_time == genesis_time && v.fork == fork && v.validator_registry@ == validator_registry && v.validator_balances@ == validator_balances && v.latest_eth1_data == latest_eth1_data && n_latest_eth1_data == off + state_encoding(slot, genesis_time, fork, validator_registry, validator_balances, latest_eth1_data).len()) by {
                lemma_state_encoding_at(bytes@, off as int, slot, genesis_time, fork, validator_registry, validator_balances, latest_eth1_data);
            }
            lemma_state_encoding_at(bytes@, off as int, v.slot, v.genesis_time, v.fork, v.validator_registry@, v.validator_balances@, v.latest_eth1_data);
        }
        Ok((v, n_latest_eth1_data))
    }

    /// The 32-byte commitment to `self`.
    pub fn hash_tree_root(&self) -> (r: Vec<u8>)
        ensures
            r@ == self.spec_root(),
            r@.len() == 32,
    {
        let mut buf: Vec<u8> = Vec::new();
        let mut slot = self.slot.hash_tree_root();
        buf.append(&mut slot);
        let mut genesis_time = self.genesis_time.hash_tree_root();
        buf.append(&mut genesis_time);
        let mut fork = self.fork.hash_tree_root();
        buf.append(&mut fork);
        let mut validator_registry = list_hash_tree_root(&self.validator_registry);
        buf.append(&mut validator_registry);
        let mut validator_balances = list_hash_tree_root(&self.validator_balances);
        buf.append(&mut validator_balances);
        let mut latest_eth1_data = self.latest_eth1_data.hash_tree_root();
        buf.append(&mut latest_eth1_data);
        assert(buf@ =~= self.slot.spec_root() + self.genesis_time.spec_root() + self.fork.spec_root() + list_root(self.validator_registry@) + list_root(self.validator_balances@) + self.latest_eth1_data.spec_root());
        keccak256(&buf)
    }
}


/// Encoding and hashing of a state are functions of its fields and of what
/// its lists hold: two such states have one encoding and one commitment.
pub proof fn lemma_state_deterministic(a: BeaconState, b: BeaconState)
    requires
        a.slot == b.slot,
        a.genesis_time == b.genesis_time,
        a.fork == b.fork,
        a.validator_registry@ == b.validator_registry@,
        a.validator_balances@ == b.validator_balances@,
        a.latest_eth1_data == b.latest_eth1_data,
    ensures
        a.spec_encode() == b.spec_encode(),
        a.spec_root() == b.spec_root(),
{
}

} // verus!
