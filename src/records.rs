//! Fixed-size records of the consensus data model.
use vstd::prelude::*;

use crate::codec::{keccak256, keccak256_of, DecodeError, FixedCodec};
use crate::primitives::{Hash256, PublicKey, Signature};

verus! {

/// A vote on the deposit contract's state in the proof-of-work chain.
#[derive(Debug, Clone, Copy, PartialEq, Eq)]
pub struct Eth1Data {
    /// Root of the deposit tree.
    pub deposit_root: Hash256,
    /// Hash of the proof-of-work block voted on.
    pub block_hash: Hash256,
}

/// The encoding of a `Eth1Data` has 64 bytes, and each field's encoding stands
/// at its offset.
pub proof fn lemma_eth1_data_fields(v: Eth1Data)
    ensures
        v.spec_encode().len() == 64,
        v.spec_encode().subrange(0, 32) == v.deposit_root.spec_encode(),
        v.spec_encode().subrange(32, 64) == v.block_hash.spec_encode(),
{
    v.deposit_root.lemma_encoding_size();
    v.block_hash.lemma_encoding_size();
    assert(v.spec_encode().subrange(0, 32) =~= v.deposit_root.spec_encode());
    assert(v.spec_encode().subrange(32, 64) =~= v.block_hash.spec_encode());
}

impl FixedCodec for Eth1Data {
    open spec fn spec_size() -> nat {
        64
    }

    open spec fn spec_encode(self) -> Seq<u8> {
        self.deposit_root.spec_encode() + self.block_hash.spec_encode()
    }

    open spec fn spec_root(self) -> Seq<u8> {
        keccak256_of(self.deposit_root.spec_root() + self.block_hash.spec_root())
    }

    proof fn lemma_encoding_size(self) {
        lemma_eth1_data_fields(self);
    }

    proof fn lemma_encoding_injective(self, other: Self) {
        lemma_eth1_data_fields(self);
        lemma_eth1_data_fields(other);
        self.deposit_root.lemma_encoding_injective(other.deposit_root);
        self.block_hash.lemma_encoding_injective(other.block_hash);
    }

    fn size() -> (r: usize) {
        64
    }

    fn encode_into(&self, out: &mut Vec<u8>) {
        let ghost start = out@;
        self.deposit_root.encode_into(out);
        self.block_hash.encode_into(out);
        assert(out@ =~= start + self.spec_encode());
    }

    fn decode_at(bytes: &Vec<u8>, off: usize) -> (r: Result<Self, DecodeError>) {
        let _n = bytes.len();
        let deposit_root = match <Hash256 as FixedCodec>::decode_at(bytes, off + 0) {
            Ok(x) => x,
            Err(e) => {
                proof {
                    assert forall|w: Eth1Data| bytes@.subrange(off as int, off + 64) == #[trigger] w.spec_encode() implies false by {
                        lemma_eth1_data_fields(w);
                        assert(bytes@.subrange(off + 0, off + 32) =~= w.spec_encode().subrange(0, 32));
                    }
                }
                return Err(e);
            },
        };
        let block_hash = match <Hash256 as FixedCodec>::decode_at(bytes, off + 32) {
            Ok(x) => x,
            Err(e) => {
                proof {
                    assert forall|w: Eth1Data| bytes@.subrange(off as int, off + 64) == #[trigger] w.spec_encode() implies false by {
                        lemma_eth1_data_fields(w);
                        assert(bytes@.subrange(off + 32, off + 64) =~= w.spec_encode().subrange(32, 64));
                    }
                }
                return Err(e);
            },
        };
        let v = Eth1Data { deposit_root, block_hash };
        proof {
            lemma_eth1_data_fields(v);
            assert(bytes@.subrange(off as int, off + 64).subrange(0, 32) =~= bytes@.subrange(off + 0, off + 32));
            assert(bytes@.subrange(off as int, off + 64).subrange(32, 64) =~= bytes@.subrange(off + 32, off + 64));
            assert(bytes@.subrange(off as int, off + 64) =~= v.spec_encode());
            assert forall|w: Eth1Data| bytes@.subrange(off as int, off + 64) == #[trigger] w.spec_encode() implies w == v by {
                w.lemma_encoding_injective(v);
            }
        }
        Ok(v)
    }

    fn hash_tree_root(&self) -> (r: Vec<u8>) {
        let mut buf: Vec<u8> = Vec::new();
        let mut deposit_root = self.deposit_root.hash_tree_root();
        buf.append(&mut deposit_root);
        let mut block_hash = self.block_hash.hash_tree_root();
        buf.append(&mut block_hash);
        assert(buf@ =~= self.deposit_root.spec_root() + self.block_hash.spec_root());
        keccak256(&buf)
    }
}

/// What a depositor signs: the key, the withdrawal credentials, and a proof
/// that the key's owner made the deposit.
#[derive(Debug, Clone, Copy, PartialEq, Eq)]
pub struct DepositInput {
    /// The validator's public key.
    pub pubkey: PublicKey,
    /// Where withdrawn funds may go.
    pub withdrawal_credentials: Hash256,
    /// A signature that proves possession of the key.
    pub proof_of_possession: Signature,
}

/// The encoding of a `DepositInput` has 176 bytes, and each field's encoding stands
/// at its offset.
pub proof fn lemma_deposit_input_fields(v: DepositInput)
    ensures
        v.spec_encode().len() == 176,
        v.spec_encode().subrange(0, 48) == v.pubkey.spec_encode(),
        v.spec_encode().subrange(48, 80) == v.withdrawal_credentials.spec_encode(),
        v.spec_encode().subrange(80, 176) == v.proof_of_possession.spec_encode(),
{
    v.pubkey.lemma_encoding_size();
    v.withdrawal_credentials.lemma_encoding_size();
    v.proof_of_possession.lemma_encoding_size();
    assert(v.spec_encode().subrange(0, 48) =~= v.pubkey.spec_encode());
    assert(v.spec_encode().subrange(48, 80) =~= v.withdrawal_credentials.spec_encode());
    assert(v.spec_encode().subrange(80, 176) =~= v.proof_of_possession.spec_encode());
}

impl FixedCodec for DepositInput {
    open spec fn spec_size() -> nat {
        176
    }

    open spec fn spec_encode(self) -> Seq<u8> {
        self.pubkey.spec_encode() + self.withdrawal_credentials.spec_encode() + self.proof_of_possession.spec_encode()
    }

    open spec fn spec_root(self) -> Seq<u8> {
        keccak256_of(self.pubkey.spec_root() + self.withdrawal_credentials.spec_root() + self.proof_of_possession.spec_root())
    }

    proof fn lemma_encoding_size(self) {
        lemma_deposit_input_fields(self);
    }

    proof fn lemma_encoding_injective(self, other: Self) {
        lemma_deposit_input_fields(self);
        lemma_deposit_input_fields(other);
        self.pubkey.lemma_encoding_injective(other.pubkey);
        self.withdrawal_credentials.lemma_encoding_injective(other.withdrawal_credentials);
        self.proof_of_possession.lemma_encoding_injective(other.proof_of_possession);
    }

    fn size() -> (r: usize) {
        176
    }

    fn encode_into(&self, out: &mut Vec<u8>) {
        let ghost start = out@;
        self.pubkey.encode_into(out);
        self.withdrawal_credentials.encode_into(out);
        self.proof_of_possession.encode_into(out);
        assert(out@ =~= start + self.spec_encode());
    }

    fn decode_at(bytes: &Vec<u8>, off: usize) -> (r: Result<Self, DecodeError>) {
        let _n = bytes.len();
        let pubkey = match <PublicKey as FixedCodec>::decode_at(bytes, off + 0) {
            Ok(x) => x,
            Err(e) => {
                proof {
                    assert forall|w: DepositInput| bytes@.subrange(off as int, off + 176) == #[trigger] w.spec_encode() implies false by {
                        lemma_deposit_input_fields(w);
                        assert(bytes@.subrange(off + 0, off + 48) =~= w.spec_encode().subrange(0, 48));
                    }
                }
                return Err(e);
            },
        };
        let withdrawal_credentials = match <Hash256 as FixedCodec>::decode_at(bytes, off + 48) {
            Ok(x) => x,
            Err(e) => {
                proof {
                    assert forall|w: DepositInput| bytes@.subrange(off as int, off + 176) == #[trigger] w.spec_encode() implies false by {
                        lemma_deposit_input_fields(w);
                        assert(bytes@.subrange(off + 48, off + 80) =~= w.spec_encode().subrange(48, 80));
                    }
                }
                return Err(e);
            },
        };
        let proof_of_possession = match <Signature as FixedCodec>::decode_at(bytes, off + 80) {
            Ok(x) => x,
            Err(e) => {
                proof {
                    assert forall|w: DepositInput| bytes@.subrange(off as int, off + 176) == #[trigger] w.spec_encode() implies false by {
                        lemma_deposit_input_fields(w);
                        assert(bytes@.subrange(off + 80, off + 176) =~= w.spec_encode().subrange(80, 176));
                    }
                }
                return Err(e);
            },
        };
        let v = DepositInput { pubkey, withdrawal_credentials, proof_of_possession };
        proof {
            lemma_deposit_input_fields(v);
            assert(bytes@.subrange(off as int, off + 176).subrange(0, 48) =~= bytes@.subrange(off + 0, off + 48));
            assert(bytes@.subrange(off as int, off + 176).subrange(48, 80) =~= bytes@.subrange(off + 48, off + 80));
            assert(bytes@.subrange(off as int, off + 176).subrange(80, 176) =~= bytes@.subrange(off + 80, off + 176));
            assert(bytes@.subrange(off as int, off + 176) =~= v.spec_encode());
            assert forall|w: DepositInput| bytes@.subrange(off as int, off + 176) == #[trigger] w.spec_encode() implies w == v by {
                w.lemma_encoding_injective(v);
            }
        }
        Ok(v)
    }

    fn hash_tree_root(&self) -> (r: Vec<u8>) {
        let mut buf: Vec<u8> = Vec::new();
        let mut pubkey = self.pubkey.hash_tree_root();
        buf.append(&mut pubkey);
        let mut withdrawal_credentials = self.withdrawal_credentials.hash_tree_root();
        buf.append(&mut withdrawal_credentials);
        let mut proof_of_possession = self.proof_of_possession.hash_tree_root();
        buf.append(&mut proof_of_possession);
        assert(buf@ =~= self.pubkey.spec_root() + self.withdrawal_credentials.spec_root() + self.proof_of_possession.spec_root());
        keccak256(&buf)
    }
}

/// A deposit's amount, time and input.
#[derive(Debug, Clone, Copy, PartialEq, Eq)]
pub struct DepositData {
    /// The amount in Gwei.
    pub amount: u64,
    /// When the deposit was made.
    pub timestamp: u64,
    /// The signed input.
    pub deposit_input: DepositInput,
}

/// The encoding of a `DepositData` has 192 bytes, and each field's encoding stands
/// at its offset.
pub proof fn lemma_deposit_data_fields(v: DepositData)
    ensures
        v.spec_encode().len() == 192,
        v.spec_encode().subrange(0, 8) == v.amount.spec_encode(),
        v.spec_encode().subrange(8, 16) == v.timestamp.spec_encode(),
        v.spec_encode().subrange(16, 192) == v.deposit_input.spec_encode(),
{
    v.amount.lemma_encoding_size();
    v.timestamp.lemma_encoding_size();
    v.deposit_input.lemma_encoding_size();
    assert(v.spec_encode().subrange(0, 8) =~= v.amount.spec_encode());
    assert(v.spec_encode().subrange(8, 16) =~= v.timestamp.spec_encode());
    assert(v.spec_encode().subrange(16, 192) =~= v.deposit_input.spec_encode());
}

impl FixedCodec for DepositData {
    open spec fn spec_size() -> nat {
        192
    }

    open spec fn spec_encode(self) -> Seq<u8> {
        self.amount.spec_encode() + self.timestamp.spec_encode() + self.deposit_input.spec_encode()
    }

    open spec fn spec_root(self) -> Seq<u8> {
        keccak256_of(self.amount.spec_root() + self.timestamp.spec_root() + self.deposit_input.spec_root())
    }

    proof fn lemma_encoding_size(self) {
        lemma_deposit_data_fields(self);
    }

    proof fn lemma_encoding_injective(self, other: Self) {
        lemma_deposit_data_fields(self);
        lemma_deposit_data_fields(other);
        self.amount.lemma_encoding_injective(other.amount);
        self.timestamp.lemma_encoding_injective(other.timestamp);
        self.deposit_input.lemma_encoding_injective(other.deposit_input);
    }

    fn size() -> (r: usize) {
        192
    }

    fn encode_into(&self, out: &mut Vec<u8>) {
        let ghost start = out@;
        self.amount.encode_into(out);
        self.timestamp.encode_into(out);
        self.deposit_input.encode_into(out);
        assert(out@ =~= start + self.spec_encode());
    }

    fn decode_at(bytes: &Vec<u8>, off: usize) -> (r: Result<Self, DecodeError>) {
        let _n = bytes.len();
        let amount = match <u64 as FixedCodec>::decode_at(bytes, off + 0) {
            Ok(x) => x,
            Err(e) => {
                proof {
                    assert forall|w: DepositData| bytes@.subrange(off as int, off + 192) == #[trigger] w.spec_encode() implies false by {
                        lemma_deposit_data_fields(w);
                        assert(bytes@.subrange(off + 0, off + 8) =~= w.spec_encode().subrange(0, 8));
                    }
                }
                return Err(e);
            },
        };
        let timestamp = match <u64 as FixedCodec>::decode_at(bytes, off + 8) {
            Ok(x) => x,
            Err(e) => {
                proof {
                    assert forall|w: DepositData| bytes@.subrange(off as int, off + 192) == #[trigger] w.spec_encode() implies false by {
                        lemma_deposit_data_fields(w);
                        assert(bytes@.subrange(off + 8, off + 16) =~= w.spec_encode().subrange(8, 16));
                    }
                }
                return Err(e);
            },
        };
        let deposit_input = match <DepositInput as FixedCodec>::decode_at(bytes, off + 16) {
            Ok(x) => x,
            Err(e) => {
                proof {
                    assert forall|w: DepositData| bytes@.subrange(off as int, off + 192) == #[trigger] w.spec_encode() implies false by {
                        lemma_deposit_data_fields(w);
                        assert(bytes@.subrange(off + 16, off + 192) =~= w.spec_encode().subrange(16, 192));
                    }
                }
                return Err(e);
            },
        };
        let v = DepositData { amount, timestamp, deposit_input };
        proof {
            lemma_deposit_data_fields(v);
            assert(bytes@.subrange(off as int, off + 192).subrange(0, 8) =~= bytes@.subrange(off + 0, off + 8));
            assert(bytes@.subrange(off as int, off + 192).subrange(8, 16) =~= bytes@.subrange(off + 8, off + 16));
            assert(bytes@.subrange(off as int, off + 192).subrange(16, 192) =~= bytes@.subrange(off + 16, off + 192));
            assert(bytes@.subrange(off as int, off + 192) =~= v.spec_encode());
            assert forall|w: DepositData| bytes@.subrange(off as int, off + 192) == #[trigger] w.spec_encode() implies w == v by {
                w.lemma_encoding_injective(v);
            }
        }
        Ok(v)
    }

    fn hash_tree_root(&self) -> (r: Vec<u8>) {
        let mut buf: Vec<u8> = Vec::new();
        let mut amount = self.amount.hash_tree_root();
        buf.append(&mut amount);
        let mut timestamp = self.timestamp.hash_tree_root();
        buf.append(&mut timestamp);
        let mut deposit_input = self.deposit_input.hash_tree_root();
        buf.append(&mut deposit_input);
        assert(buf@ =~= self.amount.spec_root() + self.timestamp.spec_root() + self.deposit_input.spec_root());
        keccak256(&buf)
    }
}

/// An entry of the validator registry.
#[derive(Debug, Clone, Copy, PartialEq, Eq)]
pub struct Validator {
    /// The validator's public key.
    pub pubkey: PublicKey,
    /// Where withdrawn funds may go.
    pub withdrawal_credentials: Hash256,
    /// The first epoch in which the validator is active.
    pub activation_epoch: u64,
    /// The first epoch in which the validator is no longer active.
    pub exit_epoch: u64,
}

/// The encoding of a `Validator` has 96 bytes, and each field's encoding stands
/// at its offset.
pub proof fn lemma_validator_fields(v: Validator)
    ensures
        v.spec_encode().len() == 96,
        v.spec_encode().subrange(0, 48) == v.pubkey.spec_encode(),
        v.spec_encode().subrange(48, 80) == v.withdrawal_credentials.spec_encode(),
        v.spec_encode().subrange(80, 88) == v.activation_epoch.spec_encode(),
        v.spec_encode().subrange(88, 96) == v.exit_epoch.spec_encode(),
{
    v.pubkey.lemma_encoding_size();
    v.withdrawal_credentials.lemma_encoding_size();
    v.activation_epoch.lemma_encoding_size();
    v.exit_epoch.lemma_encoding_size();
    assert(v.spec_encode().subrange(0, 48) =~= v.pubkey.spec_encode());
    assert(v.spec_encode().subrange(48, 80) =~= v.withdrawal_credentials.spec_encode());
    assert(v.spec_encode().subrange(80, 88) =~= v.activation_epoch.spec_encode());
    assert(v.spec_encode().subrange(88, 96) =~= v.exit_epoch.spec_encode());
}

impl FixedCodec for Validator {
    open spec fn spec_size() -> nat {
        96
    }

    open spec fn spec_encode(self) -> Seq<u8> {
        self.pubkey.spec_encode() + self.withdrawal_credentials.spec_encode() + self.activation_epoch.spec_encode() + self.exit_epoch.spec_encode()
    }

    open spec fn spec_root(self) -> Seq<u8> {
        keccak256_of(self.pubkey.spec_root() + self.withdrawal_credentials.spec_root() + self.activation_epoch.spec_root() + self.exit_epoch.spec_root())
    }

    proof fn lemma_encoding_size(self) {
        lemma_validator_fields(self);
    }

    proof fn lemma_encoding_injective(self, other: Self) {
        lemma_validator_fields(self);
        lemma_validator_fields(other);
        self.pubkey.lemma_encoding_injective(other.pubkey);
        self.withdrawal_credentials.lemma_encoding_injective(other.withdrawal_credentials);
        self.activation_epoch.lemma_encoding_injective(other.activation_epoch);
        self.exit_epoch.lemma_encoding_injective(other.exit_epoch);
    }

    fn size() -> (r: usize) {
        96
    }

    fn encode_into(&self, out: &mut Vec<u8>) {
        let ghost start = out@;
        self.pubkey.encode_into(out);
        self.withdrawal_credentials.encode_into(out);
        self.activation_epoch.encode_into(out);
        self.exit_epoch.encode_into(out);
        assert(out@ =~= start + self.spec_encode());
    }

    fn decode_at(bytes: &Vec<u8>, off: usize) -> (r: Result<Self, DecodeError>) {
        let _n = bytes.len();
        let pubkey = match <PublicKey as FixedCodec>::decode_at(bytes, off + 0) {
            Ok(x) => x,
            Err(e) => {
                proof {
                    assert forall|w: Validator| bytes@.subrange(off as int, off + 96) == #[trigger] w.spec_encode() implies false by {
                        lemma_validator_fields(w);
                        assert(bytes@.subrange(off + 0, off + 48) =~= w.spec_encode().subrange(0, 48));
                    }
                }
                return Err(e);
            },
        };
        let withdrawal_credentials = match <Hash256 as FixedCodec>::decode_at(bytes, off + 48) {
            Ok(x) => x,
            Err(e) => {
                proof {
                    assert forall|w: Validator| bytes@.subrange(off as int, off + 96) == #[trigger] w.spec_encode() implies false by {
                        lemma_validator_fields(w);
                        assert(bytes@.subrange(off + 48, off + 80) =~= w.spec_encode().subrange(48, 80));
                    }
                }
                return Err(e);
            },
        };
        let activation_epoch = match <u64 as FixedCodec>::decode_at(bytes, off + 80) {
            Ok(x) => x,
            Err(e) => {
                proof {
                    assert forall|w: Validator| bytes@.subrange(off as int, off + 96) == #[trigger] w.spec_encode() implies false by {
                        lemma_validator_fields(w);
                        assert(bytes@.subrange(off + 80, off + 88) =~= w.spec_encode().subrange(80, 88));
                    }
                }
                return Err(e);
            },
        };
        let exit_epoch = match <u64 as FixedCodec>::decode_at(bytes, off + 88) {
            Ok(x) => x,
            Err(e) => {
                proof {
                    assert forall|w: Validator| bytes@.subrange(off as int, off + 96) == #[trigger] w.spec_encode() implies false by {
                        lemma_validator_fields(w);
                        assert(bytes@.subrange(off + 88, off + 96) =~= w.spec_encode().subrange(88, 96));
                    }
                }
                return Err(e);
            },
        };
        let v = Validator { pubkey, withdrawal_credentials, activation_epoch, exit_epoch };
        proof {
            lemma_validator_fields(v);
            assert(bytes@.subrange(off as int, off + 96).subrange(0, 48) =~= bytes@.subrange(off + 0, off + 48));
            assert(bytes@.subrange(off as int, off + 96).subrange(48, 80) =~= bytes@.subrange(off + 48, off + 80));
            assert(bytes@.subrange(off as int, off + 96).subrange(80, 88) =~= bytes@.subrange(off + 80, off + 88));
            assert(bytes@.subrange(off as int, off + 96).subrange(88, 96) =~= bytes@.subrange(off + 88, off + 96));
            assert(bytes@.subrange(off as int, off + 96) =~= v.spec_encode());
            assert forall|w: Validator| bytes@.subrange(off as int, off + 96) == #[trigger] w.spec_encode() implies w == v by {
                w.lemma_encoding_injective(v);
            }
        }
        Ok(v)
    }

    fn hash_tree_root(&self) -> (r: Vec<u8>) {
        let mut buf: Vec<u8> = Vec::new();
        let mut pubkey = self.pubkey.hash_tree_root();
        buf.append(&mut pubkey);
        let mut withdrawal_credentials = self.withdrawal_credentials.hash_tree_root();
        buf.append(&mut withdrawal_credentials);
        let mut activation_epoch = self.activation_epoch.hash_tree_root();
        buf.append(&mut activation_epoch);
        let mut exit_epoch = self.exit_epoch.hash_tree_root();
        buf.append(&mut exit_epoch);
        assert(buf@ =~= self.pubkey.spec_root() + self.withdrawal_credentials.spec_root() + self.activation_epoch.spec_root() + self.exit_epoch.spec_root());
        keccak256(&buf)
    }
}

/// What an attestation votes for.
#[derive(Debug, Clone, Copy, PartialEq, Eq)]
pub struct AttestationData {
    /// The slot attested to.
    pub slot: u64,
    /// The shard attested to.
    pub shard: u64,
    /// The block at `slot`.
    pub beacon_block_root: Hash256,
    /// The block at the start of the epoch.
    pub epoch_boundary_root: Hash256,
    /// The shard's block.
    pub shard_block_root: Hash256,
    /// The shard's last crosslink.
    pub latest_crosslink_root: Hash256,
    /// The last justified epoch.
    pub justified_epoch: u64,
    /// The block at `justified_epoch`.
    pub justified_block_root: Hash256,
}

/// The encoding of a `AttestationData` has 184 bytes, and each field's encoding stands
/// at its offset.
pub proof fn lemma_attestation_data_fields(v: AttestationData)
    ensures
        v.spec_encode().len() == 184,
        v.spec_encode().subrange(0, 8) == v.slot.spec_encode(),
        v.spec_encode().subrange(8, 16) == v.shard.spec_encode(),
        v.spec_encode().subrange(16, 48) == v.beacon_block_root.spec_encode(),
        v.spec_encode().subrange(48, 80) == v.epoch_boundary_root.spec_encode(),
        v.spec_encode().subrange(80, 112) == v.shard_block_root.spec_encode(),
        v.spec_encode().subrange(112, 144) == v.latest_crosslink_root.spec_encode(),
        v.spec_encode().subrange(144, 152) == v.justified_epoch.spec_encode(),
        v.spec_encode().subrange(152, 184) == v.justified_block_root.spec_encode(),
{
    v.slot.lemma_encoding_size();
    v.shard.lemma_encoding_size();
    v.beacon_block_root.lemma_encoding_size();
    v.epoch_boundary_root.lemma_encoding_size();
    v.shard_block_root.lemma_encoding_size();
    v.latest_crosslink_root.lemma_encoding_size();
    v.justified_epoch.lemma_encoding_size();
    v.justified_block_root.lemma_encoding_size();
    assert(v.spec_encode().subrange(0, 8) =~= v.slot.spec_encode());
    assert(v.spec_encode().subrange(8, 16) =~= v.shard.spec_encode());
    assert(v.spec_encode().subrange(16, 48) =~= v.beacon_block_root.spec_encode());
    assert(v.spec_encode().subrange(48, 80) =~= v.epoch_boundary_root.spec_encode());
    assert(v.spec_encode().subrange(80, 112) =~= v.shard_block_root.spec_encode());
    assert(v.spec_encode().subrange(112, 144) =~= v.latest_crosslink_root.spec_encode());
    assert(v.spec_encode().subrange(144, 152) =~= v.justified_epoch.spec_encode());
    assert(v.spec_encode().subrange(152, 184) =~= v.justified_block_root.spec_encode());
}

impl FixedCodec for AttestationData {
    open spec fn spec_size() -> nat {
        184
    }

    open spec fn spec_encode(self) -> Seq<u8> {
        self.slot.spec_encode() + self.shard.spec_encode() + self.beacon_block_root.spec_encode() + self.epoch_boundary_root.spec_encode() + self.shard_block_root.spec_encode() + self.latest_crosslink_root.spec_encode() + self.justified_epoch.spec_encode() + self.justified_block_root.spec_encode()
    }

    open spec fn spec_root(self) -> Seq<u8> {
        keccak256_of(self.slot.spec_root() + self.shard.spec_root() + self.beacon_block_root.spec_root() + self.epoch_boundary_root.spec_root() + self.shard_block_root.spec_root() + self.latest_crosslink_root.spec_root() + self.justified_epoch.spec_root() + self.justified_block_root.spec_root())
    }

    proof fn lemma_encoding_size(self) {
        lemma_attestation_data_fields(self);
    }

    proof fn lemma_encoding_injective(self, other: Self) {
        lemma_attestation_data_fields(self);
        lemma_attestation_data_fields(other);
        self.slot.lemma_encoding_injective(other.slot);
        self.shard.lemma_encoding_injective(other.shard);
        self.beacon_block_root.lemma_encoding_injective(other.beacon_block_root);
        self.epoch_boundary_root.lemma_encoding_injective(other.epoch_boundary_root);
        self.shard_block_root.lemma_encoding_injective(other.shard_block_root);
        self.latest_crosslink_root.lemma_encoding_injective(other.latest_crosslink_root);
        self.justified_epoch.lemma_encoding_injective(other.justified_epoch);
        self.justified_block_root.lemma_encoding_injective(other.justified_block_root);
    }

    fn size() -> (r: usize) {
        184
    }

    fn encode_into(&self, out: &mut Vec<u8>) {
        let ghost start = out@;
        self.slot.encode_into(out);
        self.shard.encode_into(out);
        self.beacon_block_root.encode_into(out);
        self.epoch_boundary_root.encode_into(out);
        self.shard_block_root.encode_into(out);
        self.latest_crosslink_root.encode_into(out);
        self.justified_epoch.encode_into(out);
        self.justified_block_root.encode_into(out);
        assert(out@ =~= start + self.spec_encode());
    }

    fn decode_at(bytes: &Vec<u8>, off: usize) -> (r: Result<Self, DecodeError>) {
        let _n = bytes.len();
        let slot = match <u64 as FixedCodec>::decode_at(bytes, off + 0) {
            Ok(x) => x,
            Err(e) => {
                proof {
                    assert forall|w: AttestationData| bytes@.subrange(off as int, off + 184) == #[trigger] w.spec_encode() implies false by {
                        lemma_attestation_data_fields(w);
                        assert(bytes@.subrange(off + 0, off + 8) =~= w.spec_encode().subrange(0, 8));
                    }
                }
                return Err(e);
            },
        };
        let shard = match <u64 as FixedCodec>::decode_at(bytes, off + 8) {
            Ok(x) => x,
            Err(e) => {
                proof {
                    assert forall|w: AttestationData| bytes@.subrange(off as int, off + 184) == #[trigger] w.spec_encode() implies false by {
                        lemma_attestation_data_fields(w);
                        assert(bytes@.subrange(off + 8, off + 16) =~= w.spec_encode().subrange(8, 16));
                    }
                }
                return Err(e);
            },
        };
        let beacon_block_root = match <Hash256 as FixedCodec>::decode_at(bytes, off + 16) {
            Ok(x) => x,
            Err(e) => {
                proof {
                    assert forall|w: AttestationData| bytes@.subrange(off as int, off + 184) == #[trigger] w.spec_encode() implies false by {
                        lemma_attestation_data_fields(w);
                        assert(bytes@.subrange(off + 16, off + 48) =~= w.spec_encode().subrange(16, 48));
                    }
                }
                return Err(e);
            },
        };
        let epoch_boundary_root = match <Hash256 as FixedCodec>::decode_at(bytes, off + 48) {
            Ok(x) => x,
            Err(e) => {
                proof {
                    assert forall|w: AttestationData| bytes@.subrange(off as int, off + 184) == #[trigger] w.spec_encode() implies false by {
                        lemma_attestation_data_fields(w);
                        assert(bytes@.subrange(off + 48, off + 80) =~= w.spec_encode().subrange(48, 80));
                    }
                }
                return Err(e);
            },
        };
        let shard_block_root = match <Hash256 as FixedCodec>::decode_at(bytes, off + 80) {
            Ok(x) => x,
            Err(e) => {
                proof {
                    assert forall|w: AttestationData| bytes@.subrange(off as int, off + 184) == #[trigger] w.spec_encode() implies false by {
                        lemma_attestation_data_fields(w);
                        assert(bytes@.subrange(off + 80, off + 112) =~= w.spec_encode().subrange(80, 112));
                    }
                }
                return Err(e);
            },
        };
        let latest_crosslink_root = match <Hash256 as FixedCodec>::decode_at(bytes, off + 112) {
            Ok(x) => x,
            Err(e) => {
                proof {
                    assert forall|w: AttestationData| bytes@.subrange(off as int, off + 184) == #[trigger] w.spec_encode() implies false by {
                        lemma_attestation_data_fields(w);
                        assert(bytes@.subrange(off + 112, off + 144) =~= w.spec_encode().subrange(112, 144));
                    }
                }
                return Err(e);
            },
        };
        let justified_epoch = match <u64 as FixedCodec>::decode_at(bytes, off + 144) {
            Ok(x) => x,
            Err(e) => {
                proof {
                    assert forall|w: AttestationData| bytes@.subrange(off as int, off + 184) == #[trigger] w.spec_encode() implies false by {
                        lemma_attestation_data_fields(w);
                        assert(bytes@.subrange(off + 144, off + 152) =~= w.spec_encode().subrange(144, 152));
                    }
                }
                return Err(e);
            },
        };
        let justified_block_root = match <Hash256 as FixedCodec>::decode_at(bytes, off + 152) {
            Ok(x) => x,
            Err(e) => {
                proof {
                    assert forall|w: AttestationData| bytes@.subrange(off as int, off + 184) == #[trigger] w.spec_encode() implies false by {
                        lemma_attestation_data_fields(w);
                        assert(bytes@.subrange(off + 152, off + 184) =~= w.spec_encode().subrange(152, 184));
                    }
                }
                return Err(e);
            },
        };
        let v = AttestationData { slot, shard, beacon_block_root, epoch_boundary_root, shard_block_root, latest_crosslink_root, justified_epoch, justified_block_root };
        proof {
            lemma_attestation_data_fields(v);
            assert(bytes@.subrange(off as int, off + 184).subrange(0, 8) =~= bytes@.subrange(off + 0, off + 8));
            assert(bytes@.subrange(off as int, off + 184).subrange(8, 16) =~= bytes@.subrange(off + 8, off + 16));
            assert(bytes@.subrange(off as int, off + 184).subrange(16, 48) =~= bytes@.subrange(off + 16, off + 48));
            assert(bytes@.subrange(off as int, off + 184).subrange(48, 80) =~= bytes@.subrange(off + 48, off + 80));
            assert(bytes@.subrange(off as int, off + 184).subrange(80, 112) =~= bytes@.subrange(off + 80, off + 112));
            assert(bytes@.subrange(off as int, off + 184).subrange(112, 144) =~= bytes@.subrange(off + 112, off + 144));
            assert(bytes@.subrange(off as int, off + 184).subrange(144, 152) =~= bytes@.subrange(off + 144, off + 152));
            assert(bytes@.subrange(off as int, off + 184).subrange(152, 184) =~= bytes@.subrange(off + 152, off + 184));
            assert(bytes@.subrange(off as int, off + 184) =~= v.spec_encode());
            assert forall|w: AttestationData| bytes@.subrange(off as int, off + 184) == #[trigger] w.spec_encode() implies w == v by {
                w.lemma_encoding_injective(v);
            }
        }
        Ok(v)
    }

    fn hash_tree_root(&self) -> (r: Vec<u8>) {
        let mut buf: Vec<u8> = Vec::new();
        let mut slot = self.slot.hash_tree_root();
        buf.append(&mut slot);
        let mut shard = self.shard.hash_tree_root();
        buf.append(&mut shard);
        let mut beacon_block_root = self.beacon_block_root.hash_tree_root();
        buf.append(&mut beacon_block_root);
        let mut epoch_boundary_root = self.epoch_boundary_root.hash_tree_root();
        buf.append(&mut epoch_boundary_root);
        let mut shard_block_root = self.shard_block_root.hash_tree_root();
        buf.append(&mut shard_block_root);
        let mut latest_crosslink_root = self.latest_crosslink_root.hash_tree_root();
        buf.append(&mut latest_crosslink_root);
        let mut justified_epoch = self.justified_epoch.hash_tree_root();
        buf.append(&mut justified_epoch);
        let mut justified_block_root = self.justified_block_root.hash_tree_root();
        buf.append(&mut justified_block_root);
        assert(buf@ =~= self.slot.spec_root() + self.shard.spec_root() + self.beacon_block_root.spec_root() + self.epoch_boundary_root.spec_root() + self.shard_block_root.spec_root() + self.latest_crosslink_root.spec_root() + self.justified_epoch.spec_root() + self.justified_block_root.spec_root());
        keccak256(&buf)
    }
}

/// Attestation data together with the custody bit signed with it.
#[derive(Debug, Clone, Copy, PartialEq, Eq)]
pub struct AttestationDataAndCustodyBit {
    /// The attestation data.
    pub data: AttestationData,
    /// The custody bit.
    pub custody_bit: bool,
}

/// The encoding of a `AttestationDataAndCustodyBit` has 185 bytes, and each field's encoding stands
/// at its offset.
pub proof fn lemma_attestation_data_and_custody_bit_fields(v: AttestationDataAndCustodyBit)
    ensures
        v.spec_encode().len() == 185,
        v.spec_encode().subrange(0, 184) == v.data.spec_encode(),
        v.spec_encode().subrange(184, 185) == v.custody_bit.spec_encode(),
{
    v.data.lemma_encoding_size();
    v.custody_bit.lemma_encoding_size();
    assert(v.spec_encode().subrange(0, 184) =~= v.data.spec_encode());
    assert(v.spec_encode().subrange(184, 185) =~= v.custody_bit.spec_encode());
}

impl FixedCodec for AttestationDataAndCustodyBit {
    open spec fn spec_size() -> nat {
        185
    }

    open spec fn spec_encode(self) -> Seq<u8> {
        self.data.spec_encode() + self.custody_bit.spec_encode()
    }

    open spec fn spec_root(self) -> Seq<u8> {
        keccak256_of(self.data.spec_root() + self.custody_bit.spec_root())
    }

    proof fn lemma_encoding_size(self) {
        lemma_attestation_data_and_custody_bit_fields(self);
    }

    proof fn lemma_encoding_injective(self, other: Self) {
        lemma_attestation_data_and_custody_bit_fields(self);
        lemma_attestation_data_and_custody_bit_fields(other);
        self.data.lemma_encoding_injective(other.data);
        self.custody_bit.lemma_encoding_injective(other.custody_bit);
    }

    fn size() -> (r: usize) {
        185
    }

    fn encode_into(&self, out: &mut Vec<u8>) {
        let ghost start = out@;
        self.data.encode_into(out);
        self.custody_bit.encode_into(out);
        assert(out@ =~= start + self.spec_encode());
    }

    fn decode_at(bytes: &Vec<u8>, off: usize) -> (r: Result<Self, DecodeError>) {
        let _n = bytes.len();
        let data = match <AttestationData as FixedCodec>::decode_at(bytes, off + 0) {
            Ok(x) => x,
            Err(e) => {
                proof {
                    assert forall|w: AttestationDataAndCustodyBit| bytes@.subrange(off as int, off + 185) == #[trigger] w.spec_encode() implies false by {
                        lemma_attestation_data_and_custody_bit_fields(w);
                        assert(bytes@.subrange(off + 0, off + 184) =~= w.spec_encode().subrange(0, 184));
                    }
                }
                return Err(e);
            },
        };
        let custody_bit = match <bool as FixedCodec>::decode_at(bytes, off + 184) {
            Ok(x) => x,
            Err(e) => {
                proof {
                    assert forall|w: AttestationDataAndCustodyBit| bytes@.subrange(off as int, off + 185) == #[trigger] w.spec_encode() implies false by {
                        lemma_attestation_data_and_custody_bit_fields(w);
                        assert(bytes@.subrange(off + 184, off + 185) =~= w.spec_encode().subrange(184, 185));
                    }
                }
                return Err(e);
            },
        };
        let v = AttestationDataAndCustodyBit { data, custody_bit };
        proof {
            lemma_attestation_data_and_custody_bit_fields(v);
            assert(bytes@.subrange(off as int, off + 185).subrange(0, 184) =~= bytes@.subrange(off + 0, off + 184));
            assert(bytes@.subrange(off as int, off + 185).subrange(184, 185) =~= bytes@.subrange(off + 184, off + 185));
            assert(bytes@.subrange(off as int, off + 185) =~= v.spec_encode());
            assert forall|w: AttestationDataAndCustodyBit| bytes@.subrange(off as int, off + 185) == #[trigger] w.spec_encode() implies w == v by {
                w.lemma_encoding_injective(v);
            }
        }
        Ok(v)
    }

    fn hash_tree_root(&self) -> (r: Vec<u8>) {
        let mut buf: Vec<u8> = Vec::new();
        let mut data = self.data.hash_tree_root();
        buf.append(&mut data);
        let mut custody_bit = self.custody_bit.hash_tree_root();
        buf.append(&mut custody_bit);
        assert(buf@ =~= self.data.spec_root() + self.custody_bit.spec_root());
        keccak256(&buf)
    }
}

} // verus!
