//! Beacon blocks, their operations, and the genesis block.
use vstd::prelude::*;

use crate::chain_spec::ChainSpec;
use crate::codec::{keccak256, keccak256_of, list_hash_tree_root, list_root, FixedCodec};
use crate::deposit::Deposit;
use crate::primitives::{Hash256, Signature};
use crate::records::{AttestationData, Eth1Data};

verus! {

/// The signed part of a block proposal.
#[derive(Debug, Clone, Copy, PartialEq, Eq)]
pub struct ProposalSignedData {
    pub slot: u64,
    pub shard: u64,
    pub block_root: Hash256,
}

/// Evidence that a proposer signed two different blocks for one slot.
#[derive(Debug, Clone, Copy, PartialEq, Eq)]
pub struct ProposerSlashing {
    pub proposer_index: u64,
    pub proposal_data_1: ProposalSignedData,
    pub proposal_signature_1: Signature,
    pub proposal_data_2: ProposalSignedData,
    pub proposal_signature_2: Signature,
}

/// Attestation data signed by a set of validators.
#[derive(Debug, Clone, PartialEq, Eq)]
pub struct SlashableVoteData {
    pub custody_bit_0_indices: Vec<u64>,
    pub custody_bit_1_indices: Vec<u64>,
    pub data: AttestationData,
    pub aggregate_signature: Signature,
}

/// Evidence of two conflicting votes.
#[derive(Debug, Clone, PartialEq, Eq)]
pub struct CasperSlashing {
    pub slashable_vote_data_1: SlashableVoteData,
    pub slashable_vote_data_2: SlashableVoteData,
}

/// An aggregate attestation.
#[derive(Debug, Clone, PartialEq, Eq)]
pub struct Attestation {
    pub data: AttestationData,
    pub aggregation_bitfield: Vec<u8>,
    pub custody_bitfield: Vec<u8>,
    pub aggregate_signature: Signature,
}

/// A custody reseed; it carries nothing yet.
#[derive(Debug, Clone, Copy, PartialEq, Eq)]
pub struct CustodyReseed {}

/// A custody challenge; it carries nothing yet.
#[derive(Debug, Clone, Copy, PartialEq, Eq)]
pub struct CustodyChallenge {}

/// A custody response; it carries nothing yet.
#[derive(Debug, Clone, Copy, PartialEq, Eq)]
pub struct CustodyResponse {}

/// A validator's request to exit.
#[derive(Debug, Clone, Copy, PartialEq, Eq)]
pub struct Exit {
    pub epoch: u64,
    pub validator_index: u64,
    pub signature: Signature,
}

/// The operations a block carries, one list per kind.
#[derive(Debug, Clone, PartialEq, Eq)]
pub struct BeaconBlockBody {
    pub proposer_slashings: Vec<ProposerSlashing>,
    pub casper_slashings: Vec<CasperSlashing>,
    pub attestations: Vec<Attestation>,
    pub custody_reseeds: Vec<CustodyReseed>,
    pub custody_challenges: Vec<CustodyChallenge>,
    pub custody_responses: Vec<CustodyResponse>,
    pub deposits: Vec<Deposit>,
    pub exits: Vec<Exit>,
}

impl BeaconBlockBody {
    /// Every list of operations is empty.
    pub open spec fn spec_is_empty(&self) -> bool {
        &&& self.proposer_slashings@.len() == 0
        &&& self.casper_slashings@.len() == 0
        &&& self.attestations@.len() == 0
        &&& self.custody_reseeds@.len() == 0
        &&& self.custody_challenges@.len() == 0
        &&& self.custody_responses@.len() == 0
        &&& self.deposits@.len() == 0
        &&& self.exits@.len() == 0
    }
}

/// A beacon chain block.
#[derive(Debug, Clone, PartialEq, Eq)]
pub struct BeaconBlock {
    pub slot: u64,
    pub parent_root: Hash256,
    pub state_root: Hash256,
    pub randao_reveal: Signature,
    pub eth1_data: Eth1Data,
    pub signature: Signature,
    pub body: BeaconBlockBody,
}

/// Generate a genesis `BeaconBlock`: at the genesis slot, with no parent,
/// unsigned, with zero proof-of-work vote and no operations.
pub fn genesis_beacon_block(state_root: Hash256, spec: &ChainSpec) -> (r: BeaconBlock)
    ensures
        r.slot == spec.genesis_slot,
        r.parent_root == spec.zero_hash,
        r.state_root == state_root,
        r.randao_reveal == spec.empty_signature,
        r.eth1_data == (Eth1Data { deposit_root: spec.zero_hash, block_hash: spec.zero_hash }),
        r.signature == spec.empty_signature,
        r.body.spec_is_empty(),
{
    BeaconBlock {
        slot: spec.genesis_slot,
        parent_root: spec.zero_hash,
        state_root,
        randao_reveal: spec.empty_signature,
        eth1_data: Eth1Data { deposit_root: spec.zero_hash, block_hash: spec.zero_hash },
        signature: spec.empty_signature,
        body: BeaconBlockBody {
            proposer_slashings: Vec::new(),
            casper_slashings: Vec::new(),
            attestations: Vec::new(),
            custody_reseeds: Vec::new(),
            custody_challenges: Vec::new(),
            custody_responses: Vec::new(),
            deposits: Vec::new(),
            exits: Vec::new(),
        },
    }
}


/// A copy of `v`.
pub fn copy_vec<T: Copy>(v: &Vec<T>) -> (r: Vec<T>)
    ensures
        r@ == v@,
{
    let mut r: Vec<T> = Vec::new();
    let n = v.len();
    let mut i: usize = 0;
    while i < n
        invariant
            i <= n,
            n == v@.len(),
            r@ == v@.subrange(0, i as int),
        decreases n - i,
    {
        r.push(v[i]);
        i = i + 1;
        assert(r@ =~= v@.subrange(0, i as int));
    }
    assert(v@.subrange(0, n as int) =~= v@);
    r
}

/// A value that can be copied with what it holds.
pub trait Duplicate: Sized {
    /// `self` and `other` hold the same values.
    spec fn same(&self, other: &Self) -> bool;

    /// A copy of `self` that holds the same values.
    fn duplicate(&self) -> (r: Self)
        ensures
            r.same(self),
    ;
}

/// Item by item, `a` and `b` hold the same values.
pub open spec fn same_items<T: Duplicate>(a: Seq<T>, b: Seq<T>) -> bool {
    a.len() == b.len() && forall|i: int| 0 <= i < a.len() ==> #[trigger] a[i].same(&b[i])
}

/// A copy of each item of `v`.
pub fn duplicate_vec<T: Duplicate>(v: &Vec<T>) -> (r: Vec<T>)
    ensures
        same_items(r@, v@),
{
    let mut r: Vec<T> = Vec::new();
    let n = v.len();
    let mut i: usize = 0;
    while i < n
        invariant
            i <= n,
            n == v@.len(),
            r@.len() == i,
            forall|j: int| 0 <= j < i ==> #[trigger] r@[j].same(&v@[j]),
        decreases n - i,
    {
        let item = v[i].duplicate();
        r.push(item);
        i = i + 1;
    }
    r
}

impl Duplicate for SlashableVoteData {
    open spec fn same(&self, other: &Self) -> bool {
        &&& self.custody_bit_0_indices@ == other.custody_bit_0_indices@
        &&& self.custody_bit_1_indices@ == other.custody_bit_1_indices@
        &&& self.data == other.data
        &&& self.aggregate_signature == other.aggregate_signature
    }

    fn duplicate(&self) -> (r: Self) {
        SlashableVoteData {
            custody_bit_0_indices: copy_vec(&self.custody_bit_0_indices),
            custody_bit_1_indices: copy_vec(&self.custody_bit_1_indices),
            data: self.data,
            aggregate_signature: self.aggregate_signature,
        }
    }
}

impl Duplicate for CasperSlashing {
    open spec fn same(&self, other: &Self) -> bool {
        &&& self.slashable_vote_data_1.same(&other.slashable_vote_data_1)
        &&& self.slashable_vote_data_2.same(&other.slashable_vote_data_2)
    }

    fn duplicate(&self) -> (r: Self) {
        CasperSlashing {
            slashable_vote_data_1: self.slashable_vote_data_1.duplicate(),
            slashable_vote_data_2: self.slashable_vote_data_2.duplicate(),
        }
    }
}

impl Duplicate for Attestation {
    open spec fn same(&self, other: &Self) -> bool {
        &&& self.data == other.data
        &&& self.aggregation_bitfield@ == other.aggregation_bitfield@
        &&& self.custody_bitfield@ == other.custody_bitfield@
        &&& self.aggregate_signature == other.aggregate_signature
    }

    fn duplicate(&self) -> (r: Self) {
        Attestation {
            data: self.data,
            aggregation_bitfield: copy_vec(&self.aggregation_bitfield),
            custody_bitfield: copy_vec(&self.custody_bitfield),
            aggregate_signature: self.aggregate_signature,
        }
    }
}

impl Duplicate for Deposit {
    open spec fn same(&self, other: &Self) -> bool {
        &&& self.branch@ == other.branch@
        &&& self.index == other.index
        &&& self.deposit_data == other.deposit_data
    }

    fn duplicate(&self) -> (r: Self) {
        Deposit {
            branch: copy_vec(&self.branch),
            index: self.index,
            deposit_data: self.deposit_data,
        }
    }
}

impl Duplicate for BeaconBlockBody {
    open spec fn same(&self, other: &Self) -> bool {
        &&& self.proposer_slashings@ == other.proposer_slashings@
        &&& same_items(self.casper_slashings@, other.casper_slashings@)
        &&& same_items(self.attestations@, other.attestations@)
        &&& self.custody_reseeds@ == other.custody_reseeds@
        &&& self.custody_challenges@ == other.custody_challenges@
        &&& self.custody_responses@ == other.custody_responses@
        &&& same_items(self.deposits@, other.deposits@)
        &&& self.exits@ == other.exits@
    }

    fn duplicate(&self) -> (r: Self) {
        BeaconBlockBody {
            proposer_slashings: copy_vec(&self.proposer_slashings),
            casper_slashings: duplicate_vec(&self.casper_slashings),
            attestations: duplicate_vec(&self.attestations),
            custody_reseeds: copy_vec(&self.custody_reseeds),
            custody_challenges: copy_vec(&self.custody_challenges),
            custody_responses: copy_vec(&self.custody_responses),
            deposits: duplicate_vec(&self.deposits),
            exits: copy_vec(&self.exits),
        }
    }
}

impl Duplicate for BeaconBlock {
    open spec fn same(&self, other: &Self) -> bool {
        &&& self.slot == other.slot
        &&& self.parent_root == other.parent_root
        &&& self.state_root == other.state_root
        &&& self.randao_reveal == other.randao_reveal
        &&& self.eth1_data == other.eth1_data
        &&& self.signature == other.signature
        &&& self.body.same(&other.body)
    }

    fn duplicate(&self) -> (r: Self) {
        BeaconBlock {
            slot: self.slot,
            parent_root: self.parent_root,
            state_root: self.state_root,
            randao_reveal: self.randao_reveal,
            eth1_data: self.eth1_data,
            signature: self.signature,
            body: self.body.duplicate(),
        }
    }
}


/// A value with a 32-byte commitment.
pub trait Commit {
    /// The commitment to `self`.
    spec fn spec_tree_root(&self) -> Seq<u8>;

    /// The 32-byte commitment to `self`.
    fn tree_root(&self) -> (r: Vec<u8>)
        ensures
            r@ == self.spec_tree_root(),
            r@.len() == 32,
    ;
}

/// The commitments to the items of `s`, one after another.
pub open spec fn commit_roots<T: Commit>(s: Seq<T>) -> Seq<u8>
    decreases s.len(),
{
    if s.len() == 0 {
        Seq::empty()
    } else {
        commit_roots(s.drop_last()) + s.last().spec_tree_root()
    }
}

/// The commitment to a list: the digest of its items' commitments.
pub open spec fn commit_list_root<T: Commit>(s: Seq<T>) -> Seq<u8> {
    keccak256_of(commit_roots(s))
}

/// The commitment to the list `items`.
pub fn commit_list_hash<T: Commit>(items: &Vec<T>) -> (r: Vec<u8>)
    ensures
        r@ == commit_list_root(items@),
        r@.len() == 32,
{
    let mut buf: Vec<u8> = Vec::new();
    let count = items.len();
    let mut i: usize = 0;
    while i < count
        invariant
            i <= count,
            count == items@.len(),
            buf@ == commit_roots(items@.subrange(0, i as int)),
        decreases count - i,
    {
        let mut root = items[i].tree_root();
        buf.append(&mut root);
        i = i + 1;
        proof {
            assert(items@.subrange(0, i as int).drop_last() =~= items@.subrange(0, i - 1));
        }
    }
    assert(items@.subrange(0, count as int) =~= items@);
    keccak256(&buf)
}

impl Commit for ProposalSignedData {
    open spec fn spec_tree_root(&self) -> Seq<u8> {
        keccak256_of(self.slot.spec_root() + self.shard.spec_root() + self.block_root.spec_root())
    }

    fn tree_root(&self) -> (r: Vec<u8>) {
        let mut buf: Vec<u8> = Vec::new();
        let mut slot = self.slot.hash_tree_root();
        buf.append(&mut slot);
        let mut shard = self.shard.hash_tree_root();
        buf.append(&mut shard);
        let mut block_root = self.block_root.hash_tree_root();
        buf.append(&mut block_root);
        assert(buf@ =~= self.slot.spec_root() + self.shard.spec_root() + self.block_root.spec_root());
        keccak256(&buf)
    }
}

impl Commit for ProposerSlashing {
    open spec fn spec_tree_root(&self) -> Seq<u8> {
        keccak256_of(self.proposer_index.spec_root() + self.proposal_data_1.spec_tree_root() + self.proposal_signature_1.spec_root() + self.proposal_data_2.spec_tree_root() + self.proposal_signature_2.spec_root())
    }

    fn tree_root(&self) -> (r: Vec<u8>) {
        let mut buf: Vec<u8> = Vec::new();
        let mut proposer_index = self.proposer_index.hash_tree_root();
        buf.append(&mut proposer_index);
        let mut proposal_data_1 = self.proposal_data_1.tree_root();
        buf.append(&mut proposal_data_1);
        let mut proposal_signature_1 = self.proposal_signature_1.hash_tree_root();
        buf.append(&mut proposal_signature_1);
        let mut proposal_data_2 = self.proposal_data_2.tree_root();
        buf.append(&mut proposal_data_2);
        let mut proposal_signature_2 = self.proposal_signature_2.hash_tree_root();
        buf.append(&mut proposal_signature_2);
        assert(buf@ =~= self.proposer_index.spec_root() + self.proposal_data_1.spec_tree_root() + self.proposal_signature_1.spec_root() + self.proposal_data_2.spec_tree_root() + self.proposal_signature_2.spec_root());
        keccak256(&buf)
    }
}

impl Commit for SlashableVoteData {
    open spec fn spec_tree_root(&self) -> Seq<u8> {
        keccak256_of(list_root(self.custody_bit_0_indices@) + list_root(self.custody_bit_1_indices@) + self.data.spec_root() + self.aggregate_signature.spec_root())
    }

    fn tree_root(&self) -> (r: Vec<u8>) {
        let mut buf: Vec<u8> = Vec::new();
        let mut custody_bit_0_indices = list_hash_tree_root(&self.custody_bit_0_indices);
        buf.append(&mut custody_bit_0_indices);
        let mut custody_bit_1_indices = list_hash_tree_root(&self.custody_bit_1_indices);
        buf.append(&mut custody_bit_1_indices);
        let mut data = self.data.hash_tree_root();
        buf.append(&mut data);
        let mut aggregate_signature = self.aggregate_signature.hash_tree_root();
        buf.append(&mut aggregate_signature);
        assert(buf@ =~= list_root(self.custody_bit_0_indices@) + list_root(self.custody_bit_1_indices@) + self.data.spec_root() + self.aggregate_signature.spec_root());
        keccak256(&buf)
    }
}

impl Commit for CasperSlashing {
    open spec fn spec_tree_root(&self) -> Seq<u8> {
        keccak256_of(self.slashable_vote_data_1.spec_tree_root() + self.slashable_vote_data_2.spec_tree_root())
    }

    fn tree_root(&self) -> (r: Vec<u8>) {
        let mut buf: Vec<u8> = Vec::new();
        let mut slashable_vote_data_1 = self.slashable_vote_data_1.tree_root();
        buf.append(&mut slashable_vote_data_1);
        let mut slashable_vote_data_2 = self.slashable_vote_data_2.tree_root();
        buf.append(&mut slashable_vote_data_2);
        assert(buf@ =~= self.slashable_vote_data_1.spec_tree_root() + self.slashable_vote_data_2.spec_tree_root());
        keccak256(&buf)
    }
}

impl Commit for Attestation {
    open spec fn spec_tree_root(&self) -> Seq<u8> {
        keccak256_of(self.data.spec_root() + keccak256_of(self.aggregation_bitfield@) + keccak256_of(self.custody_bitfield@) + self.aggregate_signature.spec_root())
    }

    fn tree_root(&self) -> (r: Vec<u8>) {
        let mut buf: Vec<u8> = Vec::new();
        let mut data = self.data.hash_tree_root();
        buf.append(&mut data);
        let mut aggregation_bitfield = keccak256(&self.aggregation_bitfield);
        buf.append(&mut aggregation_bitfield);
        let mut custody_bitfield = keccak256(&self.custody_bitfield);
        buf.append(&mut custody_bitfield);
        let mut aggregate_signature = self.aggregate_signature.hash_tree_root();
        buf.append(&mut aggregate_signature);
        assert(buf@ =~= self.data.spec_root() + keccak256_of(self.aggregation_bitfield@) + keccak256_of(self.custody_bitfield@) + self.aggregate_signature.spec_root());
        keccak256(&buf)
    }
}

impl Commit for CustodyReseed {
    open spec fn spec_tree_root(&self) -> Seq<u8> {
        keccak256_of(Seq::<u8>::empty())
    }

    fn tree_root(&self) -> (r: Vec<u8>) {
        let mut buf: Vec<u8> = Vec::new();

        assert(buf@ =~= Seq::<u8>::empty());
        keccak256(&buf)
    }
}

impl Commit for CustodyChallenge {
    open spec fn spec_tree_root(&self) -> Seq<u8> {
        keccak256_of(Seq::<u8>::empty())
    }

    fn tree_root(&self) -> (r: Vec<u8>) {
        let mut buf: Vec<u8> = Vec::new();

        assert(buf@ =~= Seq::<u8>::empty());
        keccak256(&buf)
    }
}

impl Commit for CustodyResponse {
    open spec fn spec_tree_root(&self) -> Seq<u8> {
        keccak256_of(Seq::<u8>::empty())
    }

    fn tree_root(&self) -> (r: Vec<u8>) {
        let mut buf: Vec<u8> = Vec::new();

        assert(buf@ =~= Seq::<u8>::empty());
        keccak256(&buf)
    }
}

impl Commit for Exit {
    open spec fn spec_tree_root(&self) -> Seq<u8> {
        keccak256_of(self.epoch.spec_root() + self.validator_index.spec_root() + self.signature.spec_root())
    }

    fn tree_root(&self) -> (r: Vec<u8>) {
        let mut buf: Vec<u8> = Vec::new();
        let mut epoch = self.epoch.hash_tree_root();
        buf.append(&mut epoch);
        let mut validator_index = self.validator_index.hash_tree_root();
        buf.append(&mut validator_index);
        let mut signature = self.signature.hash_tree_root();
        buf.append(&mut signature);
        assert(buf@ =~= self.epoch.spec_root() + self.validator_index.spec_root() + self.signature.spec_root());
        keccak256(&buf)
    }
}

impl Commit for Deposit {
    open spec fn spec_tree_root(&self) -> Seq<u8> {
        self.spec_root()
    }

    fn tree_root(&self) -> (r: Vec<u8>) {
        self.hash_tree_root()
    }
}

impl Commit for BeaconBlockBody {
    open spec fn spec_tree_root(&self) -> Seq<u8> {
        keccak256_of(commit_list_root(self.proposer_slashings@) + commit_list_root(self.casper_slashings@) + commit_list_root(self.attestations@) + commit_list_root(self.custody_reseeds@) + commit_list_root(self.custody_challenges@) + commit_list_root(self.custody_responses@) + commit_list_root(self.deposits@) + commit_list_root(self.exits@))
    }

    fn tree_root(&self) -> (r: Vec<u8>) {
        let mut buf: Vec<u8> = Vec::new();
        let mut proposer_slashings = commit_list_hash(&self.proposer_slashings);
        buf.append(&mut proposer_slashings);
        let mut casper_slashings = commit_list_hash(&self.casper_slashings);
        buf.append(&mut casper_slashings);
        let mut attestations = commit_list_hash(&self.attestations);
        buf.append(&mut attestations);
        let mut custody_reseeds = commit_list_hash(&self.custody_reseeds);
        buf.append(&mut custody_reseeds);
        let mut custody_challenges = commit_list_hash(&self.custody_challenges);
        buf.append(&mut custody_challenges);
        let mut custody_responses = commit_list_hash(&self.custody_responses);
        buf.append(&mut custody_responses);
        let mut deposits = commit_list_hash(&self.deposits);
        buf.append(&mut deposits);
        let mut exits = commit_list_hash(&self.exits);
        buf.append(&mut exits);
        assert(buf@ =~= commit_list_root(self.proposer_slashings@) + commit_list_root(self.casper_slashings@) + commit_list_root(self.attestations@) + commit_list_root(self.custody_reseeds@) + commit_list_root(self.custody_challenges@) + commit_list_root(self.custody_responses@) + commit_list_root(self.deposits@) + commit_list_root(self.exits@));
        keccak256(&buf)
    }
}

impl Commit for BeaconBlock {
    open spec fn spec_tree_root(&self) -> Seq<u8> {
        keccak256_of(self.slot.spec_root() + self.parent_root.spec_root() + self.state_root.spec_root() + self.randao_reveal.spec_root() + self.eth1_data.spec_root() + self.signature.spec_root() + self.body.spec_tree_root())
    }

    fn tree_root(&self) -> (r: Vec<u8>) {
        let mut buf: Vec<u8> = Vec::new();
        let mut slot = self.slot.hash_tree_root();
        buf.append(&mut slot);
        let mut parent_root = self.parent_root.hash_tree_root();
        buf.append(&mut parent_root);
        let mut state_root = self.state_root.hash_tree_root();
        buf.append(&mut state_root);
        let mut randao_reveal = self.randao_reveal.hash_tree_root();
        buf.append(&mut randao_reveal);
        let mut eth1_data = self.eth1_data.hash_tree_root();
        buf.append(&mut eth1_data);
        let mut signature = self.signature.hash_tree_root();
        buf.append(&mut signature);
        let mut body = self.body.tree_root();
        buf.append(&mut body);
        assert(buf@ =~= self.slot.spec_root() + self.parent_root.spec_root() + self.state_root.spec_root() + self.randao_reveal.spec_root() + self.eth1_data.spec_root() + self.signature.spec_root() + self.body.spec_tree_root());
        keccak256(&buf)
    }
}


impl BeaconBlock {
    /// The 32-byte commitment to the block.
    pub fn hash_tree_root(&self) -> (r: Vec<u8>)
        ensures
            r@ == self.spec_tree_root(),
            r@.len() == 32,
    {
        self.tree_root()
    }
}

} // verus!
