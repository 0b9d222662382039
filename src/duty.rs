//! The node interface that block proposers and attesters use, and two
//! adapters of it: one that records what is published, and a scripted one.
use vstd::prelude::*;

use crate::block::{BeaconBlock, Duplicate};
use crate::primitives::Signature;
use crate::records::AttestationData;

verus! {

/// Why a node could not serve a duty request.
#[derive(Debug, Clone, PartialEq, Eq)]
pub enum BeaconNodeError {
    /// The node failed; the message says why.
    RemoteFailure(String),
    /// What the node sent could not be decoded.
    DecodeFailure,
    /// A scripted node was asked before it was given a result.
    NotConfigured,
}

/// What became of a published block.
#[derive(Debug, Clone, PartialEq, Eq)]
pub enum PublishOutcome {
    ValidBlock,
    InvalidBlock(String),
}

/// What became of a published attestation.
#[derive(Debug, Clone, PartialEq, Eq)]
pub enum AttestationPublishOutcome {
    ValidAttestation,
    InvalidAttestation(String),
}

/// A single validator's signed attestation data.
#[derive(Debug, Clone, Copy, PartialEq, Eq)]
pub struct FreeAttestation {
    pub data: AttestationData,
    pub signature: Signature,
    pub validator_index: u64,
}

/// The result a node gives to a block request.
pub type ProduceResult = Result<Option<BeaconBlock>, BeaconNodeError>;

/// The result a node gives to a published block.
pub type PublishResult = Result<PublishOutcome, BeaconNodeError>;

impl BeaconNodeError {
    /// A copy of `self`.
    pub fn duplicate(&self) -> (r: BeaconNodeError)
        ensures
            r == *self,
    {
        match self {
            BeaconNodeError::RemoteFailure(m) => BeaconNodeError::RemoteFailure(m.clone()),
            BeaconNodeError::DecodeFailure => BeaconNodeError::DecodeFailure,
            BeaconNodeError::NotConfigured => BeaconNodeError::NotConfigured,
        }
    }
}

impl PublishOutcome {
    /// A copy of `self`.
    pub fn duplicate(&self) -> (r: PublishOutcome)
        ensures
            r == *self,
    {
        match self {
            PublishOutcome::ValidBlock => PublishOutcome::ValidBlock,
            PublishOutcome::InvalidBlock(m) => PublishOutcome::InvalidBlock(m.clone()),
        }
    }
}

/// `a` and `b` are the same answer to a block request: the same error, no
/// block, or blocks that hold the same values.
pub open spec fn same_produce_result(a: ProduceResult, b: ProduceResult) -> bool {
    match (a, b) {
        (Ok(None), Ok(None)) => true,
        (Ok(Some(x)), Ok(Some(y))) => x.same(&y),
        (Err(e), Err(f)) => e == f,
        _ => false,
    }
}

/// A copy of the answer `r`.
pub fn duplicate_produce_result(r: &ProduceResult) -> (c: ProduceResult)
    ensures
        same_produce_result(c, *r),
{
    match r {
        Ok(None) => Ok(None),
        Ok(Some(b)) => Ok(Some(b.duplicate())),
        Err(e) => Err(e.duplicate()),
    }
}

/// A copy of the answer `r`.
pub fn duplicate_publish_result(r: &PublishResult) -> (c: PublishResult)
    ensures
        c == *r,
{
    match r {
        Ok(o) => Ok(o.duplicate()),
        Err(e) => Err(e.duplicate()),
    }
}

/// A node that stands beside a chain: blocks and attestations published to
/// it are stored, not applied, so that they can be inspected or applied
/// later. The chain's answers reach it as arguments.
pub struct DirectBeaconNode {
    published_blocks: Vec<BeaconBlock>,
    published_attestations: Vec<FreeAttestation>,
}

impl DirectBeaconNode {
    /// The blocks published so far, oldest first.
    pub closed spec fn blocks(&self) -> Seq<BeaconBlock> {
        self.published_blocks@
    }

    /// The attestations published so far, oldest first.
    pub closed spec fn attestations(&self) -> Seq<FreeAttestation> {
        self.published_attestations@
    }

    /// A node on which nothing is published yet.
    pub fn new() -> (r: DirectBeaconNode)
        ensures
            r.blocks().len() == 0,
            r.attestations().len() == 0,
    {
        DirectBeaconNode { published_blocks: Vec::new(), published_attestations: Vec::new() }
    }

    /// Get the last published block (if any).
    pub fn last_published_block(&self) -> (r: Option<&BeaconBlock>)
        ensures
            self.blocks().len() == 0 ==> r is None,
            self.blocks().len() > 0 ==> r == Some(&self.blocks().last()),
    {
        let n = self.published_blocks.len();
        if n == 0 {
            None
        } else {
            Some(&self.published_blocks[n - 1])
        }
    }

    /// Get the last published attestation (if any).
    pub fn last_published_free_attestation(&self) -> (r: Option<FreeAttestation>)
        ensures
            self.attestations().len() == 0 ==> r is None,
            self.attestations().len() > 0 ==> r == Some(self.attestations().last()),
    {
        let n = self.published_attestations.len();
        if n == 0 {
            None
        } else {
            Some(self.published_attestations[n - 1])
        }
    }

    /// Turns the chain's attestation data, or the chain's error message,
    /// into the node's answer.
    pub fn produce_attestation_data(produced: Result<AttestationData, String>) -> (r: Result<
        Option<AttestationData>,
        BeaconNodeError,
    >)
        ensures
            produced matches Ok(d) ==> r == Ok::<Option<AttestationData>, BeaconNodeError>(
                Some(d),
            ),
            produced matches Err(m) ==> r == Err::<Option<AttestationData>, BeaconNodeError>(
                BeaconNodeError::RemoteFailure(m),
            ),
    {
        match produced {
            Ok(d) => Ok(Some(d)),
            Err(m) => Err(BeaconNodeError::RemoteFailure(m)),
        }
    }

    /// Stores `free_attestation`; it is not applied to the chain.
    pub fn publish_attestation_data(&mut self, free_attestation: FreeAttestation) -> (r: Result<
        AttestationPublishOutcome,
        BeaconNodeError,
    >)
        ensures
            final(self).attestations() == old(self).attestations().push(free_attestation),
            final(self).blocks() == old(self).blocks(),
            r == Ok::<AttestationPublishOutcome, BeaconNodeError>(
                AttestationPublishOutcome::ValidAttestation,
            ),
    {
        self.published_attestations.push(free_attestation);
        Ok(AttestationPublishOutcome::ValidAttestation)
    }

    /// The proposer nonce from the chain's two lookups: the validator index
    /// of the key, then the proposer slots of that index.
    pub fn proposer_nonce(validator_index: Option<usize>, proposer_slots: Option<u64>) -> (r:
        Result<u64, BeaconNodeError>)
        ensures
            validator_index is None ==> (r matches Err(BeaconNodeError::RemoteFailure(m)) && m@
                == "pubkey unknown."@),
            validator_index is Some && proposer_slots is None ==> (r matches Err(
                BeaconNodeError::RemoteFailure(m),
            ) && m@ == "validator_index unknown."@),
            validator_index is Some ==> (proposer_slots matches Some(n) ==> r == Ok::<
                u64,
                BeaconNodeError,
            >(n)),
    {
        if validator_index.is_none() {
            return Err(BeaconNodeError::RemoteFailure("pubkey unknown.".to_owned()));
        }
        match proposer_slots {
            Some(n) => Ok(n),
            None => Err(BeaconNodeError::RemoteFailure("validator_index unknown.".to_owned())),
        }
    }

    /// The node's answer to a block request for `slot`, from the block the
    /// chain produced (if any): it is handed on only where it is for `slot`.
    pub fn produce_beacon_block(slot: u64, produced: Option<BeaconBlock>) -> (r: ProduceResult)
        ensures
            produced is None ==> (r matches Err(BeaconNodeError::RemoteFailure(m)) && m@
                == "Did not produce block."@),
            produced matches Some(b) ==> (b.slot == slot ==> r == Ok::<
                Option<BeaconBlock>,
                BeaconNodeError,
            >(Some(b))),
            produced matches Some(b) ==> (b.slot != slot ==> (r matches Err(
                BeaconNodeError::RemoteFailure(m),
            ) && m@ == "Unable to produce at non-current slot."@)),
    {
        match produced {
            None => Err(BeaconNodeError::RemoteFailure("Did not produce block.".to_owned())),
            Some(block) => {
                if block.slot == slot {
                    Ok(Some(block))
                } else {
                    Err(
                        BeaconNodeError::RemoteFailure(
                            "Unable to produce at non-current slot.".to_owned(),
                        ),
                    )
                }
            },
        }
    }

    /// Stores `block`; it is not applied to the chain.
    pub fn publish_beacon_block(&mut self, block: BeaconBlock) -> (r: PublishResult)
        ensures
            final(self).blocks() == old(self).blocks().push(block),
            final(self).attestations() == old(self).attestations(),
            r == Ok::<PublishOutcome, BeaconNodeError>(PublishOutcome::ValidBlock),
    {
        self.published_blocks.push(block);
        Ok(PublishOutcome::ValidBlock)
    }
}

/// A scripted node: each request records its input and hands back the
/// result set for it beforehand.
pub struct SimulatedBeaconNode {
    pub produce_input: Option<(u64, Signature)>,
    pub produce_result: Option<ProduceResult>,
    pub publish_input: Option<BeaconBlock>,
    pub publish_result: Option<PublishResult>,
}

impl SimulatedBeaconNode {
    /// A node with no input recorded and no result set.
    pub fn new() -> (r: SimulatedBeaconNode)
        ensures
            r.produce_input is None,
            r.produce_result is None,
            r.publish_input is None,
            r.publish_result is None,
    {
        SimulatedBeaconNode {
            produce_input: None,
            produce_result: None,
            publish_input: None,
            publish_result: None,
        }
    }

    /// Set the result to be returned when `produce_beacon_block` is called.
    pub fn set_next_produce_result(&mut self, result: ProduceResult)
        ensures
            final(self).produce_result == Some(result),
            final(self).produce_input == old(self).produce_input,
            final(self).publish_input == old(self).publish_input,
            final(self).publish_result == old(self).publish_result,
    {
        self.produce_result = Some(result);
    }

    /// Set the result to be returned when `publish_beacon_block` is called.
    pub fn set_next_publish_result(&mut self, result: PublishResult)
        ensures
            final(self).publish_result == Some(result),
            final(self).produce_input == old(self).produce_input,
            final(self).produce_result == old(self).produce_result,
            final(self).publish_input == old(self).publish_input,
    {
        self.publish_result = Some(result);
    }

    /// Records the request and returns the result set by
    /// `set_next_produce_result`, which stays set for later calls; with none
    /// set, the error is `NotConfigured`.
    pub fn produce_beacon_block(&mut self, slot: u64, randao_reveal: &Signature) -> (r:
        ProduceResult)
        ensures
            final(self).produce_input == Some((slot, *randao_reveal)),
            final(self).produce_result == old(self).produce_result,
            old(self).produce_result matches Some(set) ==> same_produce_result(r, set),
            old(self).produce_result is None ==> r == Err::<Option<BeaconBlock>, BeaconNodeError>(
                BeaconNodeError::NotConfigured,
            ),
            final(self).publish_input == old(self).publish_input,
            final(self).publish_result == old(self).publish_result,
    {
        self.produce_input = Some((slot, *randao_reveal));
        match &self.produce_result {
            Some(set) => duplicate_produce_result(set),
            None => Err(BeaconNodeError::NotConfigured),
        }
    }

    /// Records the block and returns the result set by
    /// `set_next_publish_result`, which stays set for later calls; with none
    /// set, the error is `NotConfigured`.
    pub fn publish_beacon_block(&mut self, block: BeaconBlock) -> (r: PublishResult)
        ensures
            final(self).publish_input == Some(block),
            final(self).publish_result == old(self).publish_result,
            old(self).publish_result matches Some(set) ==> r == set,
            old(self).publish_result is None ==> r == Err::<PublishOutcome, BeaconNodeError>(
                BeaconNodeError::NotConfigured,
            ),
            final(self).produce_input == old(self).produce_input,
            final(self).produce_result == old(self).produce_result,
    {
        self.publish_input = Some(block);
        match &self.publish_result {
            Some(set) => duplicate_publish_result(set),
            None => Err(BeaconNodeError::NotConfigured),
        }
    }
}

} // verus!
