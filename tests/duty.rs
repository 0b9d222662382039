use beacon_types::block::genesis_beacon_block;
use beacon_types::chain_spec::ChainSpec;
use beacon_types::duty::{
    AttestationPublishOutcome, BeaconNodeError, DirectBeaconNode, FreeAttestation, PublishOutcome,
    SimulatedBeaconNode,
};
use beacon_types::primitives::{Hash256, Signature};
use beacon_types::records::AttestationData;

fn attestation_data(slot: u64) -> AttestationData {
    AttestationData {
        slot,
        shard: 1,
        beacon_block_root: Hash256::zero(),
        epoch_boundary_root: Hash256::zero(),
        shard_block_root: Hash256::zero(),
        latest_crosslink_root: Hash256::zero(),
        justified_epoch: 0,
        justified_block_root: Hash256::zero(),
    }
}

#[test]
fn direct_node_stores_published_block() {
    let spec = ChainSpec::foundation();
    let mut node = DirectBeaconNode::new();
    assert!(node.last_published_block().is_none());
    let block = genesis_beacon_block(Hash256::from_slice(b"root"), &spec);
    let outcome = node.publish_beacon_block(block.clone());
    assert_eq!(outcome, Ok(PublishOutcome::ValidBlock));
    assert_eq!(node.last_published_block(), Some(&block));
    assert!(node.last_published_free_attestation().is_none());
}

#[test]
fn direct_node_stores_published_attestation() {
    let mut node = DirectBeaconNode::new();
    let fa = FreeAttestation {
        data: attestation_data(3),
        signature: Signature::empty_signature(),
        validator_index: 9,
    };
    assert_eq!(node.publish_attestation_data(fa), Ok(AttestationPublishOutcome::ValidAttestation));
    assert_eq!(node.last_published_free_attestation(), Some(fa));
}

#[test]
fn direct_node_produces_only_for_requested_slot() {
    let spec = ChainSpec::foundation();
    let block = genesis_beacon_block(Hash256::zero(), &spec);
    assert_eq!(
        DirectBeaconNode::produce_beacon_block(0, Some(block.clone())),
        Ok(Some(block.clone()))
    );
    assert_eq!(
        DirectBeaconNode::produce_beacon_block(1, Some(block)),
        Err(BeaconNodeError::RemoteFailure("Unable to produce at non-current slot.".to_string()))
    );
    assert_eq!(
        DirectBeaconNode::produce_beacon_block(1, None),
        Err(BeaconNodeError::RemoteFailure("Did not produce block.".to_string()))
    );
}

#[test]
fn direct_node_proposer_nonce_lookups() {
    assert_eq!(
        DirectBeaconNode::proposer_nonce(None, Some(3)),
        Err(BeaconNodeError::RemoteFailure("pubkey unknown.".to_string()))
    );
    assert_eq!(
        DirectBeaconNode::proposer_nonce(Some(1), None),
        Err(BeaconNodeError::RemoteFailure("validator_index unknown.".to_string()))
    );
    assert_eq!(DirectBeaconNode::proposer_nonce(Some(1), Some(3)), Ok(3));
}

#[test]
fn direct_node_attestation_data_answers() {
    let d = attestation_data(5);
    assert_eq!(DirectBeaconNode::produce_attestation_data(Ok(d)), Ok(Some(d)));
    assert_eq!(
        DirectBeaconNode::produce_attestation_data(Err("no shard".to_string())),
        Err(BeaconNodeError::RemoteFailure("no shard".to_string()))
    );
}

#[test]
fn simulated_node_without_result_fails() {
    let mut node = SimulatedBeaconNode::new();
    let sig = Signature::empty_signature();
    assert_eq!(node.produce_beacon_block(4, &sig), Err(BeaconNodeError::NotConfigured));
    assert_eq!(node.produce_input, Some((4, sig)));
    let block = genesis_beacon_block(Hash256::zero(), &ChainSpec::foundation());
    assert_eq!(node.publish_beacon_block(block.clone()), Err(BeaconNodeError::NotConfigured));
    assert_eq!(node.publish_input, Some(block));
}

#[test]
fn simulated_node_returns_set_results() {
    let mut node = SimulatedBeaconNode::new();
    let block = genesis_beacon_block(Hash256::zero(), &ChainSpec::foundation());
    node.set_next_produce_result(Ok(Some(block.clone())));
    node.set_next_publish_result(Ok(PublishOutcome::InvalidBlock("late".to_string())));
    let sig = Signature::empty_signature();
    assert_eq!(node.produce_beacon_block(0, &sig), Ok(Some(block.clone())));
    assert_eq!(
        node.publish_beacon_block(block.clone()),
        Ok(PublishOutcome::InvalidBlock("late".to_string()))
    );
    assert_eq!(node.produce_beacon_block(0, &sig), Ok(Some(block.clone())));
    assert_eq!(
        node.publish_beacon_block(block.clone()),
        Ok(PublishOutcome::InvalidBlock("late".to_string()))
    );
    assert_eq!(node.produce_input, Some((0, sig)));
    assert_eq!(node.publish_input, Some(block));
}
