use beacon_types::block::genesis_beacon_block;
use beacon_types::chain_spec::ChainSpec;
use beacon_types::primitives::{Hash256, Signature};

#[test]
fn test_state_root() {
    let spec = ChainSpec::foundation();
    let state_root = Hash256::from_slice("cats".as_bytes());

    let block = genesis_beacon_block(state_root, &spec);

    assert_eq!(block.state_root, state_root);
}

#[test]
fn test_zero_items() {
    let spec = ChainSpec::foundation();

    let state_root = Hash256::zero();

    let genesis_block = genesis_beacon_block(state_root, &spec);

    assert!(genesis_block.slot == 0);
    assert!(genesis_block.parent_root.is_zero());
    assert_eq!(genesis_block.randao_reveal, Signature::empty_signature());
    assert!(genesis_block.eth1_data.deposit_root.is_zero());
    assert!(genesis_block.eth1_data.block_hash.is_zero());
}

#[test]
fn test_beacon_body() {
    let spec = ChainSpec::foundation();

    let state_root = Hash256::zero();

    let genesis_block = genesis_beacon_block(state_root, &spec);

    assert!(genesis_block.body.proposer_slashings.is_empty());
    assert!(genesis_block.body.casper_slashings.is_empty());
    assert!(genesis_block.body.attestations.is_empty());
    assert!(genesis_block.body.deposits.is_empty());
    assert!(genesis_block.body.exits.is_empty());
}

#[test]
fn test_signature() {
    let spec = ChainSpec::foundation();

    let state_root = Hash256::zero();

    let genesis_block = genesis_beacon_block(state_root, &spec);

    for item in genesis_block.signature.bytes.iter() {
        assert!(*item == 0);
    }
    assert_eq!(genesis_block.signature, Signature::empty_signature());
}

#[test]
fn genesis_block_fields_follow_spec() {
    let mut spec = ChainSpec::foundation();
    spec.genesis_slot = 77;
    let state_root = Hash256::from_slice(&[9u8; 40]);

    let block = genesis_beacon_block(state_root, &spec);

    assert_eq!(block.slot, 77);
    assert!(block.parent_root.is_zero());
    assert_eq!(block.state_root.bytes, [9u8; 32]);
    assert_eq!(block.signature, spec.empty_signature);
    assert!(block.body.custody_reseeds.is_empty());
    assert!(block.body.custody_challenges.is_empty());
    assert!(block.body.custody_responses.is_empty());
}

#[test]
fn hash_from_short_slice_pads_with_zeros() {
    let h = Hash256::from_slice("cats".as_bytes());
    assert_eq!(&h.bytes[0..4], "cats".as_bytes());
    assert!(h.bytes[4..].iter().all(|b| *b == 0));
    assert!(!h.is_zero());
    assert!(Hash256::zero().is_zero());
}

#[test]
fn genesis_block_commitment() {
    let spec = ChainSpec::foundation();
    let a = genesis_beacon_block(Hash256::zero(), &spec);
    let b = genesis_beacon_block(Hash256::zero(), &spec);
    let c = genesis_beacon_block(Hash256::from_slice("cats".as_bytes()), &spec);
    assert_eq!(a.hash_tree_root().len(), 32);
    assert_eq!(a.hash_tree_root(), b.hash_tree_root());
    assert_ne!(a.hash_tree_root(), c.hash_tree_root());
}
