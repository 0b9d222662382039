use beacon_types::chain_spec::ChainSpec;
use beacon_types::codec::{decode_list, encode_list, DecodeError};
use beacon_types::deposit::Deposit;
use beacon_types::fork::Fork;
use beacon_types::genesis::{genesis_state, BeaconStateTestBuilder};
use beacon_types::primitives::{Hash256, PublicKey, Signature};
use beacon_types::records::{DepositData, DepositInput, Eth1Data, Validator};
use beacon_types::state::BeaconState;
use rand::prng::XorShiftRng;
use rand::{RngCore, SeedableRng};

fn random_hash(rng: &mut XorShiftRng) -> Hash256 {
    let mut bytes = [0u8; 32];
    rng.fill_bytes(&mut bytes);
    Hash256 { bytes }
}

fn random_pubkey(rng: &mut XorShiftRng) -> PublicKey {
    let mut bytes = [0u8; 48];
    rng.fill_bytes(&mut bytes);
    PublicKey { bytes }
}

fn random_signature(rng: &mut XorShiftRng) -> Signature {
    let mut bytes = [0u8; 96];
    rng.fill_bytes(&mut bytes);
    Signature { bytes }
}

fn random_state(rng: &mut XorShiftRng) -> BeaconState {
    let count = 1 + (rng.next_u32() % 5) as usize;
    let mut validator_registry = Vec::new();
    let mut validator_balances = Vec::new();
    for _ in 0..count {
        validator_registry.push(Validator {
            pubkey: random_pubkey(rng),
            withdrawal_credentials: random_hash(rng),
            activation_epoch: rng.next_u64(),
            exit_epoch: rng.next_u64(),
        });
        validator_balances.push(rng.next_u64());
    }
    BeaconState {
        slot: rng.next_u64(),
        genesis_time: rng.next_u64(),
        fork: Fork {
            previous_version: rng.next_u64(),
            current_version: rng.next_u64(),
            epoch: rng.next_u64(),
        },
        validator_registry,
        validator_balances,
        latest_eth1_data: Eth1Data { deposit_root: random_hash(rng), block_hash: random_hash(rng) },
    }
}

fn random_keys(rng: &mut XorShiftRng, n: usize) -> Vec<(PublicKey, Signature)> {
    (0..n).map(|_| (random_pubkey(rng), random_signature(rng))).collect()
}

fn deposit(pubkey: PublicKey, credentials: Hash256, amount: u64) -> Deposit {
    Deposit {
        branch: vec![],
        index: 0,
        deposit_data: DepositData {
            amount,
            timestamp: 1,
            deposit_input: DepositInput {
                pubkey,
                withdrawal_credentials: credentials,
                proof_of_possession: Signature::empty_signature(),
            },
        },
    }
}

#[test]
fn can_produce_genesis_block() {
    let mut rng = XorShiftRng::from_seed([42; 16]);
    let builder = BeaconStateTestBuilder::with_random_validators(&random_keys(&mut rng, 2));

    builder.build().unwrap();
}

#[test]
fn tests_test_ssz_round_trip() {
    let mut rng = XorShiftRng::from_seed([42; 16]);
    let original = random_state(&mut rng);

    let mut bytes = Vec::new();
    original.ssz_append(&mut bytes);
    let (decoded, _) = BeaconState::ssz_decode(&bytes, 0).unwrap();

    assert_eq!(original, decoded);
}

#[test]
fn test_hash_tree_root() {
    let mut rng = XorShiftRng::from_seed([42; 16]);
    let original = random_state(&mut rng);

    let result = original.hash_tree_root();

    assert_eq!(result.len(), 32);
}

#[test]
fn genesis_has_one_active_validator_per_distinct_deposit() {
    let mut rng = XorShiftRng::from_seed([3; 16]);
    let keys = random_keys(&mut rng, 5);
    let builder = BeaconStateTestBuilder::with_random_validators(&keys);
    let state = builder.build().unwrap();
    assert_eq!(state.validator_registry.len(), 5);
    assert_eq!(state.validator_balances, vec![32_000_000_000u64; 5]);
    for (v, (pk, _)) in state.validator_registry.iter().zip(keys.iter()) {
        assert_eq!(v.pubkey, *pk);
        assert_eq!(v.activation_epoch, 0);
        assert_eq!(v.exit_epoch, u64::MAX);
    }
    assert_eq!(state.genesis_time, 10_000_000);
    assert_eq!(state.slot, 0);
    assert_eq!(state.fork, Fork { previous_version: 0, current_version: 0, epoch: 0 });
}

#[test]
fn genesis_is_deterministic() {
    let mut rng = XorShiftRng::from_seed([4; 16]);
    let keys = random_keys(&mut rng, 3);
    let a = BeaconStateTestBuilder::with_random_validators(&keys).build().unwrap();
    let b = BeaconStateTestBuilder::with_random_validators(&keys).build().unwrap();
    assert_eq!(a, b);
    assert_eq!(a.hash_tree_root(), b.hash_tree_root());
    let mut ea = Vec::new();
    a.ssz_append(&mut ea);
    let mut eb = Vec::new();
    b.ssz_append(&mut eb);
    assert_eq!(ea, eb);
}

#[test]
fn genesis_of_no_deposits_is_empty() {
    let spec = ChainSpec::foundation();
    let eth1 = Eth1Data { deposit_root: Hash256::zero(), block_hash: Hash256::from_slice(&[5u8; 32]) };
    let state = genesis_state(12, &vec![], eth1, &spec).unwrap();
    assert!(state.validator_registry.is_empty());
    assert!(state.validator_balances.is_empty());
    assert_eq!(state.latest_eth1_data, eth1);
    assert_eq!(state.genesis_time, 12);
}

#[test]
fn genesis_adds_one_active_entry_per_deposit() {
    let spec = ChainSpec::foundation();
    let mut rng = XorShiftRng::from_seed([5; 16]);
    let pk = random_pubkey(&mut rng);
    let other = random_pubkey(&mut rng);
    let creds = random_hash(&mut rng);
    let deposits = vec![
        deposit(pk, creds, 16_000_000_000),
        deposit(other, creds, 1),
        deposit(pk, random_hash(&mut rng), u64::MAX),
    ];
    let eth1 = Eth1Data { deposit_root: Hash256::zero(), block_hash: Hash256::zero() };
    let state = genesis_state(0, &deposits, eth1, &spec).unwrap();
    assert_eq!(state.validator_registry.len(), 3);
    assert_eq!(state.validator_balances, vec![16_000_000_000, 1, u64::MAX]);
    for (v, d) in state.validator_registry.iter().zip(deposits.iter()) {
        assert_eq!(v.pubkey, d.deposit_data.deposit_input.pubkey);
        assert_eq!(v.withdrawal_credentials, d.deposit_data.deposit_input.withdrawal_credentials);
        assert_eq!(v.activation_epoch, 0);
        assert_eq!(v.exit_epoch, u64::MAX);
    }
}

#[test]
fn genesis_uses_spec_epochs() {
    let mut spec = ChainSpec::foundation();
    spec.genesis_epoch = 3;
    spec.genesis_fork_version = 9;
    spec.far_future_epoch = 1000;
    let mut rng = XorShiftRng::from_seed([6; 16]);
    let deposits = vec![deposit(random_pubkey(&mut rng), random_hash(&mut rng), 1)];
    let eth1 = Eth1Data { deposit_root: Hash256::zero(), block_hash: Hash256::zero() };
    let state = genesis_state(0, &deposits, eth1, &spec).unwrap();
    assert_eq!(state.validator_registry[0].activation_epoch, 3);
    assert_eq!(state.validator_registry[0].exit_epoch, 1000);
    assert_eq!(state.fork, Fork { previous_version: 9, current_version: 9, epoch: 3 });
}

#[test]
fn deposit_round_trip_with_branch() {
    let mut rng = XorShiftRng::from_seed([9; 16]);
    let mut d = deposit(random_pubkey(&mut rng), random_hash(&mut rng), 42);
    d.branch = vec![random_hash(&mut rng), random_hash(&mut rng), random_hash(&mut rng)];
    d.index = 17;
    let mut bytes = Vec::new();
    d.ssz_append(&mut bytes);
    assert_eq!(&bytes[0..4], &[96, 0, 0, 0]);
    bytes.extend_from_slice(&[1, 2, 3]);
    let (decoded, n) = Deposit::ssz_decode(&bytes, 0).unwrap();
    assert_eq!(decoded, d);
    assert_eq!(n, bytes.len() - 3);
    assert_eq!(d.hash_tree_root().len(), 32);
}

#[test]
fn list_decode_errors() {
    let bytes = vec![0u8, 0, 0];
    assert_eq!(decode_list::<u64>(&bytes, 0), Err(DecodeError::OutOfBounds));
    let bytes = vec![16u8, 0, 0, 0, 1, 2, 3, 4, 5, 6, 7, 8];
    assert_eq!(decode_list::<u64>(&bytes, 0), Err(DecodeError::OutOfBounds));
    let bytes = vec![4u8, 0, 0, 0, 1, 2, 3, 4];
    assert_eq!(decode_list::<u64>(&bytes, 0), Err(DecodeError::InvalidLength));
    let mut bytes = Vec::new();
    encode_list(&mut bytes, &vec![1u64, 0x0203]);
    assert_eq!(bytes, vec![16, 0, 0, 0, 1, 0, 0, 0, 0, 0, 0, 0, 3, 2, 0, 0, 0, 0, 0, 0]);
    assert_eq!(decode_list::<u64>(&bytes, 0), Ok((vec![1u64, 0x0203], 20)));
}

#[test]
fn state_commitment_depends_on_balances() {
    let mut rng = XorShiftRng::from_seed([42; 16]);
    let a = random_state(&mut rng);
    let mut b = a.clone();
    b.validator_balances[0] = b.validator_balances[0].wrapping_add(1);
    assert_ne!(a.hash_tree_root(), b.hash_tree_root());
}
