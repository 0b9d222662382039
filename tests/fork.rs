use beacon_types::codec::{decode_fixed, DecodeError, FixedCodec};
use beacon_types::fork::Fork;
use beacon_types::primitives::Hash256;
use rand::prng::XorShiftRng;
use rand::{RngCore, SeedableRng};

fn random_fork(rng: &mut XorShiftRng) -> Fork {
    Fork {
        previous_version: rng.next_u64(),
        current_version: rng.next_u64(),
        epoch: rng.next_u64(),
    }
}

#[test]
fn fork_test_ssz_round_trip() {
    let mut rng = XorShiftRng::from_seed([42; 16]);
    let original = random_fork(&mut rng);

    let mut bytes = Vec::new();
    original.encode_into(&mut bytes);
    let (decoded, _) = decode_fixed::<Fork>(&bytes, 0).unwrap();

    assert_eq!(original, decoded);
}

#[test]
fn fork_test_hash_tree_root_internal() {
    let mut rng = XorShiftRng::from_seed([42; 16]);
    let original = random_fork(&mut rng);

    let result = original.hash_tree_root();

    assert_eq!(result.len(), 32);
}

#[test]
fn fork_version_before_and_at_epoch() {
    let fork = Fork { previous_version: 1, current_version: 2, epoch: 10 };
    assert_eq!(fork.get_fork_version(5), 1);
    assert_eq!(fork.get_fork_version(10), 2);
    assert_eq!(fork.get_fork_version(11), 2);
}

#[test]
fn fork_domain_value() {
    let fork = Fork { previous_version: 1, current_version: 2, epoch: 10 };
    assert_eq!(fork.get_domain(10, 7), 8589934599);
    assert_eq!(fork.get_domain(9, 7), 4294967303);
}

#[test]
fn fork_encoding_is_little_endian() {
    let fork = Fork { previous_version: 1, current_version: 0x0102, epoch: u64::MAX };
    let mut bytes = Vec::new();
    fork.encode_into(&mut bytes);
    assert_eq!(bytes.len(), 24);
    assert_eq!(&bytes[0..8], &[1, 0, 0, 0, 0, 0, 0, 0]);
    assert_eq!(&bytes[8..16], &[2, 1, 0, 0, 0, 0, 0, 0]);
    assert_eq!(&bytes[16..24], &[255u8; 8]);
}

#[test]
fn fork_decode_reports_short_input() {
    let bytes = vec![0u8; 23];
    assert_eq!(decode_fixed::<Fork>(&bytes, 0), Err(DecodeError::OutOfBounds));
    let bytes = vec![0u8; 30];
    assert_eq!(decode_fixed::<Fork>(&bytes, 7), Err(DecodeError::OutOfBounds));
    let (f, n) = decode_fixed::<Fork>(&bytes, 6).unwrap();
    assert_eq!(n, 30);
    assert_eq!(f, Fork { previous_version: 0, current_version: 0, epoch: 0 });
}

#[test]
fn fork_hash_is_deterministic_and_not_the_encoding() {
    let a = Fork { previous_version: 3, current_version: 4, epoch: 5 };
    let b = Fork { previous_version: 3, current_version: 4, epoch: 5 };
    let c = Fork { previous_version: 3, current_version: 4, epoch: 6 };
    assert_eq!(a.hash_tree_root(), b.hash_tree_root());
    assert_ne!(a.hash_tree_root(), c.hash_tree_root());
    let mut enc_a = Vec::new();
    a.encode_into(&mut enc_a);
    let mut enc_b = Vec::new();
    b.encode_into(&mut enc_b);
    assert_eq!(enc_a, enc_b);
    assert_ne!(a.hash_tree_root(), enc_a[0..24].to_vec());
}

#[test]
fn zero_hash_leaf_commitment_is_its_keccak_digest() {
    let leaf = Hash256::zero().hash_tree_root();
    assert_eq!(leaf.len(), 32);
    assert_eq!(leaf[0..4].to_vec(), vec![0x29, 0x0d, 0xec, 0xd9]);
    assert_eq!(leaf[28..32].to_vec(), vec![0x0e, 0xf3, 0xe5, 0x63]);
}
