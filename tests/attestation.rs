use beacon_types::codec::{decode_fixed, DecodeError, FixedCodec};
use beacon_types::primitives::Hash256;
use beacon_types::records::{AttestationData, AttestationDataAndCustodyBit};
use rand::prng::XorShiftRng;
use rand::{RngCore, SeedableRng};

fn random_hash(rng: &mut XorShiftRng) -> Hash256 {
    let mut bytes = [0u8; 32];
    rng.fill_bytes(&mut bytes);
    Hash256 { bytes }
}

fn random_attestation_data(rng: &mut XorShiftRng) -> AttestationData {
    AttestationData {
        slot: rng.next_u64(),
        shard: rng.next_u64(),
        beacon_block_root: random_hash(rng),
        epoch_boundary_root: random_hash(rng),
        shard_block_root: random_hash(rng),
        latest_crosslink_root: random_hash(rng),
        justified_epoch: rng.next_u64(),
        justified_block_root: random_hash(rng),
    }
}

fn random_with_custody_bit(rng: &mut XorShiftRng) -> AttestationDataAndCustodyBit {
    AttestationDataAndCustodyBit { data: random_attestation_data(rng), custody_bit: false }
}

#[test]
fn attestation_data_and_custody_bit_test_ssz_round_trip() {
    let mut rng = XorShiftRng::from_seed([42; 16]);

    let original = random_with_custody_bit(&mut rng);

    let mut bytes = Vec::new();
    original.encode_into(&mut bytes);

    let (decoded, _) = decode_fixed::<AttestationDataAndCustodyBit>(&bytes, 0).unwrap();

    assert_eq!(original, decoded);
}

#[test]
fn attestation_data_and_custody_bit_test_hash_tree_root_internal() {
    let mut rng = XorShiftRng::from_seed([42; 16]);
    let original = random_with_custody_bit(&mut rng);

    let result = original.hash_tree_root();

    assert_eq!(result.len(), 32);
}

#[test]
fn custody_bit_round_trips_when_set() {
    let mut rng = XorShiftRng::from_seed([7; 16]);
    let original = AttestationDataAndCustodyBit { data: random_attestation_data(&mut rng), custody_bit: true };
    let mut bytes = vec![0xaa, 0xbb];
    original.encode_into(&mut bytes);
    assert_eq!(bytes.len(), 2 + 185);
    assert_eq!(bytes[bytes.len() - 1], 1);
    let (decoded, n) = decode_fixed::<AttestationDataAndCustodyBit>(&bytes, 2).unwrap();
    assert_eq!(decoded, original);
    assert_eq!(n, 187);
}

#[test]
fn custody_bit_other_than_zero_or_one_is_invalid() {
    let mut rng = XorShiftRng::from_seed([7; 16]);
    let original = random_with_custody_bit(&mut rng);
    let mut bytes = Vec::new();
    original.encode_into(&mut bytes);
    let last = bytes.len() - 1;
    bytes[last] = 2;
    assert_eq!(
        decode_fixed::<AttestationDataAndCustodyBit>(&bytes, 0),
        Err(DecodeError::InvalidValue)
    );
}

#[test]
fn custody_bit_changes_the_commitment() {
    let mut rng = XorShiftRng::from_seed([42; 16]);
    let a = random_with_custody_bit(&mut rng);
    let b = AttestationDataAndCustodyBit { data: a.data, custody_bit: true };
    assert_ne!(a.hash_tree_root(), b.hash_tree_root());
    assert_eq!(a.hash_tree_root(), a.hash_tree_root());
}
