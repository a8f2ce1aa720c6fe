use lighthouse_core::attestation_record::AttestationRecord;
use lighthouse_core::block::{Block, SSZ_BLOCK_LENGTH};
use lighthouse_core::ssz::{encode_uint, Encodable, SszStream, LENGTH_BYTES, WORD_BYTES};
use lighthouse_core::types::Hash256;

fn hash_of(byte: u8) -> Hash256 {
    Hash256 { bytes: [byte; 32] }
}

fn sample_block(attestations: Vec<AttestationRecord>) -> Block {
    Block {
        parent_hash: hash_of(0x11),
        slot_number: 0x0102_0304_0506_0708,
        randao_reveal: hash_of(0x22),
        attestations,
        pow_chain_ref: hash_of(0x33),
        active_state_root: hash_of(0x44),
        crystallized_state_root: hash_of(0x55),
    }
}

fn sample_attestation(slot: u64, parents: usize) -> AttestationRecord {
    AttestationRecord {
        slot,
        shard_id: 7,
        oblique_parent_hashes: vec![hash_of(0xaa); parents],
        shard_block_hash: hash_of(0xbb),
    }
}

fn full_encoding(b: &Block) -> Vec<u8> {
    let mut s = SszStream::new();
    s.append(b);
    s.drain()
}

#[test]
fn test_block_zero() {
    let b = Block::zero();
    assert!(b.parent_hash.is_zero());
    assert_eq!(b.slot_number, 0);
    assert!(b.randao_reveal.is_zero());
    assert_eq!(b.attestations.len(), 0);
    assert!(b.pow_chain_ref.is_zero());
    assert!(b.active_state_root.is_zero());
    assert!(b.crystallized_state_root.is_zero());
}

#[test]
fn test_hash_is_zero_only_for_zero() {
    assert!(Hash256::zero().is_zero());
    let mut bytes = [0u8; 32];
    bytes[31] = 1;
    assert!(!Hash256 { bytes }.is_zero());
    assert_eq!(Hash256::zero(), Hash256 { bytes: [0u8; 32] });
}

#[test]
fn test_encode_uint_is_a_big_endian_word() {
    let word = encode_uint(0x0102_0304_0506_0708);
    let mut expected = [0u8; 32];
    expected[24..].copy_from_slice(&[1, 2, 3, 4, 5, 6, 7, 8]);
    assert_eq!(word, expected);
    assert_eq!(encode_uint(0), [0u8; 32]);
    let mut max = [0u8; 32];
    max[24..].copy_from_slice(&[0xff; 8]);
    assert_eq!(encode_uint(u64::MAX), max);
}

#[test]
fn test_stream_appends_in_order_and_drains() {
    let mut s = SszStream::new();
    s.append(&1u64);
    s.append(&hash_of(9));
    s.append(&2u16);
    s.append_encoded_raw(&[0xde, 0xad]);
    let bytes = s.drain();
    assert_eq!(bytes.len(), 32 + 32 + 32 + 2);
    assert_eq!(bytes[31], 1);
    assert_eq!(&bytes[32..64], &[9u8; 32]);
    assert_eq!(bytes[95], 2);
    assert_eq!(&bytes[96..], &[0xde, 0xad]);
    assert_eq!(SszStream::new().drain(), Vec::<u8>::new());
}

#[test]
fn test_append_vec_writes_count_then_items() {
    let mut s = SszStream::new();
    s.append_vec(&vec![hash_of(1), hash_of(2), hash_of(3)]);
    let bytes = s.drain();
    assert_eq!(bytes.len(), 32 + 3 * 32);
    assert_eq!(&bytes[..31], &[0u8; 31]);
    assert_eq!(bytes[31], 3);
    assert_eq!(&bytes[32..64], &[1u8; 32]);
    assert_eq!(&bytes[64..96], &[2u8; 32]);
    assert_eq!(&bytes[96..128], &[3u8; 32]);

    let mut empty = SszStream::new();
    empty.append_vec(&Vec::<u64>::new());
    assert_eq!(empty.drain(), vec![0u8; LENGTH_BYTES]);
    assert_eq!(LENGTH_BYTES, 32);
    assert_eq!(WORD_BYTES, 32);
}

#[test]
fn test_encode_for_signing_bytes() {
    let b = sample_block(vec![sample_attestation(5, 2)]);
    let encoded = b.encode_for_signing();
    assert_eq!(encoded.len(), SSZ_BLOCK_LENGTH);
    assert_eq!(encoded.len(), 192);
    assert_eq!(&encoded[0..32], &[0x11u8; 32]);
    assert_eq!(&encoded[32..56], &[0u8; 24]);
    assert_eq!(&encoded[56..64], &[1, 2, 3, 4, 5, 6, 7, 8]);
    assert_eq!(&encoded[64..96], &[0x22u8; 32]);
    assert_eq!(&encoded[96..128], &[0x33u8; 32]);
    assert_eq!(&encoded[128..160], &[0x44u8; 32]);
    assert_eq!(&encoded[160..192], &[0x55u8; 32]);
}

#[test]
fn test_encode_for_signing_of_zero_block_is_all_zero() {
    assert_eq!(Block::zero().encode_for_signing(), [0u8; 192]);
}

#[test]
fn test_signing_encoding_ignores_attestations() {
    let none = sample_block(vec![]);
    let some = sample_block(vec![sample_attestation(1, 0), sample_attestation(2, 3)]);
    assert_eq!(none.encode_for_signing(), some.encode_for_signing());
}

#[test]
fn test_full_encoding_of_block_without_attestations() {
    let b = sample_block(vec![]);
    let full = full_encoding(&b);
    let signing = b.encode_for_signing();
    assert_eq!(full.len(), 192 + 32);
    assert_eq!(&full[..96], &signing[..96]);
    assert_eq!(&full[96..128], &[0u8; 32]);
    assert_eq!(&full[128..], &signing[96..]);
}

#[test]
fn test_signing_encoding_is_full_encoding_without_attestations() {
    let b = sample_block(vec![sample_attestation(1, 0), sample_attestation(2, 3)]);
    let full = full_encoding(&b);
    let signing = b.encode_for_signing();
    // Two records: 96 bytes of fixed fields and one count word each, and three hashes.
    let attestations = 32 + (128 + 0) + (128 + 96);
    assert_eq!(full.len(), 192 + attestations);
    let mut cut = full[..96].to_vec();
    cut.extend_from_slice(&full[96 + attestations..]);
    assert_eq!(cut, signing.to_vec());
    assert_eq!(full[96 + 31], 2);
}

#[test]
fn test_attestation_record_encoding() {
    let record = sample_attestation(0x0a0b, 1);
    let mut s = SszStream::new();
    record.ssz_append(&mut s);
    let bytes = s.drain();
    assert_eq!(bytes.len(), 32 + 32 + 32 + 32 + 32);
    assert_eq!(&bytes[30..32], &[0x0a, 0x0b]);
    assert_eq!(bytes[63], 7);
    assert_eq!(bytes[95], 1);
    assert_eq!(&bytes[96..128], &[0xaau8; 32]);
    assert_eq!(&bytes[128..160], &[0xbbu8; 32]);

    let zero = AttestationRecord::zero();
    assert_eq!(zero.slot, 0);
    assert_eq!(zero.shard_id, 0);
    assert!(zero.oblique_parent_hashes.is_empty());
    assert!(zero.shard_block_hash.is_zero());
}

#[test]
fn test_attestation_order_changes_full_encoding_only() {
    let ab = sample_block(vec![sample_attestation(1, 0), sample_attestation(2, 0)]);
    let ba = sample_block(vec![sample_attestation(2, 0), sample_attestation(1, 0)]);
    assert_ne!(full_encoding(&ab), full_encoding(&ba));
    assert_eq!(ab.encode_for_signing(), ba.encode_for_signing());
}
