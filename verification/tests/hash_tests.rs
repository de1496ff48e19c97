//! Tests of the role-tagged address model: serialization, role checks,
//! explicit re-tagging, the content digest, and the timed-header order.

use dht_cascade::digest::digest36;
use dht_cascade::hash::{HashDecodeError, HashRole, HoloHash, HASH_DIGEST_LEN, HASH_ENCODED_LEN};
use dht_cascade::hash_type::PrimitiveHashType;
use dht_cascade::time::{TimedHeaderHash, Timestamp};

fn digest_bytes(seed: u8) -> Vec<u8> {
    (0..HASH_DIGEST_LEN).map(|i| seed.wrapping_add(i as u8)).collect()
}

#[test]
fn encode_is_prefix_then_digest() {
    let h = HoloHash::from_raw_36(HashRole::Entry, digest_bytes(7));
    let bytes = h.encode();
    assert_eq!(bytes.len(), HASH_ENCODED_LEN);
    assert_eq!(&bytes[0..3], &[0x84, 0x21, 0x24]);
    assert_eq!(&bytes[3..], digest_bytes(7).as_slice());
}

#[test]
fn decode_round_trip() {
    let h = HoloHash::from_raw_36(HashRole::Header, digest_bytes(9));
    let bytes = h.encode();
    let back = HoloHash::decode(&bytes, HashRole::Header).unwrap();
    assert!(back.same(&h));
}

#[test]
fn decode_rejects_wrong_role_prefix() {
    let h = HoloHash::from_raw_36(HashRole::Agent, digest_bytes(3));
    let bytes = h.encode();
    // An agent key must never be silently reinterpreted as an entry hash.
    assert_eq!(
        HoloHash::decode(&bytes, HashRole::Entry).unwrap_err(),
        HashDecodeError::WrongPrefix
    );
}

#[test]
fn decode_rejects_wrong_length() {
    let mut bytes = HoloHash::from_raw_36(HashRole::Dna, digest_bytes(1)).encode();
    bytes.pop();
    assert_eq!(
        HoloHash::decode(&bytes, HashRole::Dna).unwrap_err(),
        HashDecodeError::WrongLength
    );
}

#[test]
fn same_distinguishes_roles_over_identical_bytes() {
    let a = HoloHash::from_raw_36(HashRole::Agent, digest_bytes(5));
    let e = HoloHash::from_raw_36(HashRole::Entry, digest_bytes(5));
    assert!(!a.same(&e));
    let a2 = HoloHash::from_raw_36(HashRole::Agent, digest_bytes(5));
    assert!(a.same(&a2));
}

#[test]
fn agent_entry_retag_keeps_bytes() {
    let a = HoloHash::from_raw_36(HashRole::Agent, digest_bytes(5));
    let e = a.clone().agent_to_entry();
    assert_eq!(e.role(), HashRole::Entry);
    assert_eq!(e.digest(), a.digest());
    let back = e.entry_to_agent();
    assert!(back.same(&a));
}

#[test]
fn primitive_hash_type_prefixes_and_names() {
    assert_eq!(dht_cascade::hash_type::Agent::static_prefix(), vec![0x84, 0x20, 0x24]);
    assert_eq!(dht_cascade::hash_type::Entry::static_prefix(), vec![0x84, 0x21, 0x24]);
    assert_eq!(dht_cascade::hash_type::Dna::static_prefix(), vec![0x84, 0x2d, 0x24]);
    assert_eq!(dht_cascade::hash_type::DhtOp::static_prefix(), vec![0x84, 0x24, 0x24]);
    assert_eq!(dht_cascade::hash_type::Header::static_prefix(), vec![0x84, 0x29, 0x24]);
    assert_eq!(dht_cascade::hash_type::NetId::static_prefix(), vec![0x84, 0x22, 0x24]);
    assert_eq!(dht_cascade::hash_type::Wasm::static_prefix(), vec![0x84, 0x2a, 0x24]);
    assert_eq!(dht_cascade::hash_type::Agent::new().hash_name(), "AgentPubKey");
    assert_eq!(dht_cascade::hash_type::Entry::new().hash_name(), "EntryHash");
    assert_eq!(dht_cascade::hash_type::Header::new().hash_name(), "HeaderHash");
    assert_eq!(dht_cascade::hash_type::Dna::new().hash_name(), "DnaHash");
    assert_eq!(dht_cascade::hash_type::DhtOp::new().hash_name(), "DhtOpHash");
    assert_eq!(dht_cascade::hash_type::NetId::new().hash_name(), "NetIdHash");
    assert_eq!(dht_cascade::hash_type::Wasm::new().hash_name(), "WasmHash");
}

#[test]
fn content_digest_is_deterministic_and_fixed_width() {
    let a = digest36(&vec![1, 2, 3, 4, 5]);
    let b = digest36(&vec![1, 2, 3, 4, 5]);
    assert_eq!(a, b);
    assert_eq!(a.len(), HASH_DIGEST_LEN);
    assert_eq!(digest36(&Vec::new()).len(), HASH_DIGEST_LEN);
}

#[test]
fn content_digest_exact_small_input() {
    // Folding [1, 2] into the zero state touches the first two lanes.
    let d = digest36(&vec![1u8, 2u8]);
    let mut expected = vec![0u8; HASH_DIGEST_LEN];
    expected[0] = 1;
    expected[1] = 2;
    assert_eq!(d, expected);
}

#[test]
fn timed_header_order_is_time_then_hash() {
    let early = TimedHeaderHash {
        timestamp: Timestamp { secs: 10, nanos: 0 },
        header_hash: HoloHash::from_raw_36(HashRole::Header, digest_bytes(200)),
    };
    let late = TimedHeaderHash {
        timestamp: Timestamp { secs: 11, nanos: 0 },
        header_hash: HoloHash::from_raw_36(HashRole::Header, digest_bytes(0)),
    };
    assert!(early.le(&late));
    assert!(!late.le(&early));
    // Equal timestamps: ascending header-hash bytes break the tie.
    let tie_low = TimedHeaderHash {
        timestamp: Timestamp { secs: 10, nanos: 0 },
        header_hash: HoloHash::from_raw_36(HashRole::Header, digest_bytes(1)),
    };
    assert!(tie_low.le(&early));
    assert!(!early.le(&tie_low));
}
