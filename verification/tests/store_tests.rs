//! Tests of the stores and the data model: idempotent registration,
//! status derivation, element storage, group assembly, entries.

use dht_cascade::element::{Element, ElementGroup, EntryHashed, SignedHeader, SignedHeaderHashed};
use dht_cascade::element_buf::ElementBuf;
use dht_cascade::entry::{Entry, EntryError, HashableContentBytes, ENTRY_SIZE_LIMIT};
use dht_cascade::hash::{HashRole, HoloHash, HASH_DIGEST_LEN};
use dht_cascade::header::{Create, EntryType, Header};
use dht_cascade::metadata::{EntryDhtStatus, MetadataBuf};
use dht_cascade::time::{TimedHeaderHash, Timestamp};

fn raw(seed: u8) -> Vec<u8> {
    (0..HASH_DIGEST_LEN).map(|i| seed.wrapping_add(i as u8)).collect()
}

fn agent(seed: u8) -> HoloHash {
    HoloHash::from_raw_36(HashRole::Agent, raw(seed))
}

fn app_entry(data: &[u8]) -> Entry {
    Entry::app(data.to_vec()).unwrap()
}

fn create_header(author_seed: u8, secs: i64, entry: &Entry) -> Header {
    Header::Create(Create {
        author: agent(author_seed),
        timestamp: Timestamp { secs, nanos: 0 },
        entry_type: EntryType::AgentPubKey,
        entry_hash: dht_cascade::entry::hash_entry(entry),
    })
}

fn thh_of(h: &Header) -> TimedHeaderHash {
    TimedHeaderHash {
        timestamp: h.timestamp(),
        header_hash: dht_cascade::header::hash_header(h),
    }
}

#[test]
fn registration_is_idempotent() {
    let mut m = MetadataBuf::new();
    let e = app_entry(b"x");
    let h = create_header(1, 5, &e);
    let entry_hash = dht_cascade::entry::hash_entry(&e);
    m.register_header(entry_hash.clone(), thh_of(&h));
    m.register_header(entry_hash.clone(), thh_of(&h));
    assert_eq!(m.get_headers(&entry_hash).len(), 1);
}

#[test]
fn status_live_then_dead() {
    let mut m = MetadataBuf::new();
    let e = app_entry(b"x");
    let h = create_header(1, 5, &e);
    let entry_hash = dht_cascade::entry::hash_entry(&e);
    let header_hash = dht_cascade::header::hash_header(&h);
    // No headers at all: not live.
    assert_eq!(m.get_dht_status(&entry_hash), EntryDhtStatus::Dead);
    m.register_header(entry_hash.clone(), thh_of(&h));
    assert_eq!(m.get_dht_status(&entry_hash), EntryDhtStatus::Live);
    // A delete against the single header kills the entry.
    let tomb = TimedHeaderHash {
        timestamp: Timestamp { secs: 9, nanos: 0 },
        header_hash: HoloHash::from_raw_36(HashRole::Header, raw(99)),
    };
    m.register_delete_on_header(header_hash.clone(), tomb);
    assert_eq!(m.get_dht_status(&entry_hash), EntryDhtStatus::Dead);
}

#[test]
fn element_buf_put_and_get_element() {
    let mut b = ElementBuf::new();
    let e = app_entry(b"payload");
    let h = create_header(1, 5, &e);
    let header_hash = dht_cascade::header::hash_header(&h);
    let shh = SignedHeaderHashed::from_content_sync(SignedHeader {
        header: h,
        signature: vec![1, 2, 3],
    });
    let eh = EntryHashed::from_content(e);
    b.put(shh, Some(eh));
    let el = b.get_element(&header_hash).unwrap();
    assert!(el.header_address().same(&header_hash));
    match el.entry() {
        Some(Entry::App(bytes)) => assert_eq!(bytes.bytes().as_slice(), b"payload"),
        _ => panic!("expected the stored app entry to come back"),
    }
    // A second put of the same data changes nothing.
    let missing = HoloHash::from_raw_36(HashRole::Header, raw(42));
    assert!(b.get_element(&missing).is_none());
}

#[test]
fn element_group_dedups_and_filters() {
    let e = app_entry(b"shared");
    let h = create_header(1, 5, &e);
    let sh = SignedHeader { header: h, signature: vec![7] };
    // The same header twice, and one header for a different entry.
    let other = app_entry(b"other");
    let stray = SignedHeader {
        header: create_header(2, 6, &other),
        signature: vec![8],
    };
    let group = ElementGroup::from_wire_elements(
        vec![sh.clone(), sh.clone(), stray],
        e.clone(),
    );
    assert_eq!(group.headers().len(), 1);
    assert!(group
        .entry_hash()
        .same(&dht_cascade::entry::hash_entry(&e)));
}

#[test]
fn entry_size_limit_is_enforced() {
    let too_big = vec![0u8; ENTRY_SIZE_LIMIT + 1];
    match Entry::app(too_big) {
        Err(EntryError::EntryTooLarge(n)) => assert_eq!(n, ENTRY_SIZE_LIMIT + 1),
        _ => panic!("an oversized entry must be rejected"),
    }
    assert!(Entry::app(vec![0u8; 8]).is_ok());
}

#[test]
fn agent_entry_is_prehashed_to_its_key() {
    let key = agent(5);
    let e = Entry::Agent(key.clone());
    match e.hashable_content() {
        HashableContentBytes::Prehashed36(bytes) => assert_eq!(&bytes, key.digest()),
        _ => panic!("an agent entry must be pre-hashed"),
    }
    // So the agent entry's address equals the key re-tagged.
    let eh = dht_cascade::entry::hash_entry(&e);
    assert!(eh.same(&key.agent_to_entry()));
}

#[test]
fn cap_grant_and_claim_views() {
    let claim = dht_cascade::entry::CapClaim {
        tag: "tag".to_string(),
        grantor: agent(1),
        secret: vec![9, 9],
    };
    let e = Entry::CapClaim(claim);
    assert!(e.as_cap_claim().is_some());
    assert!(e.as_cap_grant().is_none());
    let a = Entry::Agent(agent(2));
    assert!(matches!(
        a.as_cap_grant(),
        Some(dht_cascade::entry::CapGrant::ChainAuthor(_))
    ));
    assert!(a.as_cap_claim().is_none());
}

#[test]
fn element_pairs_header_and_entry() {
    let e = app_entry(b"data");
    let h = create_header(1, 5, &e);
    let shh = SignedHeaderHashed::from_content_sync(SignedHeader {
        header: h,
        signature: vec![4],
    });
    let el = Element::new(shh, Some(e));
    assert!(el.entry().is_some());
    let (shh_back, entry_back) = el.into_inner();
    assert_eq!(shh_back.signature().as_slice(), &[4]);
    assert!(entry_back.is_some());
}
