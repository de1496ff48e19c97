//! Scenario tests of the cascade's element reads: liveness filtering,
//! oldest-header selection, retrieve's local-first behavior, network
//! merging, and failure propagation.

use dht_cascade::cascade::{test_dbs_and_mocks, Cascade};
use dht_cascade::element::{SignedHeader, SignedHeaderHashed};
use dht_cascade::entry::Entry;
use dht_cascade::error::CascadeError;
use dht_cascade::hash::{HashRole, HoloHash, HASH_DIGEST_LEN};
use dht_cascade::header::{Create, Delete, EntryType, Header};
use dht_cascade::net::{
    GetElementResponse, GetMetaOptions, GetOptions, MetadataSet, RawGetEntryResponse,
    ScriptedNetwork, WireElement,
};
use dht_cascade::time::{TimedHeaderHash, Timestamp};

fn raw(seed: u8) -> Vec<u8> {
    (0..HASH_DIGEST_LEN).map(|i| seed.wrapping_add(i as u8)).collect()
}

fn agent(seed: u8) -> HoloHash {
    HoloHash::from_raw_36(HashRole::Agent, raw(seed))
}

fn app_entry(data: &[u8]) -> Entry {
    Entry::app(data.to_vec()).unwrap()
}

fn create_header(author_seed: u8, secs: i64, entry: &Entry) -> Header {
    Header::Create(Create {
        author: agent(author_seed),
        timestamp: Timestamp { secs, nanos: 0 },
        entry_type: EntryType::AgentPubKey,
        entry_hash: dht_cascade::entry::hash_entry(entry),
    })
}

fn thh_of(h: &Header) -> TimedHeaderHash {
    TimedHeaderHash {
        timestamp: h.timestamp(),
        header_hash: dht_cascade::header::hash_header(h),
    }
}

fn signed(h: &Header) -> SignedHeaderHashed {
    SignedHeaderHashed::from_content_sync(SignedHeader {
        header: h.clone(),
        signature: vec![0xAB],
    })
}

/// A live entry with one header held locally: the cascade returns that
/// header's element without needing any network data.
#[test]
fn live_entry_returns_local_element() {
    let (ve, vm, mut ce, mut cm) = test_dbs_and_mocks();
    let entry = app_entry(b"hello");
    let header = create_header(1, 5, &entry);
    let entry_hash = dht_cascade::entry::hash_entry(&entry);
    let header_hash = dht_cascade::header::hash_header(&header);
    ce.put(
        signed(&header),
        Some(dht_cascade::element::EntryHashed::from_content(entry.clone())),
    );
    cm.register_header(entry_hash.clone(), thh_of(&header));
    cm.register_store_element(header_hash.clone());

    let mut cascade = Cascade::new(ve, vm, ce, cm, ScriptedNetwork::new());
    let el = cascade
        .dht_get(entry_hash, GetOptions::new())
        .unwrap()
        .expect("a live, locally held entry must be returned");
    assert!(el.header_address().same(&header_hash));
    // One refresh round-trip, no header-level follow-up.
    assert_eq!(cascade.network().hits, 1);
}

/// A dead entry is never surfaced, even though its element is stored.
#[test]
fn dead_entry_yields_none() {
    let (ve, vm, mut ce, mut cm) = test_dbs_and_mocks();
    let entry = app_entry(b"gone");
    let header = create_header(1, 5, &entry);
    let entry_hash = dht_cascade::entry::hash_entry(&entry);
    let header_hash = dht_cascade::header::hash_header(&header);
    ce.put(
        signed(&header),
        Some(dht_cascade::element::EntryHashed::from_content(entry.clone())),
    );
    cm.register_header(entry_hash.clone(), thh_of(&header));
    cm.register_store_element(header_hash.clone());
    // A tombstone against the only header: the derived status is dead.
    cm.register_delete_on_header(
        header_hash.clone(),
        TimedHeaderHash {
            timestamp: Timestamp { secs: 9, nanos: 0 },
            header_hash: HoloHash::from_raw_36(HashRole::Header, raw(77)),
        },
    );

    let mut cascade = Cascade::new(ve, vm, ce, cm, ScriptedNetwork::new());
    let r = cascade.dht_get(entry_hash, GetOptions::new()).unwrap();
    assert!(r.is_none());
}

/// Among several undeleted headers, the element of the minimal
/// (timestamp, header hash) one is returned.
#[test]
fn live_entry_returns_oldest_undeleted_header() {
    let (ve, vm, mut ce, mut cm) = test_dbs_and_mocks();
    let entry = app_entry(b"versioned");
    let older = create_header(1, 5, &entry);
    let newer = create_header(2, 8, &entry);
    let entry_hash = dht_cascade::entry::hash_entry(&entry);
    let older_hash = dht_cascade::header::hash_header(&older);
    let newer_hash = dht_cascade::header::hash_header(&newer);
    for h in [&older, &newer] {
        ce.put(
            signed(h),
            Some(dht_cascade::element::EntryHashed::from_content(entry.clone())),
        );
    }
    // Registration order deliberately newest-first.
    cm.register_header(entry_hash.clone(), thh_of(&newer));
    cm.register_header(entry_hash.clone(), thh_of(&older));
    cm.register_store_element(older_hash.clone());
    cm.register_store_element(newer_hash.clone());

    let mut cascade = Cascade::new(ve, vm, ce, cm, ScriptedNetwork::new());
    let el = cascade
        .dht_get_entry(entry_hash.clone(), GetOptions::new())
        .unwrap()
        .unwrap();
    assert!(el.header_address().same(&older_hash));

    // Tombstoning the older header moves the answer to the newer one.
    let (ve2, vm2, ce2, mut cm2, _) = cascade.into_parts();
    cm2.register_delete_on_header(
        older_hash.clone(),
        TimedHeaderHash {
            timestamp: Timestamp { secs: 9, nanos: 0 },
            header_hash: HoloHash::from_raw_36(HashRole::Header, raw(88)),
        },
    );
    let mut cascade2 = Cascade::new(ve2, vm2, ce2, cm2, ScriptedNetwork::new());
    let el2 = cascade2
        .dht_get_entry(entry_hash, GetOptions::new())
        .unwrap()
        .unwrap();
    assert!(el2.header_address().same(&newer_hash));
}

/// An entry absent locally, with the network returning one live header
/// and its entry bytes, is merged into the cache and returned assembled.
#[test]
fn absent_entry_is_fetched_merged_and_returned() {
    let (ve, vm, ce, cm) = test_dbs_and_mocks();
    let entry = app_entry(b"remote");
    let header = create_header(1, 5, &entry);
    let entry_hash = dht_cascade::entry::hash_entry(&entry);
    let header_hash = dht_cascade::header::hash_header(&header);
    let mut net = ScriptedNetwork::new();
    net.element_script.push((
        entry_hash.clone(),
        GetElementResponse::GetEntryFull(Some(RawGetEntryResponse {
            live_headers: vec![SignedHeader { header: header.clone(), signature: vec![0xCD] }],
            deletes: vec![],
            updates: vec![],
            entry: entry.clone(),
        })),
    ));

    let mut cascade = Cascade::new(ve, vm, ce, cm, net);
    let el = cascade
        .dht_get(entry_hash.clone(), GetOptions::new())
        .unwrap()
        .expect("the merged network answer must be returned");
    assert!(el.header_address().same(&header_hash));
    match el.entry() {
        Some(Entry::App(b)) => assert_eq!(b.bytes().as_slice(), b"remote"),
        _ => panic!("the entry bytes must come back with the element"),
    }
    // The data now sits in the cache: a second cascade over the same
    // stores needs nothing from the network.
    let (_, _, ce2, cm2, _) = cascade.into_parts();
    let mut failing = ScriptedNetwork::new();
    failing.fail = true;
    let (ve3, vm3, _, _) = test_dbs_and_mocks();
    let mut cascade2 = Cascade::new(ve3, vm3, ce2, cm2, failing);
    let el2 = cascade2
        .retrieve(entry_hash, GetOptions::new())
        .unwrap()
        .expect("the merged element must now resolve locally");
    assert!(el2.header_address().same(&header_hash));
    assert_eq!(cascade2.network().hits, 0);
}

/// Merging the same network response twice leaves the same state and
/// answers as merging it once.
#[test]
fn repeated_merge_is_idempotent() {
    let entry = app_entry(b"idem");
    let header = create_header(1, 5, &entry);
    let entry_hash = dht_cascade::entry::hash_entry(&entry);
    let header_hash = dht_cascade::header::hash_header(&header);
    let response = GetElementResponse::GetEntryFull(Some(RawGetEntryResponse {
        live_headers: vec![SignedHeader { header: header.clone(), signature: vec![0xCD] }],
        deletes: vec![],
        updates: vec![],
        entry: entry.clone(),
    }));
    let mut net = ScriptedNetwork::new();
    net.element_script.push((entry_hash.clone(), response));

    let (ve, vm, ce, cm) = test_dbs_and_mocks();
    let mut cascade = Cascade::new(ve, vm, ce, cm, net);
    let first = cascade
        .dht_get_entry(entry_hash.clone(), GetOptions::new())
        .unwrap()
        .unwrap();
    // The second read merges the identical response again.
    let second = cascade
        .dht_get_entry(entry_hash.clone(), GetOptions::new())
        .unwrap()
        .unwrap();
    assert!(first.header_address().same(second.header_address()));
    // And the cache still holds exactly one registration for the header.
    let (_, _, _, cm_after, _) = cascade.into_parts();
    assert_eq!(cm_after.get_headers(&entry_hash).len(), 1);
    assert!(cm_after.get_deletes_on_header(&header_hash).is_empty());
}

/// Data already held locally is served by `retrieve` without any network
/// request: a network that would fail every request is never asked.
#[test]
fn retrieve_serves_local_data_without_network() {
    let (mut ve, mut vm, ce, cm) = test_dbs_and_mocks();
    let entry = app_entry(b"vaulted");
    let header = create_header(1, 5, &entry);
    let entry_hash = dht_cascade::entry::hash_entry(&entry);
    ve.put(
        signed(&header),
        Some(dht_cascade::element::EntryHashed::from_content(entry.clone())),
    );
    vm.register_header(entry_hash.clone(), thh_of(&header));
    vm.register_store_element(dht_cascade::header::hash_header(&header));
    vm.register_store_entry(entry_hash.clone(), dht_cascade::header::hash_header(&header));
    let mut failing = ScriptedNetwork::new();
    failing.fail = true;

    let mut cascade = Cascade::new(ve, vm, ce, cm, failing);
    let el = cascade.retrieve(entry_hash.clone(), GetOptions::new()).unwrap();
    assert!(el.is_some());
    assert_eq!(cascade.network().hits, 0);
    // The entry-level retrieve also hits only local stores.
    let e = cascade.retrieve_entry(entry_hash, GetOptions::new()).unwrap();
    assert!(e.is_some());
    assert_eq!(cascade.network().hits, 0);
}

/// A network failure is propagated as a transport error, never treated
/// as "not found".
#[test]
fn transport_failure_propagates() {
    let (ve, vm, ce, cm) = test_dbs_and_mocks();
    let mut failing = ScriptedNetwork::new();
    failing.fail = true;
    let mut cascade = Cascade::new(ve, vm, ce, cm, failing);
    let miss = HoloHash::from_raw_36(HashRole::Entry, raw(1));
    match cascade.dht_get(miss, GetOptions::new()) {
        Err(CascadeError::Transport(_)) => {},
        _ => panic!("a transport failure must surface as a transport error"),
    }
}

/// A header with a locally known delete yields nothing before the
/// network is even asked; a stale remote answer cannot resurrect it.
#[test]
fn deleted_header_is_never_resurrected() {
    let (ve, vm, mut ce, mut cm) = test_dbs_and_mocks();
    let entry = app_entry(b"tombstoned");
    let header = create_header(1, 5, &entry);
    let header_hash = dht_cascade::header::hash_header(&header);
    ce.put(
        signed(&header),
        Some(dht_cascade::element::EntryHashed::from_content(entry.clone())),
    );
    cm.register_store_element(header_hash.clone());
    cm.register_delete_on_header(
        header_hash.clone(),
        TimedHeaderHash {
            timestamp: Timestamp { secs: 6, nanos: 0 },
            header_hash: HoloHash::from_raw_36(HashRole::Header, raw(55)),
        },
    );
    // The network would happily hand the header back.
    let mut net = ScriptedNetwork::new();
    net.element_script.push((
        header_hash.clone(),
        GetElementResponse::GetHeader(Some(WireElement {
            signed_header: SignedHeader { header: header.clone(), signature: vec![0xAB] },
            entry: Some(entry.clone()),
            deleted: None,
        })),
    ));
    let mut cascade = Cascade::new(ve, vm, ce, cm, net);
    let r = cascade.dht_get_header(header_hash, GetOptions::new()).unwrap();
    assert!(r.is_none());
    assert_eq!(cascade.network().hits, 0);
}

/// A delete that arrives with the remote answer kills the header after
/// the merge.
#[test]
fn remote_delete_is_merged_before_answering() {
    let (ve, vm, ce, cm) = test_dbs_and_mocks();
    let entry = app_entry(b"short-lived");
    let header = create_header(1, 5, &entry);
    let entry_hash = dht_cascade::entry::hash_entry(&entry);
    let header_hash = dht_cascade::header::hash_header(&header);
    let tombstone = Header::Delete(Delete {
        author: agent(2),
        timestamp: Timestamp { secs: 6, nanos: 0 },
        deletes_address: header_hash.clone(),
        deletes_entry_address: entry_hash.clone(),
    });
    let mut net = ScriptedNetwork::new();
    net.element_script.push((
        header_hash.clone(),
        GetElementResponse::GetHeader(Some(WireElement {
            signed_header: SignedHeader { header: header.clone(), signature: vec![0xAB] },
            entry: Some(entry.clone()),
            deleted: Some(SignedHeader { header: tombstone, signature: vec![0xEF] }),
        })),
    ));
    let mut cascade = Cascade::new(ve, vm, ce, cm, net);
    let r = cascade.dht_get_header(header_hash, GetOptions::new()).unwrap();
    assert!(r.is_none());
    assert_eq!(cascade.network().hits, 1);
}

/// `retrieve_header` finds a locally held signed header without network
/// traffic.
#[test]
fn retrieve_header_local_first() {
    let (ve, vm, mut ce, mut cm) = test_dbs_and_mocks();
    let entry = app_entry(b"h");
    let header = create_header(1, 5, &entry);
    let header_hash = dht_cascade::header::hash_header(&header);
    ce.put(signed(&header), None);
    cm.register_store_element(header_hash.clone());
    let mut failing = ScriptedNetwork::new();
    failing.fail = true;
    let mut cascade = Cascade::new(ve, vm, ce, cm, failing);
    let shh = cascade
        .retrieve_header(header_hash.clone(), GetOptions::new())
        .unwrap()
        .unwrap();
    assert!(shh.header_address().same(&header_hash));
    assert_eq!(cascade.network().hits, 0);
}

/// The details view reports every delete and the derived status, and a
/// registered delete that resolves to a header of the wrong kind is a
/// conversion error.
#[test]
fn entry_details_and_conversion_error() {
    let (ve, vm, mut ce, mut cm) = test_dbs_and_mocks();
    let entry = app_entry(b"detailed");
    let header = create_header(1, 5, &entry);
    let entry_hash = dht_cascade::entry::hash_entry(&entry);
    let header_hash = dht_cascade::header::hash_header(&header);
    ce.put(
        signed(&header),
        Some(dht_cascade::element::EntryHashed::from_content(entry.clone())),
    );
    cm.register_header(entry_hash.clone(), thh_of(&header));
    cm.register_store_element(header_hash.clone());
    cm.register_store_entry(entry_hash.clone(), header_hash.clone());
    let mut cascade = Cascade::new(ve, vm, ce, cm, ScriptedNetwork::new());
    let details = cascade
        .get_entry_details(entry_hash.clone(), GetOptions::new())
        .unwrap()
        .unwrap();
    assert_eq!(details.headers.len(), 1);
    assert!(details.deletes.is_empty());
    assert!(details.updates.is_empty());
    assert_eq!(
        details.entry_dht_status,
        dht_cascade::metadata::EntryDhtStatus::Live
    );

    // Register the create header itself as a "delete": rendering must
    // surface a conversion error rather than silently dropping it.
    let (ve2, vm2, ce2, mut cm2, _) = cascade.into_parts();
    cm2.register_delete_on_entry(entry_hash.clone(), thh_of(&header));
    let mut cascade2 = Cascade::new(ve2, vm2, ce2, cm2, ScriptedNetwork::new());
    match cascade2.get_entry_details(entry_hash, GetOptions::new()) {
        Err(CascadeError::Conversion) => {},
        _ => panic!("a mistyped delete record must surface a conversion error"),
    }
}

/// Raw metadata answers merge into the cache under the queried basis.
#[test]
fn fetch_meta_merges_raw_metadata() {
    let (ve, vm, ce, cm) = test_dbs_and_mocks();
    let entry = app_entry(b"meta");
    let header = create_header(1, 5, &entry);
    let entry_hash = dht_cascade::entry::hash_entry(&entry);
    let mut net = ScriptedNetwork::new();
    net.meta_script.push((
        entry_hash.clone(),
        MetadataSet { headers: vec![thh_of(&header)], deletes: vec![], updates: vec![] },
    ));
    let mut cascade = Cascade::new(ve, vm, ce, cm, net);
    let sets = cascade
        .fetch_meta(&entry_hash, &GetMetaOptions { timeout_ms: None })
        .unwrap();
    assert_eq!(sets.len(), 1);
    let (_, _, _, cm_after, _) = cascade.into_parts();
    // The returned header registration landed in the cache.
    assert_eq!(cm_after.get_headers(&entry_hash).len(), 1);
    assert_eq!(
        cm_after.get_dht_status(&entry_hash),
        dht_cascade::metadata::EntryDhtStatus::Live
    );
}

/// With several headers held for one entry, `retrieve` at the entry
/// address serves the newest one: maximal (timestamp, header hash) among
/// the held registrations.
#[test]
fn retrieve_entry_address_serves_newest_held_header() {
    let (ve, vm, mut ce, mut cm) = test_dbs_and_mocks();
    let entry = app_entry(b"editions");
    let older = create_header(1, 5, &entry);
    let newer = create_header(2, 8, &entry);
    let entry_hash = dht_cascade::entry::hash_entry(&entry);
    let newer_hash = dht_cascade::header::hash_header(&newer);
    for h in [&older, &newer] {
        ce.put(
            signed(h),
            Some(dht_cascade::element::EntryHashed::from_content(entry.clone())),
        );
        cm.register_store_element(dht_cascade::header::hash_header(h));
    }
    // Registration order deliberately oldest-first: the walk must still
    // pick the newest held header.
    cm.register_header(entry_hash.clone(), thh_of(&older));
    cm.register_header(entry_hash.clone(), thh_of(&newer));
    let mut failing = ScriptedNetwork::new();
    failing.fail = true;
    let mut cascade = Cascade::new(ve, vm, ce, cm, failing);
    let el = cascade
        .retrieve(entry_hash, GetOptions::new())
        .unwrap()
        .expect("a held header must resolve locally");
    assert!(el.header_address().same(&newer_hash));
    assert_eq!(cascade.network().hits, 0);
}
