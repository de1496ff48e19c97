//! Scenario tests of the link reads: live links across vault and cache,
//! removes killing creates wherever registered, and the details listing.

use dht_cascade::cascade::{test_dbs_and_mocks, Cascade};
use dht_cascade::element::{SignedHeader, SignedHeaderHashed};
use dht_cascade::hash::{HashRole, HoloHash, HASH_DIGEST_LEN};
use dht_cascade::header::{CreateLink, DeleteLink, Header, LinkTag};
use dht_cascade::metadata::{LinkMetaKey, LinkMetaVal};
use dht_cascade::net::{GetLinksOptions, GetLinksResponse, ScriptedNetwork};
use dht_cascade::time::{TimedHeaderHash, Timestamp};

fn raw(seed: u8) -> Vec<u8> {
    (0..HASH_DIGEST_LEN).map(|i| seed.wrapping_add(i as u8)).collect()
}

fn entry_hash(seed: u8) -> HoloHash {
    HoloHash::from_raw_36(HashRole::Entry, raw(seed))
}

fn agent(seed: u8) -> HoloHash {
    HoloHash::from_raw_36(HashRole::Agent, raw(seed))
}

fn link_add(base: &HoloHash, target: &HoloHash, secs: i64, tag: &[u8]) -> CreateLink {
    CreateLink {
        author: agent(9),
        timestamp: Timestamp { secs, nanos: 0 },
        base_address: base.clone(),
        target_address: target.clone(),
        zome_id: 0,
        tag: LinkTag(tag.to_vec()),
    }
}

fn meta_of(cl: &CreateLink) -> LinkMetaVal {
    let header = Header::CreateLink(cl.clone());
    LinkMetaVal {
        base: cl.base_address.clone(),
        zome_id: cl.zome_id,
        tag: cl.tag.clone(),
        link_add_hash: dht_cascade::header::hash_header(&header),
        timestamp: cl.timestamp,
        target: cl.target_address.clone(),
    }
}

/// One create in the vault with zero removes anywhere: exactly that one
/// link comes back, with an empty cache.
#[test]
fn one_vault_create_yields_one_link() {
    let (ve, mut vm, ce, cm) = test_dbs_and_mocks();
    let base = entry_hash(1);
    let target = entry_hash(2);
    let cl = link_add(&base, &target, 5, b"tag");
    vm.register_link_add(meta_of(&cl));

    let mut cascade = Cascade::new(ve, vm, ce, cm, ScriptedNetwork::new());
    let key = LinkMetaKey::BaseZomeTag(base, 0, LinkTag(b"tag".to_vec()));
    let links = cascade.dht_get_links(&key, GetLinksOptions { timeout_ms: None }).unwrap();
    assert_eq!(links.len(), 1);
    assert!(links[0].target.same(&target));
    assert_eq!(links[0].tag.0.as_slice(), b"tag");
}

/// A create in the vault whose matching remove sits in the cache yields
/// no live link: removes count across both stores, regardless of where
/// or in what order anything was registered.
#[test]
fn vault_create_with_cache_remove_yields_empty() {
    let (ve, mut vm, ce, mut cm) = test_dbs_and_mocks();
    let base = entry_hash(1);
    let target = entry_hash(2);
    let cl = link_add(&base, &target, 5, b"tag");
    let meta = meta_of(&cl);
    let add_hash = meta.link_add_hash.clone();
    vm.register_link_add(meta);
    cm.register_link_remove(
        add_hash,
        TimedHeaderHash {
            timestamp: Timestamp { secs: 6, nanos: 0 },
            header_hash: HoloHash::from_raw_36(HashRole::Header, raw(40)),
        },
    );

    let mut cascade = Cascade::new(ve, vm, ce, cm, ScriptedNetwork::new());
    let key = LinkMetaKey::BaseZomeTag(base, 0, LinkTag(b"tag".to_vec()));
    let links = cascade.dht_get_links(&key, GetLinksOptions { timeout_ms: None }).unwrap();
    assert!(links.is_empty());
}

/// Links sourced from the cache and the vault combine, deduplicated by
/// the link-add address, and the key narrows by base, zome and tag.
#[test]
fn cache_and_vault_links_combine_under_key() {
    let (ve, mut vm, ce, mut cm) = test_dbs_and_mocks();
    let base = entry_hash(1);
    let cl1 = link_add(&base, &entry_hash(2), 5, b"t");
    let cl2 = link_add(&base, &entry_hash(3), 6, b"t");
    let other_tag = link_add(&base, &entry_hash(4), 7, b"other");
    cm.register_link_add(meta_of(&cl1));
    // The same record in both stores counts once.
    vm.register_link_add(meta_of(&cl1));
    vm.register_link_add(meta_of(&cl2));
    vm.register_link_add(meta_of(&other_tag));

    let mut cascade = Cascade::new(ve, vm, ce, cm, ScriptedNetwork::new());
    let key = LinkMetaKey::BaseZomeTag(base.clone(), 0, LinkTag(b"t".to_vec()));
    let links = cascade.dht_get_links(&key, GetLinksOptions { timeout_ms: None }).unwrap();
    assert_eq!(links.len(), 2);
    // The broader base-level key sees the other tag too.
    let base_key = LinkMetaKey::Base(base);
    let all = cascade.dht_get_links(&base_key, GetLinksOptions { timeout_ms: None }).unwrap();
    assert_eq!(all.len(), 3);
}

/// A link answer from the network merges into the cache: its adds become
/// live links, and its removes kill them.
#[test]
fn network_link_answer_merges_into_cache() {
    let base = entry_hash(1);
    let target = entry_hash(2);
    let cl = link_add(&base, &target, 5, b"tag");
    let add_header = Header::CreateLink(cl.clone());
    let add_hash = dht_cascade::header::hash_header(&add_header);
    let key = LinkMetaKey::BaseZomeTag(base.clone(), 0, LinkTag(b"tag".to_vec()));

    let mut net = ScriptedNetwork::new();
    net.link_script.push((
        key.clone_key(),
        GetLinksResponse { link_adds: vec![(cl.clone(), vec![0xAA])], link_removes: vec![] },
    ));
    let (ve, vm, ce, cm) = test_dbs_and_mocks();
    let mut cascade = Cascade::new(ve, vm, ce, cm, net);
    let links = cascade.dht_get_links(&key, GetLinksOptions { timeout_ms: None }).unwrap();
    assert_eq!(links.len(), 1);

    // The same answer extended by the matching remove yields nothing.
    let dl = DeleteLink {
        author: agent(9),
        timestamp: Timestamp { secs: 6, nanos: 0 },
        base_address: base.clone(),
        link_add_address: add_hash,
    };
    let mut net2 = ScriptedNetwork::new();
    net2.link_script.push((
        key.clone_key(),
        GetLinksResponse {
            link_adds: vec![(cl, vec![0xAA])],
            link_removes: vec![(dl, vec![0xBB])],
        },
    ));
    let (ve2, vm2, ce2, cm2) = test_dbs_and_mocks();
    let mut cascade2 = Cascade::new(ve2, vm2, ce2, cm2, net2);
    let links2 = cascade2.dht_get_links(&key, GetLinksOptions { timeout_ms: None }).unwrap();
    assert!(links2.is_empty());
}

/// The details listing returns every create with its removes, resolving
/// both back to full header records, and silently skips records whose
/// headers are not locally resolvable.
#[test]
fn link_details_pairs_creates_with_removes() {
    let (ve, vm, mut ce, mut cm) = test_dbs_and_mocks();
    let base = entry_hash(1);
    let cl = link_add(&base, &entry_hash(2), 5, b"tag");
    let add_header = Header::CreateLink(cl.clone());
    let add_hash = dht_cascade::header::hash_header(&add_header);
    let dl = DeleteLink {
        author: agent(9),
        timestamp: Timestamp { secs: 6, nanos: 0 },
        base_address: base.clone(),
        link_add_address: add_hash.clone(),
    };
    let rm_header = Header::DeleteLink(dl.clone());
    let rm_hash = dht_cascade::header::hash_header(&rm_header);
    // Hold both headers and register both sides of the link metadata.
    ce.put(
        SignedHeaderHashed::from_content_sync(SignedHeader {
            header: add_header,
            signature: vec![1],
        }),
        None,
    );
    ce.put(
        SignedHeaderHashed::from_content_sync(SignedHeader {
            header: rm_header,
            signature: vec![2],
        }),
        None,
    );
    cm.register_link_add(meta_of(&cl));
    cm.register_link_remove(
        add_hash.clone(),
        TimedHeaderHash { timestamp: dl.timestamp, header_hash: rm_hash.clone() },
    );
    cm.register_store_element(add_hash.clone());
    cm.register_store_element(rm_hash);

    let mut cascade = Cascade::new(ve, vm, ce, cm, ScriptedNetwork::new());
    let key = LinkMetaKey::BaseZomeTag(base, 0, LinkTag(b"tag".to_vec()));
    let details = cascade.get_link_details(&key, GetLinksOptions { timeout_ms: None }).unwrap();
    assert_eq!(details.len(), 1);
    assert!(details[0].0.target_address.same(&cl.target_address));
    assert_eq!(details[0].1.len(), 1);
    assert!(details[0].1[0].link_add_address.same(&add_hash));
    // And the live view is empty, since the remove is registered.
    let live = cascade
        .dht_get_links(
            &LinkMetaKey::BaseZomeTag(entry_hash(1), 0, LinkTag(b"tag".to_vec())),
            GetLinksOptions { timeout_ms: None },
        )
        .unwrap();
    assert!(live.is_empty());
}

/// A helper so tests can reuse a key for scripting and querying.
trait CloneKey {
    fn clone_key(&self) -> LinkMetaKey;
}

impl CloneKey for LinkMetaKey {
    fn clone_key(&self) -> LinkMetaKey {
        match self {
            LinkMetaKey::Base(b) => LinkMetaKey::Base(b.clone()),
            LinkMetaKey::BaseZome(b, z) => LinkMetaKey::BaseZome(b.clone(), *z),
            LinkMetaKey::BaseZomeTag(b, z, t) => {
                LinkMetaKey::BaseZomeTag(b.clone(), *z, LinkTag(t.0.clone()))
            },
            LinkMetaKey::Full(b, z, t, h) => {
                LinkMetaKey::Full(b.clone(), *z, LinkTag(t.0.clone()), h.clone())
            },
        }
    }
}

/// The details listing comes back ascending by the creates' (timestamp,
/// header hash), and each remove run ascending too, whatever order the
/// records were registered in.
#[test]
fn link_details_are_ordered_by_time() {
    let (ve, vm, mut ce, mut cm) = test_dbs_and_mocks();
    let base = entry_hash(1);
    let early = link_add(&base, &entry_hash(2), 5, b"tag");
    let late = link_add(&base, &entry_hash(3), 9, b"tag");
    for cl in [&late, &early] {
        // Registration order deliberately newest-first.
        let header = Header::CreateLink(cl.clone());
        let hash = dht_cascade::header::hash_header(&header);
        ce.put(
            SignedHeaderHashed::from_content_sync(SignedHeader {
                header,
                signature: vec![3],
            }),
            None,
        );
        cm.register_link_add(meta_of(cl));
        cm.register_store_element(hash);
    }
    // Two removes against the early create, registered newest-first.
    let early_hash = dht_cascade::header::hash_header(&Header::CreateLink(early.clone()));
    let mut remove_hashes = Vec::new();
    for secs in [8i64, 6i64] {
        let dl = DeleteLink {
            author: agent(9),
            timestamp: Timestamp { secs, nanos: 0 },
            base_address: base.clone(),
            link_add_address: early_hash.clone(),
        };
        let header = Header::DeleteLink(dl);
        let hash = dht_cascade::header::hash_header(&header);
        ce.put(
            SignedHeaderHashed::from_content_sync(SignedHeader {
                header: header.clone(),
                signature: vec![4],
            }),
            None,
        );
        cm.register_link_remove(
            early_hash.clone(),
            TimedHeaderHash { timestamp: header.timestamp(), header_hash: hash.clone() },
        );
        cm.register_store_element(hash.clone());
        remove_hashes.push(hash);
    }
    let mut cascade = Cascade::new(ve, vm, ce, cm, ScriptedNetwork::new());
    let key = LinkMetaKey::BaseZomeTag(base, 0, LinkTag(b"tag".to_vec()));
    let details = cascade.get_link_details(&key, GetLinksOptions { timeout_ms: None }).unwrap();
    assert_eq!(details.len(), 2);
    // Creates ascending by timestamp.
    assert_eq!(details[0].0.timestamp.secs, 5);
    assert_eq!(details[1].0.timestamp.secs, 9);
    // The early create's removes ascending by timestamp.
    assert_eq!(details[0].1.len(), 2);
    assert_eq!(details[0].1[0].timestamp.secs, 6);
    assert_eq!(details[0].1[1].timestamp.secs, 8);
    assert!(details[1].1.is_empty());
}
