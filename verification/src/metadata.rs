//! The metadata store: an append-only index from addresses to the CRUD
//! records that reference them.
//!
//! Two instances exist per cascade: the authoritative vault and the
//! network-fed cache. Registration is append-only and idempotent — a record
//! registered twice is stored once — and every read is a pure function of
//! the store's current content, including the derived [`EntryDhtStatus`].

use crate::hash::{HashV, HoloHash};
use crate::header::LinkTag;
use crate::time::{ThhV, TimedHeaderHash, Timestamp};
use vstd::prelude::*;

verus! {

/// The derived liveness classification of an entry.
///
/// This store derives `Live` and `Dead` from its delete records: an entry
/// is live while at least one of its new-entry headers has no delete
/// registered against it. The remaining variants classify non-live entries
/// by validation outcomes that are produced outside this library; consumers
/// treat every non-live variant alike.
#[derive(Clone, Copy, PartialEq, Eq, Structural, Debug)]
pub enum EntryDhtStatus {
    /// At least one new-entry header for the entry has no delete.
    Live,
    /// Every new-entry header for the entry has been deleted.
    Dead,
    /// Validation of the entry is still pending.
    Pending,
    /// The entry was rejected by validation.
    Rejected,
    /// The entry was abandoned by its author.
    Abandoned,
    /// Conflicting validation outcomes exist.
    Conflict,
    /// The entry was withdrawn by its author.
    Withdrawn,
    /// The entry was purged.
    Purged,
}

/// A raw metadata value registered against an address.
pub enum SysMetaVal {
    /// A new-entry header referencing the address.
    NewEntry(TimedHeaderHash),
    /// An update header referencing the address.
    Update(TimedHeaderHash),
    /// A delete header referencing the address.
    Delete(TimedHeaderHash),
}

/// Mathematical value of a [`SysMetaVal`].
#[verifier::ext_equal]
pub ghost enum SysMetaValV {
    NewEntry(ThhV),
    Update(ThhV),
    Delete(ThhV),
}

impl View for SysMetaVal {
    type V = SysMetaValV;

    open spec fn view(&self) -> SysMetaValV {
        match self {
            SysMetaVal::NewEntry(t) => SysMetaValV::NewEntry(t@),
            SysMetaVal::Update(t) => SysMetaValV::Update(t@),
            SysMetaVal::Delete(t) => SysMetaValV::Delete(t@),
        }
    }
}

/// Mathematical value of a [`LinkMetaVal`].
#[verifier::ext_equal]
pub ghost struct LinkMetaV {
    pub base: HashV,
    pub zome_id: u8,
    pub tag: Seq<u8>,
    pub link_add_hash: HashV,
    pub timestamp: Timestamp,
    pub target: HashV,
}

/// The registered record of one link-add header.
pub struct LinkMetaVal {
    /// The entry the link hangs off.
    pub base: HoloHash,
    /// The zome the link belongs to.
    pub zome_id: u8,
    /// The application-chosen tag.
    pub tag: LinkTag,
    /// The address of the link-add header.
    pub link_add_hash: HoloHash,
    /// When the link-add header was authored.
    pub timestamp: Timestamp,
    /// The entry the link points to.
    pub target: HoloHash,
}

impl View for LinkMetaVal {
    type V = LinkMetaV;

    open spec fn view(&self) -> LinkMetaV {
        LinkMetaV {
            base: self.base@,
            zome_id: self.zome_id,
            tag: self.tag@,
            link_add_hash: self.link_add_hash@,
            timestamp: self.timestamp,
            target: self.target@,
        }
    }
}

impl Clone for LinkMetaVal {
    fn clone(&self) -> (r: Self)
        ensures
            r@ == self@,
    {
        let r = LinkMetaVal {
            base: self.base.clone(),
            zome_id: self.zome_id,
            tag: self.tag.clone(),
            link_add_hash: self.link_add_hash.clone(),
            timestamp: self.timestamp,
            target: self.target.clone(),
        };
        proof {
            assert(r@ =~= self@);
        }
        r
    }
}

/// A link as handed back to callers.
pub struct Link {
    /// The entry the link points to.
    pub target: HoloHash,
    /// When the link was added.
    pub timestamp: Timestamp,
    /// The application-chosen tag.
    pub tag: LinkTag,
}

/// Mathematical value of a [`Link`].
#[verifier::ext_equal]
pub ghost struct LinkV {
    pub target: HashV,
    pub timestamp: Timestamp,
    pub tag: Seq<u8>,
}

impl View for Link {
    type V = LinkV;

    open spec fn view(&self) -> LinkV {
        LinkV { target: self.target@, timestamp: self.timestamp, tag: self.tag@ }
    }
}

impl Clone for Link {
    fn clone(&self) -> (r: Self)
        ensures
            r@ == self@,
    {
        let r = Link {
            target: self.target.clone(),
            timestamp: self.timestamp,
            tag: self.tag.clone(),
        };
        proof {
            assert(r@ =~= self@);
        }
        r
    }
}

/// The link a registered link-add record stands for.
pub open spec fn link_of_meta(l: LinkMetaV) -> LinkV {
    LinkV { target: l.target, timestamp: l.timestamp, tag: l.tag }
}

impl LinkMetaVal {
    /// Renders the registered record as a caller-facing link.
    pub fn into_link(self) -> (r: Link)
        ensures
            r@ == link_of_meta(self@),
    {
        let LinkMetaVal { base: _, zome_id: _, tag, link_add_hash: _, timestamp, target } = self;
        Link { target, timestamp, tag }
    }
}

/// A key selecting registered links: by base entry, optionally narrowed by
/// zome, tag, and link-add address.
pub enum LinkMetaKey {
    /// All links on a base entry.
    Base(HoloHash),
    /// All links on a base entry within one zome.
    BaseZome(HoloHash, u8),
    /// All links on a base entry within one zome carrying one tag.
    BaseZomeTag(HoloHash, u8, LinkTag),
    /// One specific link-add record.
    Full(HoloHash, u8, LinkTag, HoloHash),
}

/// Mathematical value of a [`LinkMetaKey`].
#[verifier::ext_equal]
pub ghost enum LinkMetaKeyV {
    Base(HashV),
    BaseZome(HashV, u8),
    BaseZomeTag(HashV, u8, Seq<u8>),
    Full(HashV, u8, Seq<u8>, HashV),
}

impl View for LinkMetaKey {
    type V = LinkMetaKeyV;

    open spec fn view(&self) -> LinkMetaKeyV {
        match self {
            LinkMetaKey::Base(b) => LinkMetaKeyV::Base(b@),
            LinkMetaKey::BaseZome(b, z) => LinkMetaKeyV::BaseZome(b@, *z),
            LinkMetaKey::BaseZomeTag(b, z, t) => LinkMetaKeyV::BaseZomeTag(b@, *z, t@),
            LinkMetaKey::Full(b, z, t, h) => LinkMetaKeyV::Full(b@, *z, t@, h@),
        }
    }
}

/// Whether a registered link-add record falls under a key.
pub open spec fn key_matches(k: LinkMetaKeyV, l: LinkMetaV) -> bool {
    match k {
        LinkMetaKeyV::Base(b) => l.base == b,
        LinkMetaKeyV::BaseZome(b, z) => l.base == b && l.zome_id == z,
        LinkMetaKeyV::BaseZomeTag(b, z, t) => l.base == b && l.zome_id == z && l.tag == t,
        LinkMetaKeyV::Full(b, z, t, h) => l.base == b && l.zome_id == z && l.tag == t
            && l.link_add_hash == h,
    }
}

impl LinkMetaKey {
    /// Whether a registered link-add record falls under this key.
    pub fn matches(&self, l: &LinkMetaVal) -> (r: bool)
        ensures
            r == key_matches(self@, l@),
    {
        match self {
            LinkMetaKey::Base(b) => b.same(&l.base),
            LinkMetaKey::BaseZome(b, z) => b.same(&l.base) && *z == l.zome_id,
            LinkMetaKey::BaseZomeTag(b, z, t) => b.same(&l.base) && *z == l.zome_id
                && crate::hash::bytes_equal(&t.0, &l.tag.0),
            LinkMetaKey::Full(b, z, t, h) => b.same(&l.base) && *z == l.zome_id
                && crate::hash::bytes_equal(&t.0, &l.tag.0) && h.same(&l.link_add_hash),
        }
    }
}

/// Mathematical value of a [`MetadataBuf`].
#[verifier::ext_equal]
pub ghost struct MetaV {
    /// New-entry headers, keyed by the entry they commit.
    pub headers_on_entry: Seq<(HashV, ThhV)>,
    /// Delete headers, keyed by the entry they tombstone.
    pub deletes_on_entry: Seq<(HashV, ThhV)>,
    /// Delete headers, keyed by the new-entry header they tombstone.
    pub deletes_on_header: Seq<(HashV, ThhV)>,
    /// Update headers, keyed by the entry they replace.
    pub updates_on_entry: Seq<(HashV, ThhV)>,
    /// Registered link-add records.
    pub link_adds: Seq<LinkMetaV>,
    /// Link-remove headers, keyed by the link-add they remove.
    pub link_removes: Seq<(HashV, ThhV)>,
    /// Headers whose element has been validated and stored.
    pub store_elements: Seq<HashV>,
    /// Validated (entry, header) pairings.
    pub store_entries: Seq<(HashV, HashV)>,
}

/// Whether a keyed-record sequence holds the given pair.
pub open spec fn has_pair(s: Seq<(HashV, ThhV)>, b: HashV, t: ThhV) -> bool {
    exists|i: int| 0 <= i < s.len() && s[i] == (b, t)
}

/// Appends a keyed record unless it is already present.
pub open spec fn reg_pair(s: Seq<(HashV, ThhV)>, b: HashV, t: ThhV) -> Seq<(HashV, ThhV)> {
    if has_pair(s, b, t) {
        s
    } else {
        s.push((b, t))
    }
}

/// The records registered under a basis, in registration order, among the
/// first `j` records.
pub open spec fn select_thh(s: Seq<(HashV, ThhV)>, b: HashV, j: int) -> Seq<ThhV>
    decreases j,
{
    if j <= 0 {
        Seq::empty()
    } else {
        let p = select_thh(s, b, j - 1);
        if s[j - 1].0 == b {
            p.push(s[j - 1].1)
        } else {
            p
        }
    }
}

/// Whether any record among the first `j` is registered under the basis.
pub open spec fn has_basis(s: Seq<(HashV, ThhV)>, b: HashV) -> bool {
    exists|i: int| 0 <= i < s.len() && (#[trigger] s[i]).0 == b
}

/// Every selected record is registered under the basis, and conversely.
pub proof fn lemma_select_thh_basis(s: Seq<(HashV, ThhV)>, b: HashV, j: int)
    requires
        0 <= j <= s.len(),
    ensures
        (select_thh(s, b, j).len() > 0) == exists|i: int|
            0 <= i < j && (#[trigger] s[i]).0 == b,
        forall|t: ThhV| select_thh(s, b, j).contains(t) ==> has_pair(s, b, t),
        forall|i: int| 0 <= i < j && (#[trigger] s[i]).0 == b ==> select_thh(s, b, j).contains(
            s[i].1,
        ),
    decreases j,
{
    if j > 0 {
        lemma_select_thh_basis(s, b, j - 1);
        let p = select_thh(s, b, j - 1);
        let cur = select_thh(s, b, j);
        if s[j - 1].0 == b {
            assert(cur[p.len() as int] == s[j - 1].1);
            assert(forall|t: ThhV| cur.contains(t) ==> p.contains(t) || t == s[j - 1].1);
            assert(has_pair(s, b, s[j - 1].1)) by {
                assert(s[j - 1] == (b, s[j - 1].1));
            }
            assert(forall|i: int| 0 <= i < j - 1 && (#[trigger] s[i]).0 == b ==> cur.contains(
                s[i].1,
            )) by {
                assert forall|t: ThhV| p.contains(t) implies cur.contains(t) by {
                    let i2 = choose|i2: int| 0 <= i2 < p.len() && p[i2] == t;
                    assert(cur[i2] == t);
                }
            }
        } else {
            assert(cur == p);
        }
    }
}

/// Whether any delete is registered against the given header among the
/// store's delete-on-header records.
pub open spec fn has_delete_on_header(m: MetaV, h: HashV) -> bool {
    has_basis(m.deletes_on_header, h)
}

/// Whether some new-entry header for the entry has no delete registered
/// against it: the definition of a live entry.
pub open spec fn has_live_header(m: MetaV, e: HashV) -> bool {
    exists|i: int|
        0 <= i < m.headers_on_entry.len() && (#[trigger] m.headers_on_entry[i]).0 == e
            && !has_delete_on_header(m, m.headers_on_entry[i].1.header_hash)
}

/// A metadata store holding no records at all.
pub open spec fn meta_empty(m: MetaV) -> bool {
    &&& m.headers_on_entry.len() == 0
    &&& m.deletes_on_entry.len() == 0
    &&& m.deletes_on_header.len() == 0
    &&& m.updates_on_entry.len() == 0
    &&& m.link_adds.len() == 0
    &&& m.link_removes.len() == 0
    &&& m.store_elements.len() == 0
    &&& m.store_entries.len() == 0
}

/// The derived CRUD status of an entry: live while some new-entry header
/// has no delete, dead otherwise.
pub open spec fn derived_status(m: MetaV, e: HashV) -> EntryDhtStatus {
    if has_live_header(m, e) {
        EntryDhtStatus::Live
    } else {
        EntryDhtStatus::Dead
    }
}

/// The append-only metadata index, keyed by address.
pub struct MetadataBuf {
    headers_on_entry: Vec<(HoloHash, TimedHeaderHash)>,
    deletes_on_entry: Vec<(HoloHash, TimedHeaderHash)>,
    deletes_on_header: Vec<(HoloHash, TimedHeaderHash)>,
    updates_on_entry: Vec<(HoloHash, TimedHeaderHash)>,
    link_adds: Vec<LinkMetaVal>,
    link_removes: Vec<(HoloHash, TimedHeaderHash)>,
    store_elements: Vec<HoloHash>,
    store_entries: Vec<(HoloHash, HoloHash)>,
}

/// The view of a keyed-record vector.
pub open spec fn pair_views(s: Seq<(HoloHash, TimedHeaderHash)>) -> Seq<(HashV, ThhV)> {
    Seq::new(s.len(), |i: int| (s[i].0@, s[i].1@))
}

/// The view of a vector of timed header hashes.
pub open spec fn thh_views(s: Seq<TimedHeaderHash>) -> Seq<ThhV> {
    Seq::new(s.len(), |i: int| s[i]@)
}

/// The view of a vector of link-add records.
pub open spec fn link_meta_views(s: Seq<LinkMetaVal>) -> Seq<LinkMetaV> {
    Seq::new(s.len(), |i: int| s[i]@)
}

/// The view of a vector of addresses.
pub open spec fn hash_views(s: Seq<HoloHash>) -> Seq<HashV> {
    Seq::new(s.len(), |i: int| s[i]@)
}

/// The view of a vector of address pairs.
pub open spec fn hash_pair_views(s: Seq<(HoloHash, HoloHash)>) -> Seq<(HashV, HashV)> {
    Seq::new(s.len(), |i: int| (s[i].0@, s[i].1@))
}

impl View for MetadataBuf {
    type V = MetaV;

    closed spec fn view(&self) -> MetaV {
        MetaV {
            headers_on_entry: pair_views(self.headers_on_entry@),
            deletes_on_entry: pair_views(self.deletes_on_entry@),
            deletes_on_header: pair_views(self.deletes_on_header@),
            updates_on_entry: pair_views(self.updates_on_entry@),
            link_adds: link_meta_views(self.link_adds@),
            link_removes: pair_views(self.link_removes@),
            store_elements: hash_views(self.store_elements@),
            store_entries: hash_pair_views(self.store_entries@),
        }
    }
}

/// Appends a keyed record to a vector unless it is already present.
fn reg_pair_exec(s: &mut Vec<(HoloHash, TimedHeaderHash)>, b: HoloHash, t: TimedHeaderHash)
    ensures
        pair_views(final(s)@) == reg_pair(pair_views(old(s)@), b@, t@),
{
    let mut i: usize = 0;
    let mut found = false;
    while i < s.len()
        invariant
            i <= s@.len(),
            found == exists|i2: int| 0 <= i2 < i && pair_views(s@)[i2] == (b@, t@),
        decreases s@.len() - i,
    {
        if s[i].0.same(&b) && s[i].1.same(&t) {
            proof {
                assert(pair_views(s@)[i as int] == (b@, t@));
            }
            found = true;
        }
        i += 1;
    }
    if !found {
        let ghost before = pair_views(s@);
        s.push((b, t));
        proof {
            assert(pair_views(s@) =~= before.push((b@, t@)));
        }
    }
}

impl MetadataBuf {
    /// An empty metadata store.
    pub fn new() -> (r: MetadataBuf)
        ensures
            r@ == (MetaV {
                headers_on_entry: Seq::empty(),
                deletes_on_entry: Seq::empty(),
                deletes_on_header: Seq::empty(),
                updates_on_entry: Seq::empty(),
                link_adds: Seq::empty(),
                link_removes: Seq::empty(),
                store_elements: Seq::empty(),
                store_entries: Seq::empty(),
            }),
    {
        let r = MetadataBuf {
            headers_on_entry: Vec::new(),
            deletes_on_entry: Vec::new(),
            deletes_on_header: Vec::new(),
            updates_on_entry: Vec::new(),
            link_adds: Vec::new(),
            link_removes: Vec::new(),
            store_elements: Vec::new(),
            store_entries: Vec::new(),
        };
        proof {
            assert(r@ =~= (MetaV {
                headers_on_entry: Seq::empty(),
                deletes_on_entry: Seq::empty(),
                deletes_on_header: Seq::empty(),
                updates_on_entry: Seq::empty(),
                link_adds: Seq::empty(),
                link_removes: Seq::empty(),
                store_elements: Seq::empty(),
                store_entries: Seq::empty(),
            }));
        }
        r
    }

    /// Registers a new-entry header against the entry it commits.
    /// Append-only and idempotent.
    pub fn register_header(&mut self, entry: HoloHash, t: TimedHeaderHash)
        ensures
            final(self)@ == (MetaV {
                headers_on_entry: reg_pair(old(self)@.headers_on_entry, entry@, t@),
                ..old(self)@
            }),
    {
        reg_pair_exec(&mut self.headers_on_entry, entry, t);
        proof {
            assert(self@ =~= (MetaV {
                headers_on_entry: reg_pair(old(self)@.headers_on_entry, entry@, t@),
                ..old(self)@
            }));
        }
    }

    /// Registers a delete against the entry it tombstones.
    pub fn register_delete_on_entry(&mut self, entry: HoloHash, t: TimedHeaderHash)
        ensures
            final(self)@ == (MetaV {
                deletes_on_entry: reg_pair(old(self)@.deletes_on_entry, entry@, t@),
                ..old(self)@
            }),
    {
        reg_pair_exec(&mut self.deletes_on_entry, entry, t);
        proof {
            assert(self@ =~= (MetaV {
                deletes_on_entry: reg_pair(old(self)@.deletes_on_entry, entry@, t@),
                ..old(self)@
            }));
        }
    }

    /// Registers a delete against the new-entry header it tombstones.
    pub fn register_delete_on_header(&mut self, header: HoloHash, t: TimedHeaderHash)
        ensures
            final(self)@ == (MetaV {
                deletes_on_header: reg_pair(old(self)@.deletes_on_header, header@, t@),
                ..old(self)@
            }),
    {
        reg_pair_exec(&mut self.deletes_on_header, header, t);
        proof {
            assert(self@ =~= (MetaV {
                deletes_on_header: reg_pair(old(self)@.deletes_on_header, header@, t@),
                ..old(self)@
            }));
        }
    }

    /// Registers an update against the entry it replaces.
    pub fn register_update(&mut self, entry: HoloHash, t: TimedHeaderHash)
        ensures
            final(self)@ == (MetaV {
                updates_on_entry: reg_pair(old(self)@.updates_on_entry, entry@, t@),
                ..old(self)@
            }),
    {
        reg_pair_exec(&mut self.updates_on_entry, entry, t);
        proof {
            assert(self@ =~= (MetaV {
                updates_on_entry: reg_pair(old(self)@.updates_on_entry, entry@, t@),
                ..old(self)@
            }));
        }
    }

    /// Registers a raw metadata value against an entry address, as received
    /// from a remote authority. Append-only and idempotent.
    pub fn register_raw_on_entry(&mut self, entry: HoloHash, v: SysMetaVal)
        ensures
            final(self)@ == match v@ {
                SysMetaValV::NewEntry(t) => MetaV {
                    headers_on_entry: reg_pair(old(self)@.headers_on_entry, entry@, t),
                    ..old(self)@
                },
                SysMetaValV::Update(t) => MetaV {
                    updates_on_entry: reg_pair(old(self)@.updates_on_entry, entry@, t),
                    ..old(self)@
                },
                SysMetaValV::Delete(t) => MetaV {
                    deletes_on_entry: reg_pair(old(self)@.deletes_on_entry, entry@, t),
                    ..old(self)@
                },
            },
    {
        match v {
            SysMetaVal::NewEntry(t) => self.register_header(entry, t),
            SysMetaVal::Update(t) => self.register_update(entry, t),
            SysMetaVal::Delete(t) => self.register_delete_on_entry(entry, t),
        }
    }

    /// Registers a raw metadata value against a header address, as received
    /// from a remote authority. Only deletes index a header; other values
    /// carry no header-keyed index and are dropped.
    pub fn register_raw_on_header(&mut self, header: HoloHash, v: SysMetaVal)
        ensures
            final(self)@ == match v@ {
                SysMetaValV::Delete(t) => MetaV {
                    deletes_on_header: reg_pair(old(self)@.deletes_on_header, header@, t),
                    ..old(self)@
                },
                _ => old(self)@,
            },
    {
        match v {
            SysMetaVal::Delete(t) => self.register_delete_on_header(header, t),
            _ => {},
        }
    }

    /// Records that the element under a header has been validated and
    /// stored.
    pub fn register_store_element(&mut self, header: HoloHash)
        ensures
            final(self)@ == (MetaV {
                store_elements: if old(self)@.store_elements.contains(header@) {
                    old(self)@.store_elements
                } else {
                    old(self)@.store_elements.push(header@)
                },
                ..old(self)@
            }),
    {
        let mut i: usize = 0;
        let mut found = false;
        while i < self.store_elements.len()
            invariant
                i <= self.store_elements@.len(),
                found == exists|i2: int|
                    0 <= i2 < i && hash_views(self.store_elements@)[i2] == header@,
            decreases self.store_elements@.len() - i,
        {
            if self.store_elements[i].same(&header) {
                proof {
                    assert(hash_views(self.store_elements@)[i as int] == header@);
                }
                found = true;
            }
            i += 1;
        }
        proof {
            assert(found == self@.store_elements.contains(header@));
        }
        if !found {
            let ghost before = hash_views(self.store_elements@);
            self.store_elements.push(header);
            proof {
                assert(hash_views(self.store_elements@) =~= before.push(header@));
                assert(self@ =~= (MetaV {
                    store_elements: old(self)@.store_elements.push(header@),
                    ..old(self)@
                }));
            }
        } else {
            proof {
                assert(self@ =~= old(self)@);
            }
        }
    }

    /// Records a validated (entry, header) pairing.
    pub fn register_store_entry(&mut self, entry: HoloHash, header: HoloHash)
        ensures
            final(self)@ == (MetaV {
                store_entries: if old(self)@.store_entries.contains((entry@, header@)) {
                    old(self)@.store_entries
                } else {
                    old(self)@.store_entries.push((entry@, header@))
                },
                ..old(self)@
            }),
    {
        let mut i: usize = 0;
        let mut found = false;
        while i < self.store_entries.len()
            invariant
                i <= self.store_entries@.len(),
                found == exists|i2: int|
                    0 <= i2 < i && hash_pair_views(self.store_entries@)[i2] == (entry@, header@),
            decreases self.store_entries@.len() - i,
        {
            if self.store_entries[i].0.same(&entry) && self.store_entries[i].1.same(&header) {
                proof {
                    assert(hash_pair_views(self.store_entries@)[i as int] == (entry@, header@));
                }
                found = true;
            }
            i += 1;
        }
        proof {
            assert(found == self@.store_entries.contains((entry@, header@)));
        }
        if !found {
            let ghost before = hash_pair_views(self.store_entries@);
            self.store_entries.push((entry, header));
            proof {
                assert(hash_pair_views(self.store_entries@) =~= before.push((entry@, header@)));
                assert(self@ =~= (MetaV {
                    store_entries: old(self)@.store_entries.push((entry@, header@)),
                    ..old(self)@
                }));
            }
        } else {
            proof {
                assert(self@ =~= old(self)@);
            }
        }
    }

    /// Registers a link-add record. Append-only and idempotent, keyed by
    /// the link-add header's address.
    pub fn register_link_add(&mut self, l: LinkMetaVal)
        ensures
            final(self)@ == (MetaV {
                link_adds: if exists|i: int|
                    0 <= i < old(self)@.link_adds.len() && (#[trigger] old(
                        self,
                    )@.link_adds[i]).link_add_hash == l@.link_add_hash {
                    old(self)@.link_adds
                } else {
                    old(self)@.link_adds.push(l@)
                },
                ..old(self)@
            }),
    {
        let mut i: usize = 0;
        let mut found = false;
        while i < self.link_adds.len()
            invariant
                i <= self.link_adds@.len(),
                found == exists|i2: int|
                    0 <= i2 < i && (#[trigger] link_meta_views(
                        self.link_adds@,
                    )[i2]).link_add_hash == l@.link_add_hash,
            decreases self.link_adds@.len() - i,
        {
            if self.link_adds[i].link_add_hash.same(&l.link_add_hash) {
                proof {
                    assert(link_meta_views(self.link_adds@)[i as int].link_add_hash
                        == l@.link_add_hash);
                }
                found = true;
            }
            i += 1;
        }
        if !found {
            let ghost before = link_meta_views(self.link_adds@);
            self.link_adds.push(l);
            proof {
                assert(link_meta_views(self.link_adds@) =~= before.push(l@));
                assert(self@ =~= (MetaV { link_adds: old(self)@.link_adds.push(l@), ..old(self)@ }));
            }
        } else {
            proof {
                assert(self@ =~= old(self)@);
            }
        }
    }

    /// Registers a link-remove against the link-add it removes.
    pub fn register_link_remove(&mut self, link_add: HoloHash, t: TimedHeaderHash)
        ensures
            final(self)@ == (MetaV {
                link_removes: reg_pair(old(self)@.link_removes, link_add@, t@),
                ..old(self)@
            }),
    {
        reg_pair_exec(&mut self.link_removes, link_add, t);
        proof {
            assert(self@ =~= (MetaV {
                link_removes: reg_pair(old(self)@.link_removes, link_add@, t@),
                ..old(self)@
            }));
        }
    }

    /// The new-entry headers registered for an entry, in registration
    /// order.
    pub fn get_headers(&self, entry: &HoloHash) -> (r: Vec<TimedHeaderHash>)
        ensures
            thh_views(r@) == select_thh(
                self@.headers_on_entry,
                entry@,
                self@.headers_on_entry.len() as int,
            ),
    {
        select_thh_exec(&self.headers_on_entry, entry)
    }

    /// The deletes registered against an entry, in registration order.
    pub fn get_deletes_on_entry(&self, entry: &HoloHash) -> (r: Vec<TimedHeaderHash>)
        ensures
            thh_views(r@) == select_thh(
                self@.deletes_on_entry,
                entry@,
                self@.deletes_on_entry.len() as int,
            ),
    {
        select_thh_exec(&self.deletes_on_entry, entry)
    }

    /// The deletes registered against a new-entry header, in registration
    /// order.
    pub fn get_deletes_on_header(&self, header: &HoloHash) -> (r: Vec<TimedHeaderHash>)
        ensures
            thh_views(r@) == select_thh(
                self@.deletes_on_header,
                header@,
                self@.deletes_on_header.len() as int,
            ),
    {
        select_thh_exec(&self.deletes_on_header, header)
    }

    /// The updates registered against an entry, in registration order.
    pub fn get_updates(&self, entry: &HoloHash) -> (r: Vec<TimedHeaderHash>)
        ensures
            thh_views(r@) == select_thh(
                self@.updates_on_entry,
                entry@,
                self@.updates_on_entry.len() as int,
            ),
    {
        select_thh_exec(&self.updates_on_entry, entry)
    }

    /// Whether any delete is registered against the given header.
    pub fn has_delete_on_header(&self, header: &HoloHash) -> (r: bool)
        ensures
            r == has_delete_on_header(self@, header@),
    {
        let mut i: usize = 0;
        while i < self.deletes_on_header.len()
            invariant
                i <= self.deletes_on_header@.len(),
                forall|i2: int|
                    0 <= i2 < i ==> (#[trigger] pair_views(self.deletes_on_header@)[i2]).0
                        != header@,
            decreases self.deletes_on_header@.len() - i,
        {
            if self.deletes_on_header[i].0.same(header) {
                proof {
                    assert((pair_views(self.deletes_on_header@)[i as int]).0 == header@);
                }
                return true;
            }
            i += 1;
        }
        false
    }

    /// The derived CRUD status of an entry: live while some registered
    /// new-entry header has no delete registered against it.
    pub fn get_dht_status(&self, entry: &HoloHash) -> (r: EntryDhtStatus)
        ensures
            r == derived_status(self@, entry@),
    {
        let mut i: usize = 0;
        while i < self.headers_on_entry.len()
            invariant
                i <= self.headers_on_entry@.len(),
                forall|i2: int|
                    0 <= i2 < i && (#[trigger] pair_views(self.headers_on_entry@)[i2]).0 == entry@
                        ==> has_delete_on_header(
                        self@,
                        pair_views(self.headers_on_entry@)[i2].1.header_hash,
                    ),
            decreases self.headers_on_entry@.len() - i,
        {
            if self.headers_on_entry[i].0.same(entry) {
                if !self.has_delete_on_header(&self.headers_on_entry[i].1.header_hash) {
                    proof {
                        assert((pair_views(self.headers_on_entry@)[i as int]).0 == entry@);
                        assert(has_live_header(self@, entry@));
                    }
                    return EntryDhtStatus::Live;
                }
            }
            i += 1;
        }
        EntryDhtStatus::Dead
    }

    /// Whether the element under this header was validated and stored
    /// here.
    pub fn has_registered_store_element(&self, header: &HoloHash) -> (r: bool)
        ensures
            r == self@.store_elements.contains(header@),
    {
        let mut i: usize = 0;
        while i < self.store_elements.len()
            invariant
                i <= self.store_elements@.len(),
                forall|i2: int| 0 <= i2 < i ==> hash_views(self.store_elements@)[i2] != header@,
            decreases self.store_elements@.len() - i,
        {
            if self.store_elements[i].same(header) {
                proof {
                    assert(hash_views(self.store_elements@)[i as int] == header@);
                }
                return true;
            }
            i += 1;
        }
        false
    }

    /// Whether this specific (entry, header) pairing was validated and
    /// stored here.
    pub fn has_registered_store_entry(&self, entry: &HoloHash, header: &HoloHash) -> (r: bool)
        ensures
            r == self@.store_entries.contains((entry@, header@)),
    {
        let mut i: usize = 0;
        while i < self.store_entries.len()
            invariant
                i <= self.store_entries@.len(),
                forall|i2: int|
                    0 <= i2 < i ==> hash_pair_views(self.store_entries@)[i2] != (entry@, header@),
            decreases self.store_entries@.len() - i,
        {
            if self.store_entries[i].0.same(entry) && self.store_entries[i].1.same(header) {
                proof {
                    assert(hash_pair_views(self.store_entries@)[i as int] == (entry@, header@));
                }
                return true;
            }
            i += 1;
        }
        false
    }

    /// Whether any new-entry header pairing exists for the entry.
    pub fn has_any_registered_store_entry(&self, entry: &HoloHash) -> (r: bool)
        ensures
            r == exists|i: int|
                0 <= i < self@.store_entries.len() && (#[trigger] self@.store_entries[i]).0
                    == entry@,
    {
        let mut i: usize = 0;
        while i < self.store_entries.len()
            invariant
                i <= self.store_entries@.len(),
                forall|i2: int|
                    0 <= i2 < i ==> (#[trigger] hash_pair_views(self.store_entries@)[i2]).0
                        != entry@,
            decreases self.store_entries@.len() - i,
        {
            if self.store_entries[i].0.same(entry) {
                proof {
                    assert((self@.store_entries[i as int]).0 == entry@);
                }
                return true;
            }
            i += 1;
        }
        false
    }

    /// The registered link-add records falling under a key, in
    /// registration order, regardless of removes.
    pub fn get_links_all(&self, key: &LinkMetaKey) -> (r: Vec<LinkMetaVal>)
        ensures
            link_meta_views(r@) == select_links(
                self@.link_adds,
                key@,
                self@.link_adds.len() as int,
            ),
    {
        let mut out: Vec<LinkMetaVal> = Vec::new();
        let mut i: usize = 0;
        while i < self.link_adds.len()
            invariant
                i <= self.link_adds@.len(),
                link_meta_views(out@) == select_links(
                    link_meta_views(self.link_adds@),
                    key@,
                    i as int,
                ),
            decreases self.link_adds@.len() - i,
        {
            let ghost before = link_meta_views(out@);
            if key.matches(&self.link_adds[i]) {
                out.push(self.link_adds[i].clone());
                proof {
                    assert(link_meta_views(out@) =~= before.push(
                        link_meta_views(self.link_adds@)[i as int],
                    ));
                }
            }
            i += 1;
        }
        out
    }

    /// The link-removes registered against a link-add, in registration
    /// order.
    pub fn get_link_removes_on_link_add(&self, link_add: &HoloHash) -> (r: Vec<TimedHeaderHash>)
        ensures
            thh_views(r@) == select_thh(
                self@.link_removes,
                link_add@,
                self@.link_removes.len() as int,
            ),
    {
        select_thh_exec(&self.link_removes, link_add)
    }

    /// Whether any link-remove is registered against the link-add.
    pub fn has_link_remove(&self, link_add: &HoloHash) -> (r: bool)
        ensures
            r == has_basis(self@.link_removes, link_add@),
    {
        let mut i: usize = 0;
        while i < self.link_removes.len()
            invariant
                i <= self.link_removes@.len(),
                forall|i2: int|
                    0 <= i2 < i ==> (#[trigger] pair_views(self.link_removes@)[i2]).0 != link_add@,
            decreases self.link_removes@.len() - i,
        {
            if self.link_removes[i].0.same(link_add) {
                proof {
                    assert((pair_views(self.link_removes@)[i as int]).0 == link_add@);
                }
                return true;
            }
            i += 1;
        }
        false
    }
}

/// The time-ordering key of a registered link-add record: when its
/// header was authored, ties broken by the header's address.
pub open spec fn link_key(l: LinkMetaV) -> ThhV {
    ThhV { timestamp: l.timestamp, header_hash: l.link_add_hash }
}

/// Whether a run of link-add records is ordered ascending by time.
pub open spec fn links_sorted(s: Seq<LinkMetaV>) -> bool {
    forall|i: int, j: int|
        0 <= i < j < s.len() ==> crate::time::thh_le(
            link_key(#[trigger] s[i]),
            link_key(#[trigger] s[j]),
        )
}

/// Places a link-add record before the first entry it does not exceed.
pub open spec fn insert_link(s: Seq<LinkMetaV>, x: LinkMetaV) -> Seq<LinkMetaV>
    decreases s.len(),
{
    if s.len() == 0 {
        seq![x]
    } else if crate::time::thh_le(link_key(x), link_key(s[0])) {
        seq![x] + s
    } else {
        seq![s[0]] + insert_link(s.skip(1), x)
    }
}

/// The ascending time-ordering of the first `j` records, by repeated
/// insertion.
pub open spec fn sort_links(s: Seq<LinkMetaV>, j: int) -> Seq<LinkMetaV>
    decreases j,
{
    if j <= 0 {
        Seq::empty()
    } else {
        insert_link(sort_links(s, j - 1), s[j - 1])
    }
}

/// Insertion keeps a run time-ordered and adds exactly the inserted
/// record.
pub proof fn lemma_insert_link_props(s: Seq<LinkMetaV>, x: LinkMetaV)
    requires
        links_sorted(s),
    ensures
        links_sorted(insert_link(s, x)),
        insert_link(s, x).len() == s.len() + 1,
        forall|t: LinkMetaV| #[trigger] insert_link(s, x).contains(t) <==> s.contains(t) || t
            == x,
    decreases s.len(),
{
    let r = insert_link(s, x);
    if s.len() == 0 {
        assert(r =~= seq![x]);
        assert(r[0] == x);
        assert forall|t: LinkMetaV| #[trigger] r.contains(t) implies s.contains(t) || t == x by {
            let i = choose|i: int| 0 <= i < r.len() && r[i] == t;
        }
    } else if crate::time::thh_le(link_key(x), link_key(s[0])) {
        assert(r == seq![x] + s);
        assert forall|i: int, j: int| 0 <= i < j < r.len() implies crate::time::thh_le(
            link_key(#[trigger] r[i]),
            link_key(#[trigger] r[j]),
        ) by {
            if i == 0 {
                if j > 1 {
                    assert(crate::time::thh_le(link_key(s[0]), link_key(s[j - 1])));
                    crate::time::lemma_thh_le_transitive(
                        link_key(x),
                        link_key(s[0]),
                        link_key(s[j - 1]),
                    );
                }
            } else {
                assert(crate::time::thh_le(link_key(s[i - 1]), link_key(s[j - 1])));
            }
        }
        assert forall|t: LinkMetaV| #[trigger] r.contains(t) implies s.contains(t) || t == x by {
            let i = choose|i: int| 0 <= i < r.len() && r[i] == t;
            if i > 0 {
                assert(s[i - 1] == t);
            }
        }
        assert forall|t: LinkMetaV| s.contains(t) || t == x implies #[trigger] r.contains(t) by {
            if s.contains(t) {
                let i = choose|i: int| 0 <= i < s.len() && s[i] == t;
                assert(r[i + 1] == t);
            } else {
                assert(r[0] == x);
            }
        }
    } else {
        assert(forall|i: int, j: int|
            0 <= i < j < s.skip(1).len() ==> crate::time::thh_le(
                link_key(#[trigger] s.skip(1)[i]),
                link_key(#[trigger] s.skip(1)[j]),
            ));
        lemma_insert_link_props(s.skip(1), x);
        let inner = insert_link(s.skip(1), x);
        assert(r == seq![s[0]] + inner);
        assert forall|i: int, j: int| 0 <= i < j < r.len() implies crate::time::thh_le(
            link_key(#[trigger] r[i]),
            link_key(#[trigger] r[j]),
        ) by {
            if i == 0 {
                assert(inner.contains(r[j])) by {
                    assert(inner[j - 1] == r[j]);
                }
                if r[j] == x {
                    crate::time::lemma_thh_le_total(link_key(x), link_key(s[0]));
                } else {
                    assert(s.skip(1).contains(r[j]));
                    let k = choose|k: int| 0 <= k < s.skip(1).len() && s.skip(1)[k] == r[j];
                    assert(s[k + 1] == r[j]);
                }
            } else {
                assert(crate::time::thh_le(link_key(inner[i - 1]), link_key(inner[j - 1])));
            }
        }
        assert forall|t: LinkMetaV| #[trigger] r.contains(t) implies s.contains(t) || t == x by {
            let i = choose|i: int| 0 <= i < r.len() && r[i] == t;
            if i == 0 {
                assert(s[0] == t);
            } else {
                assert(inner.contains(r[i])) by {
                    assert(inner[i - 1] == r[i]);
                }
                if t != x {
                    assert(s.skip(1).contains(t));
                    let k = choose|k: int| 0 <= k < s.skip(1).len() && s.skip(1)[k] == t;
                    assert(s[k + 1] == t);
                }
            }
        }
        assert forall|t: LinkMetaV| s.contains(t) || t == x implies #[trigger] r.contains(t) by {
            if t == x || s.skip(1).contains(t) {
                assert(inner.contains(t));
                let k = choose|k: int| 0 <= k < inner.len() && inner[k] == t;
                assert(r[k + 1] == t);
            } else {
                let i = choose|i: int| 0 <= i < s.len() && s[i] == t;
                if i == 0 {
                    assert(r[0] == t);
                } else {
                    assert(s.skip(1)[i - 1] == t);
                }
            }
        }
    }
}

/// Sorting yields a time-ordered run holding exactly the records.
pub proof fn lemma_sort_links_props(s: Seq<LinkMetaV>, j: int)
    requires
        0 <= j <= s.len(),
    ensures
        links_sorted(sort_links(s, j)),
        sort_links(s, j).len() == j,
        forall|t: LinkMetaV| #[trigger] sort_links(s, j).contains(t) <==> exists|k: int|
            0 <= k < j && s[k] == t,
    decreases j,
{
    if j > 0 {
        lemma_sort_links_props(s, j - 1);
        lemma_insert_link_props(sort_links(s, j - 1), s[j - 1]);
        assert forall|t: LinkMetaV| #[trigger] sort_links(s, j).contains(t) implies exists|k: int|
            0 <= k < j && s[k] == t by {
            if sort_links(s, j - 1).contains(t) {
            } else {
                assert(s[j - 1] == t);
            }
        }
        assert forall|t: LinkMetaV| (exists|k: int| 0 <= k < j && s[k] == t)
            implies #[trigger] sort_links(s, j).contains(t) by {
            let k = choose|k: int| 0 <= k < j && s[k] == t;
        }
    }
}

/// Insertion at the first position whose record the value does not
/// exceed: what the recursive insertion computes.
pub proof fn lemma_insert_link_at(s: Seq<LinkMetaV>, x: LinkMetaV, p: int)
    requires
        0 <= p <= s.len(),
        forall|k: int| 0 <= k < p ==> !crate::time::thh_le(link_key(x), link_key(#[trigger] s[k])),
        p < s.len() ==> crate::time::thh_le(link_key(x), link_key(s[p])),
    ensures
        insert_link(s, x) == s.subrange(0, p) + seq![x] + s.skip(p),
    decreases p,
{
    if p == 0 {
        assert(insert_link(s, x) =~= s.subrange(0, 0) + seq![x] + s.skip(0));
    } else {
        assert(!crate::time::thh_le(link_key(x), link_key(s[0])));
        assert(forall|k: int|
            0 <= k < p - 1 ==> !crate::time::thh_le(
                link_key(x),
                link_key(#[trigger] s.skip(1)[k]),
            ));
        assert(p - 1 < s.skip(1).len() ==> crate::time::thh_le(
            link_key(x),
            link_key(s.skip(1)[p - 1]),
        ));
        lemma_insert_link_at(s.skip(1), x, p - 1);
        assert(insert_link(s, x) =~= s.subrange(0, p) + seq![x] + s.skip(p)) by {
            assert(insert_link(s, x) == seq![s[0]] + (s.skip(1).subrange(0, p - 1) + seq![x]
                + s.skip(1).skip(p - 1)));
            assert(s.skip(1).skip(p - 1) =~= s.skip(p));
            assert(s.skip(1).subrange(0, p - 1) =~= s.subrange(1, p));
        }
    }
}

/// Whether one link-add record is at or before another under the
/// time-ordering key.
fn link_le(a: &LinkMetaVal, b: &LinkMetaVal) -> (r: bool)
    ensures
        r == crate::time::thh_le(link_key(a@), link_key(b@)),
{
    let ts_eq = a.timestamp.secs == b.timestamp.secs && a.timestamp.nanos == b.timestamp.nanos;
    if ts_eq {
        crate::time::lex_le_bytes(a.link_add_hash.digest(), b.link_add_hash.digest())
    } else {
        a.timestamp.secs < b.timestamp.secs || (a.timestamp.secs == b.timestamp.secs
            && a.timestamp.nanos <= b.timestamp.nanos)
    }
}

/// Sorts timed header hashes ascending by (timestamp, header-hash
/// bytes).
pub fn sort_timed_headers(v: Vec<TimedHeaderHash>) -> (r: Vec<TimedHeaderHash>)
    ensures
        thh_views(r@) == crate::time::sort_thhs(thh_views(v@), v@.len() as int),
{
    let ghost sv = thh_views(v@);
    let mut out: Vec<TimedHeaderHash> = Vec::new();
    let mut i: usize = 0;
    while i < v.len()
        invariant
            i <= v@.len(),
            sv == thh_views(v@),
            thh_views(out@) == crate::time::sort_thhs(sv, i as int),
        decreases v@.len() - i,
    {
        let ghost before = thh_views(out@);
        proof {
            assert(sv[i as int] == v@[i as int]@);
        }
        let x = v[i].clone();
        let mut p: usize = 0;
        while p < out.len() && !x.le(&out[p])
            invariant
                p <= out@.len(),
                x@ == sv[i as int],
                before == thh_views(out@),
                forall|k: int|
                    0 <= k < p ==> !crate::time::thh_le(x@, (#[trigger] out@[k])@),
            decreases out@.len() - p,
        {
            p += 1;
        }
        proof {
            assert(forall|k: int| 0 <= k < p ==> !crate::time::thh_le(x@, #[trigger] before[k]));
            assert(p < before.len() ==> crate::time::thh_le(x@, before[p as int]));
            crate::time::lemma_insert_thh_at(before, x@, p as int);
        }
        out.insert(p, x);
        proof {
            assert(thh_views(out@) =~= before.subrange(0, p as int) + seq![sv[i as int]]
                + before.skip(p as int));
        }
        i += 1;
    }
    out
}

/// Sorts link-add records ascending by (timestamp, link-add address
/// bytes).
pub fn sort_link_records(v: Vec<LinkMetaVal>) -> (r: Vec<LinkMetaVal>)
    ensures
        link_meta_views(r@) == sort_links(link_meta_views(v@), v@.len() as int),
{
    let ghost sv = link_meta_views(v@);
    let mut out: Vec<LinkMetaVal> = Vec::new();
    let mut i: usize = 0;
    while i < v.len()
        invariant
            i <= v@.len(),
            sv == link_meta_views(v@),
            link_meta_views(out@) == sort_links(sv, i as int),
        decreases v@.len() - i,
    {
        let ghost before = link_meta_views(out@);
        proof {
            assert(sv[i as int] == v@[i as int]@);
        }
        let x = v[i].clone();
        let mut p: usize = 0;
        while p < out.len() && !link_le(&x, &out[p])
            invariant
                p <= out@.len(),
                x@ == sv[i as int],
                before == link_meta_views(out@),
                forall|k: int|
                    0 <= k < p ==> !crate::time::thh_le(link_key(x@), link_key(#[trigger] before[k])),
            decreases out@.len() - p,
        {
            p += 1;
        }
        proof {
            assert(forall|k: int|
                0 <= k < p ==> !crate::time::thh_le(link_key(x@), link_key(#[trigger] before[k])));
            assert(p < before.len() ==> crate::time::thh_le(link_key(x@), link_key(before[p as int])));
            lemma_insert_link_at(before, x@, p as int);
        }
        out.insert(p, x);
        proof {
            assert(link_meta_views(out@) =~= before.subrange(0, p as int) + seq![sv[i as int]]
                + before.skip(p as int));
        }
        i += 1;
    }
    out
}

/// The link-add records among the first `j` that fall under the key, in
/// order.
pub open spec fn select_links(s: Seq<LinkMetaV>, k: LinkMetaKeyV, j: int) -> Seq<LinkMetaV>
    decreases j,
{
    if j <= 0 {
        Seq::empty()
    } else {
        let p = select_links(s, k, j - 1);
        if key_matches(k, s[j - 1]) {
            p.push(s[j - 1])
        } else {
            p
        }
    }
}

/// Selects the records registered under a basis.
fn select_thh_exec(s: &Vec<(HoloHash, TimedHeaderHash)>, b: &HoloHash) -> (r: Vec<
    TimedHeaderHash,
>)
    ensures
        thh_views(r@) == select_thh(pair_views(s@), b@, s@.len() as int),
{
    let mut out: Vec<TimedHeaderHash> = Vec::new();
    let mut i: usize = 0;
    while i < s.len()
        invariant
            i <= s@.len(),
            thh_views(out@) == select_thh(pair_views(s@), b@, i as int),
        decreases s@.len() - i,
    {
        let ghost before = thh_views(out@);
        if s[i].0.same(b) {
            out.push(s[i].1.clone());
            proof {
                assert(thh_views(out@) =~= before.push(pair_views(s@)[i as int].1));
            }
        } else {
            proof {
                assert((pair_views(s@)[i as int]).0 != b@);
            }
        }
        i += 1;
    }
    out
}

} // verus!
