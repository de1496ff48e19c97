//! The cascade: multi-tier resolution of DHT reads.
//!
//! A `get` checks CRUD metadata before returning data, whereas a
//! `retrieve` only checks that the data was validated where it was found.
//! Every read refreshes the cache from remote authorities first, merges
//! their answers as additive evidence, and then resolves the result from
//! the authoritative vault and the cache alone.

use crate::element::{
    group_fold, Element, ElementGroup, ElementV, EntryHashed, SignedHeader, SignedHeaderHashed,
    SignedHeaderHashedV, SignedHeaderV,
};
use crate::element_buf::{buf_get_element, buf_put, put_group_fold, ElementBuf, ElementBufV};
use crate::entry::{entry_hash_of, EntryV};
use crate::error::{CascadeError, CascadeResult};
use crate::hash::{HashRole, HashV, HoloHash};
use crate::header::{header_hash_of, Header, HeaderV};
use crate::metadata::{
    derived_status, has_basis, reg_pair, select_links, select_thh, EntryDhtStatus, Link,
    LinkMetaKey, LinkMetaKeyV, LinkMetaV, LinkMetaVal, MetaV, MetadataBuf, SysMetaVal,
};
use crate::net::{
    GetElementResponse, GetElementResponseV, GetLinksOptions, GetLinksResponseV, GetMetaOptions,
    GetOptions, MetadataSet, MetadataSetV, Network, RawGetEntryResponseV, WireElementV,
    WireLinkMetaKey,
};
use crate::time::{thh_le, ThhV, TimedHeaderHash};
use vstd::prelude::*;

verus! {

/// Appends an address unless it is already present.
pub open spec fn reg_hash(s: Seq<HashV>, h: HashV) -> Seq<HashV> {
    if s.contains(h) {
        s
    } else {
        s.push(h)
    }
}

/// Appends an address pair unless it is already present.
pub open spec fn reg_hash_pair(s: Seq<(HashV, HashV)>, p: (HashV, HashV)) -> Seq<(HashV, HashV)> {
    if s.contains(p) {
        s
    } else {
        s.push(p)
    }
}

/// Appends a link-add record unless one with the same link-add address is
/// already present.
pub open spec fn reg_link(s: Seq<LinkMetaV>, l: LinkMetaV) -> Seq<LinkMetaV> {
    if exists|i: int| 0 <= i < s.len() && (#[trigger] s[i]).link_add_hash == l.link_add_hash {
        s
    } else {
        s.push(l)
    }
}

/// The ordering key of a header stored under an address.
pub open spec fn thh_of(h: HeaderV, hash: HashV) -> ThhV {
    ThhV { timestamp: h.timestamp(), header_hash: hash }
}

/// Registering one header's metadata: what one validated header at the
/// given address adds to a metadata store. Idempotent by construction.
pub open spec fn integrate_header(m: MetaV, h: HeaderV, hash: HashV) -> MetaV {
    let m1 = MetaV { store_elements: reg_hash(m.store_elements, hash), ..m };
    let t = thh_of(h, hash);
    match h {
        HeaderV::Create(c) => MetaV {
            headers_on_entry: reg_pair(m1.headers_on_entry, c.entry_hash, t),
            store_entries: reg_hash_pair(m1.store_entries, (c.entry_hash, hash)),
            ..m1
        },
        HeaderV::Update(u) => MetaV {
            headers_on_entry: reg_pair(m1.headers_on_entry, u.entry_hash, t),
            store_entries: reg_hash_pair(m1.store_entries, (u.entry_hash, hash)),
            updates_on_entry: reg_pair(m1.updates_on_entry, u.original_entry_address, t),
            ..m1
        },
        HeaderV::Delete(d) => MetaV {
            deletes_on_entry: reg_pair(m1.deletes_on_entry, d.deletes_entry_address, t),
            deletes_on_header: reg_pair(m1.deletes_on_header, d.deletes_address, t),
            ..m1
        },
        HeaderV::CreateLink(l) => MetaV {
            link_adds: reg_link(
                m1.link_adds,
                LinkMetaV {
                    base: l.base_address,
                    zome_id: l.zome_id,
                    tag: l.tag,
                    link_add_hash: hash,
                    timestamp: l.timestamp,
                    target: l.target_address,
                },
            ),
            ..m1
        },
        HeaderV::DeleteLink(l) => MetaV {
            link_removes: reg_pair(m1.link_removes, l.link_add_address, t),
            ..m1
        },
    }
}

/// Storing one element: what one merged element adds to an element store.
pub open spec fn merge_element_e(b: ElementBufV, el: ElementV) -> ElementBufV {
    buf_put(
        b,
        SignedHeaderHashedV { header: el.header, hash: el.hash, signature: el.signature },
        match el.entry {
            Some(e) => Some(crate::element::EntryHashedV { entry: e, hash: entry_hash_of(e) }),
            None => None,
        },
    )
}

/// Entry bytes travel with a header only when they belong to it: the
/// header commits entry data at exactly the entry's own address.
pub open spec fn attach_entry(h: HeaderV, e: Option<EntryV>) -> Option<EntryV> {
    match e {
        Some(ev) => if ev.wf() && (h.entry_data() matches Some(d) && d.0 == entry_hash_of(ev)) {
            Some(ev)
        } else {
            None
        },
        None => None,
    }
}

/// The element a wire answer to a header request carries.
pub open spec fn wire_element_of(we: WireElementV) -> ElementV {
    ElementV {
        header: we.signed_header.header,
        hash: header_hash_of(we.signed_header.header),
        signature: we.signed_header.signature,
        entry: attach_entry(we.signed_header.header, we.entry),
    }
}

/// The element a bare signed wire header carries.
pub open spec fn bare_element_of(sh: SignedHeaderV) -> ElementV {
    ElementV {
        header: sh.header,
        hash: header_hash_of(sh.header),
        signature: sh.signature,
        entry: None,
    }
}

/// Merging one wire header answer into the metadata cache: the header and
/// the delete that came along, each when well-formed.
pub open spec fn merge_we_m(m: MetaV, we: WireElementV) -> MetaV {
    if !we.signed_header.header.wf() {
        m
    } else {
        let m1 = integrate_header(
            m,
            we.signed_header.header,
            header_hash_of(we.signed_header.header),
        );
        match we.deleted {
            Some(d) => if d.header.wf() {
                integrate_header(m1, d.header, header_hash_of(d.header))
            } else {
                m1
            },
            None => m1,
        }
    }
}

/// Merging one wire header answer into the element cache.
pub open spec fn merge_we_e(b: ElementBufV, we: WireElementV) -> ElementBufV {
    if !we.signed_header.header.wf() {
        b
    } else {
        let b1 = merge_element_e(b, wire_element_of(we));
        match we.deleted {
            Some(d) => if d.header.wf() {
                merge_element_e(b1, bare_element_of(d))
            } else {
                b1
            },
            None => b1,
        }
    }
}

/// Merging the first `j` answers to a header request into the metadata
/// cache. Answers of the wrong shape are ignored.
pub open spec fn merge_header_resps_m(m: MetaV, rs: Seq<GetElementResponseV>, j: int) -> MetaV
    decreases j,
{
    if j <= 0 {
        m
    } else {
        let prev = merge_header_resps_m(m, rs, j - 1);
        match rs[j - 1] {
            GetElementResponseV::GetHeader(Some(we)) => merge_we_m(prev, we),
            _ => prev,
        }
    }
}

/// Merging the first `j` answers to a header request into the element
/// cache.
pub open spec fn merge_header_resps_e(b: ElementBufV, rs: Seq<GetElementResponseV>, j: int) -> ElementBufV
    decreases j,
{
    if j <= 0 {
        b
    } else {
        let prev = merge_header_resps_e(b, rs, j - 1);
        match rs[j - 1] {
            GetElementResponseV::GetHeader(Some(we)) => merge_we_e(prev, we),
            _ => prev,
        }
    }
}

/// Registering the first `j` headers of an element group.
pub open spec fn integrate_group_m(m: MetaV, hs: Seq<SignedHeaderHashedV>, j: int) -> MetaV
    decreases j,
{
    if j <= 0 {
        m
    } else {
        integrate_header(
            integrate_group_m(m, hs, j - 1),
            hs[j - 1].header,
            hs[j - 1].hash,
        )
    }
}

/// Registering the first `j` of a run of bare signed wire headers, each
/// when well-formed.
pub open spec fn merge_shs_m(m: MetaV, shs: Seq<SignedHeaderV>, j: int) -> MetaV
    decreases j,
{
    if j <= 0 {
        m
    } else {
        let prev = merge_shs_m(m, shs, j - 1);
        if shs[j - 1].header.wf() {
            integrate_header(prev, shs[j - 1].header, header_hash_of(shs[j - 1].header))
        } else {
            prev
        }
    }
}

/// Storing the first `j` of a run of bare signed wire headers, each when
/// well-formed.
pub open spec fn merge_shs_e(b: ElementBufV, shs: Seq<SignedHeaderV>, j: int) -> ElementBufV
    decreases j,
{
    if j <= 0 {
        b
    } else {
        let prev = merge_shs_e(b, shs, j - 1);
        if shs[j - 1].header.wf() {
            merge_element_e(prev, bare_element_of(shs[j - 1]))
        } else {
            prev
        }
    }
}

/// Merging one full entry answer into the metadata cache: the deduplicated
/// header group, then the deletes, then the updates. An answer whose entry
/// is malformed is ignored whole.
pub open spec fn merge_raw_m(m: MetaV, raw: RawGetEntryResponseV) -> MetaV {
    if !raw.entry.wf() {
        m
    } else {
        let g = group_fold(
            raw.live_headers,
            raw.live_headers.len() as int,
            entry_hash_of(raw.entry),
        );
        let m1 = integrate_group_m(m, g, g.len() as int);
        let m2 = merge_shs_m(m1, raw.deletes, raw.deletes.len() as int);
        merge_shs_m(m2, raw.updates, raw.updates.len() as int)
    }
}

/// Merging one full entry answer into the element cache.
pub open spec fn merge_raw_e(b: ElementBufV, raw: RawGetEntryResponseV) -> ElementBufV {
    if !raw.entry.wf() {
        b
    } else {
        let g = group_fold(
            raw.live_headers,
            raw.live_headers.len() as int,
            entry_hash_of(raw.entry),
        );
        let b1 = put_group_fold(
            b,
            g,
            crate::element::EntryHashedV { entry: raw.entry, hash: entry_hash_of(raw.entry) },
            g.len() as int,
        );
        let b2 = merge_shs_e(b1, raw.deletes, raw.deletes.len() as int);
        merge_shs_e(b2, raw.updates, raw.updates.len() as int)
    }
}

/// Merging the first `j` answers to an entry request into the metadata
/// cache.
pub open spec fn merge_entry_resps_m(m: MetaV, rs: Seq<GetElementResponseV>, j: int) -> MetaV
    decreases j,
{
    if j <= 0 {
        m
    } else {
        let prev = merge_entry_resps_m(m, rs, j - 1);
        match rs[j - 1] {
            GetElementResponseV::GetEntryFull(Some(raw)) => merge_raw_m(prev, raw),
            _ => prev,
        }
    }
}

/// Merging the first `j` answers to an entry request into the element
/// cache.
pub open spec fn merge_entry_resps_e(b: ElementBufV, rs: Seq<GetElementResponseV>, j: int) -> ElementBufV
    decreases j,
{
    if j <= 0 {
        b
    } else {
        let prev = merge_entry_resps_e(b, rs, j - 1);
        match rs[j - 1] {
            GetElementResponseV::GetEntryFull(Some(raw)) => merge_raw_e(prev, raw),
            _ => prev,
        }
    }
}

/// Registering the first `j` signed link-add headers of a link answer.
pub open spec fn merge_cl_m(m: MetaV, adds: Seq<(crate::header::CreateLinkV, Seq<u8>)>, j: int) -> MetaV
    decreases j,
{
    if j <= 0 {
        m
    } else {
        let prev = merge_cl_m(m, adds, j - 1);
        let h = HeaderV::CreateLink(adds[j - 1].0);
        if h.wf() {
            integrate_header(prev, h, header_hash_of(h))
        } else {
            prev
        }
    }
}

/// Storing the first `j` signed link-add headers of a link answer.
pub open spec fn merge_cl_e(b: ElementBufV, adds: Seq<(crate::header::CreateLinkV, Seq<u8>)>, j: int) -> ElementBufV
    decreases j,
{
    if j <= 0 {
        b
    } else {
        let prev = merge_cl_e(b, adds, j - 1);
        let h = HeaderV::CreateLink(adds[j - 1].0);
        if h.wf() {
            merge_element_e(prev, bare_element_of(SignedHeaderV { header: h, signature: adds[j - 1].1 }))
        } else {
            prev
        }
    }
}

/// Registering the first `j` signed link-remove headers of a link answer.
pub open spec fn merge_dl_m(m: MetaV, rems: Seq<(crate::header::DeleteLinkV, Seq<u8>)>, j: int) -> MetaV
    decreases j,
{
    if j <= 0 {
        m
    } else {
        let prev = merge_dl_m(m, rems, j - 1);
        let h = HeaderV::DeleteLink(rems[j - 1].0);
        if h.wf() {
            integrate_header(prev, h, header_hash_of(h))
        } else {
            prev
        }
    }
}

/// Storing the first `j` signed link-remove headers of a link answer.
pub open spec fn merge_dl_e(b: ElementBufV, rems: Seq<(crate::header::DeleteLinkV, Seq<u8>)>, j: int) -> ElementBufV
    decreases j,
{
    if j <= 0 {
        b
    } else {
        let prev = merge_dl_e(b, rems, j - 1);
        let h = HeaderV::DeleteLink(rems[j - 1].0);
        if h.wf() {
            merge_element_e(prev, bare_element_of(SignedHeaderV { header: h, signature: rems[j - 1].1 }))
        } else {
            prev
        }
    }
}

/// Merging the first `j` link answers into the metadata cache: each
/// answer's link-adds, then its link-removes.
pub open spec fn merge_links_m(m: MetaV, rs: Seq<GetLinksResponseV>, j: int) -> MetaV
    decreases j,
{
    if j <= 0 {
        m
    } else {
        let prev = merge_links_m(m, rs, j - 1);
        let lr = rs[j - 1];
        merge_dl_m(
            merge_cl_m(prev, lr.link_adds, lr.link_adds.len() as int),
            lr.link_removes,
            lr.link_removes.len() as int,
        )
    }
}

/// Merging the first `j` link answers into the element cache.
pub open spec fn merge_links_e(b: ElementBufV, rs: Seq<GetLinksResponseV>, j: int) -> ElementBufV
    decreases j,
{
    if j <= 0 {
        b
    } else {
        let prev = merge_links_e(b, rs, j - 1);
        let lr = rs[j - 1];
        merge_dl_e(
            merge_cl_e(prev, lr.link_adds, lr.link_adds.len() as int),
            lr.link_removes,
            lr.link_removes.len() as int,
        )
    }
}

/// Registering the first `j` timed header hashes of a raw metadata set
/// under an entry basis, into the given keyed-record sequence.
pub open spec fn reg_thhs_fold(s: Seq<(HashV, ThhV)>, b: HashV, ts: Seq<ThhV>, j: int) -> Seq<
    (HashV, ThhV),
>
    decreases j,
{
    if j <= 0 {
        s
    } else {
        reg_pair(reg_thhs_fold(s, b, ts, j - 1), b, ts[j - 1])
    }
}

/// Merging one raw metadata answer for an entry basis.
pub open spec fn merge_ms_entry(m: MetaV, basis: HashV, ms: MetadataSetV) -> MetaV {
    MetaV {
        headers_on_entry: reg_thhs_fold(
            m.headers_on_entry,
            basis,
            ms.headers,
            ms.headers.len() as int,
        ),
        deletes_on_entry: reg_thhs_fold(
            m.deletes_on_entry,
            basis,
            ms.deletes,
            ms.deletes.len() as int,
        ),
        updates_on_entry: reg_thhs_fold(
            m.updates_on_entry,
            basis,
            ms.updates,
            ms.updates.len() as int,
        ),
        ..m
    }
}

/// Merging one raw metadata answer for a header basis: only deletes carry
/// a header-keyed index.
pub open spec fn merge_ms_header(m: MetaV, basis: HashV, ms: MetadataSetV) -> MetaV {
    MetaV {
        deletes_on_header: reg_thhs_fold(
            m.deletes_on_header,
            basis,
            ms.deletes,
            ms.deletes.len() as int,
        ),
        ..m
    }
}

/// Merging the first `j` raw metadata answers for a basis.
pub open spec fn merge_meta_resps(m: MetaV, basis: HashV, ms: Seq<MetadataSetV>, j: int) -> MetaV
    decreases j,
{
    if j <= 0 {
        m
    } else {
        let prev = merge_meta_resps(m, basis, ms, j - 1);
        if basis.role == HashRole::Entry {
            merge_ms_entry(prev, basis, ms[j - 1])
        } else {
            merge_ms_header(prev, basis, ms[j - 1])
        }
    }
}

/// The port's answers are the same under two network states.
pub open spec fn net_stable<N: Network>(a: N, b: N) -> bool {
    &&& forall|h: HashV| b.get_ok(h) == a.get_ok(h)
    &&& forall|h: HashV| b.elements_for(h) == a.elements_for(h)
    &&& forall|h: HashV| b.meta_ok(h) == a.meta_ok(h)
    &&& forall|h: HashV| b.meta_for(h) == a.meta_for(h)
    &&& forall|k: LinkMetaKeyV| b.links_ok(k) == a.links_ok(k)
    &&& forall|k: LinkMetaKeyV| b.links_for(k) == a.links_for(k)
}

/// The state of the cascade search while walking from an entry to the
/// element of its chosen header.
enum Search {
    /// The element was found and the search stops.
    Found(Element),
    /// The element is not held locally: continue down the cascade via the
    /// header address.
    Continue(HoloHash),
    /// The address is not live in the cascade; the search yields nothing
    /// without touching the network again.
    NotInCascade,
}

/// The multi-tier resolver. Reads consult the authoritative vault
/// (read-only), the network-fed cache (the only state written), and a
/// network port. Constructed per logical operation.
pub struct Cascade<N: Network> {
    element_vault: ElementBuf,
    meta_vault: MetadataBuf,
    element_cache: ElementBuf,
    meta_cache: MetadataBuf,
    network: N,
}

impl<N: Network> Cascade<N> {
    /// The vault's element store.
    pub closed spec fn vault_e(&self) -> ElementBufV {
        self.element_vault@
    }

    /// The vault's metadata store.
    pub closed spec fn vault_m(&self) -> MetaV {
        self.meta_vault@
    }

    /// The cache's element store.
    pub closed spec fn cache_e(&self) -> ElementBufV {
        self.element_cache@
    }

    /// The cache's metadata store.
    pub closed spec fn cache_m(&self) -> MetaV {
        self.meta_cache@
    }

    /// The network port.
    pub closed spec fn net(&self) -> N {
        self.network
    }

    /// Both element stores hold only well-formed data.
    pub open spec fn wf(&self) -> bool {
        self.vault_e().wf() && self.cache_e().wf()
    }

    /// Constructs a cascade over its stores and network port.
    pub fn new(
        element_vault: ElementBuf,
        meta_vault: MetadataBuf,
        element_cache: ElementBuf,
        meta_cache: MetadataBuf,
        network: N,
    ) -> (r: Cascade<N>)
        requires
            element_vault@.wf(),
            element_cache@.wf(),
        ensures
            r.vault_e() == element_vault@,
            r.vault_m() == meta_vault@,
            r.cache_e() == element_cache@,
            r.cache_m() == meta_cache@,
            r.net() == network,
            r.wf(),
    {
        Cascade { element_vault, meta_vault, element_cache, meta_cache, network }
    }

    /// Takes the cascade apart: vault stores, cache stores, network.
    pub fn into_parts(self) -> (r: (ElementBuf, MetadataBuf, ElementBuf, MetadataBuf, N))
        ensures
            r.0@ == self.vault_e(),
            r.1@ == self.vault_m(),
            r.2@ == self.cache_e(),
            r.3@ == self.cache_m(),
            r.4 == self.net(),
    {
        (self.element_vault, self.meta_vault, self.element_cache, self.meta_cache, self.network)
    }

    /// The network port, by reference.
    pub fn network(&self) -> (r: &N)
        ensures
            *r == self.net(),
    {
        &self.network
    }

    /// Registers one validated header's metadata into the cache.
    fn register_element_meta(&mut self, shh: &SignedHeaderHashed)
        ensures
            final(self).cache_m() == integrate_header(
                old(self).cache_m(),
                shh@.header,
                shh@.hash,
            ),
            final(self).cache_e() == old(self).cache_e(),
            final(self).vault_e() == old(self).vault_e(),
            final(self).vault_m() == old(self).vault_m(),
            final(self).net() == old(self).net(),
    {
        let hash = shh.header_address().clone();
        let t = TimedHeaderHash { timestamp: shh.header().timestamp(), header_hash: hash.clone() };
        self.meta_cache.register_store_element(hash.clone());
        match shh.header() {
            Header::Create(c) => {
                self.meta_cache.register_header(c.entry_hash.clone(), t);
                self.meta_cache.register_store_entry(c.entry_hash.clone(), hash);
            },
            Header::Update(u) => {
                self.meta_cache.register_header(u.entry_hash.clone(), t.clone());
                self.meta_cache.register_store_entry(u.entry_hash.clone(), hash);
                self.meta_cache.register_update(u.original_entry_address.clone(), t);
            },
            Header::Delete(d) => {
                self.meta_cache.register_delete_on_entry(d.deletes_entry_address.clone(), t.clone());
                self.meta_cache.register_delete_on_header(d.deletes_address.clone(), t);
            },
            Header::CreateLink(l) => {
                self.meta_cache.register_link_add(
                    LinkMetaVal {
                        base: l.base_address.clone(),
                        zome_id: l.zome_id,
                        tag: l.tag.clone(),
                        link_add_hash: hash,
                        timestamp: l.timestamp,
                        target: l.target_address.clone(),
                    },
                );
            },
            Header::DeleteLink(l) => {
                self.meta_cache.register_link_remove(l.link_add_address.clone(), t);
            },
        }
        proof {
            assert(self.cache_m() =~= integrate_header(old(self).cache_m(), shh@.header, shh@.hash));
        }
    }

    /// Merges one element into the cache: stores it and registers its
    /// metadata.
    fn update_stores(&mut self, element: Element)
        requires
            element@.wf(),
            old(self).wf(),
        ensures
            final(self).wf(),
            final(self).cache_m() == integrate_header(
                old(self).cache_m(),
                element@.header,
                element@.hash,
            ),
            final(self).cache_e() == merge_element_e(old(self).cache_e(), element@),
            final(self).vault_e() == old(self).vault_e(),
            final(self).vault_m() == old(self).vault_m(),
            final(self).net() == old(self).net(),
    {
        let (shh, entry) = element.into_inner();
        self.register_element_meta(&shh);
        let entry_hashed = match entry {
            Some(e) => Some(EntryHashed::from_content(e)),
            None => None,
        };
        proof {
            crate::element_buf::lemma_buf_put_wf(self.cache_e(), shh@, match &entry_hashed {
                Some(e) => Some(e@),
                None => None,
            });
        }
        self.element_cache.put(shh, entry_hashed);
        proof {
            assert(self.cache_e() =~= merge_element_e(old(self).cache_e(), element@));
        }
    }

    /// Merges an element group into the cache: stores every header with
    /// the shared entry and registers each header's metadata.
    fn update_stores_with_element_group(&mut self, elements: ElementGroup)
        requires
            elements@.wf(),
            old(self).wf(),
        ensures
            final(self).wf(),
            final(self).cache_m() == integrate_group_m(
                old(self).cache_m(),
                elements@.headers,
                elements@.headers.len() as int,
            ),
            final(self).cache_e() == put_group_fold(
                old(self).cache_e(),
                elements@.headers,
                elements@.entry,
                elements@.headers.len() as int,
            ),
            final(self).vault_e() == old(self).vault_e(),
            final(self).vault_m() == old(self).vault_m(),
            final(self).net() == old(self).net(),
    {
        let ghost hs = elements@.headers;
        let ghost ev = elements@.entry;
        let (headers, entry) = elements.into_inner();
        let mut idx: usize = 0;
        while idx < headers.len()
            invariant
                idx <= headers@.len(),
                headers@.len() == hs.len(),
                forall|i: int| 0 <= i < hs.len() ==> (#[trigger] headers@[i])@ == hs[i],
                forall|i: int| 0 <= i < hs.len() ==> (#[trigger] hs[i]).wf(),
                ev.wf(),
                entry@ == ev,
                self.cache_m() == integrate_group_m(old(self).cache_m(), hs, idx as int),
                self.cache_e() == put_group_fold(old(self).cache_e(), hs, ev, idx as int),
                self.vault_e() == old(self).vault_e(),
                self.vault_m() == old(self).vault_m(),
                self.net() == old(self).net(),
                self.wf(),
            decreases headers@.len() - idx,
        {
            let shh = headers[idx].clone();
            self.register_element_meta(&shh);
            proof {
                crate::element_buf::lemma_buf_put_wf(self.cache_e(), shh@, Some(entry@));
            }
            self.element_cache.put(shh, Some(entry.clone()));
            idx += 1;
        }
    }

    /// Fetches the element at a header address from remote authorities and
    /// merges every answer into the cache. A transport failure leaves the
    /// cache untouched and is propagated.
    fn fetch_element_via_header(&mut self, hash: &HoloHash, options: &GetOptions) -> (r:
        CascadeResult<()>)
        requires
            old(self).wf(),
        ensures
            final(self).wf(),
            final(self).vault_e() == old(self).vault_e(),
            final(self).vault_m() == old(self).vault_m(),
            net_stable(old(self).net(), final(self).net()),
            final(self).net().call_count() == old(self).net().call_count() + 1,
            !old(self).net().get_ok(hash@) ==> (r matches Err(CascadeError::Transport(_)))
                && final(self).cache_m() == old(self).cache_m() && final(self).cache_e() == old(
                self,
            ).cache_e(),
            old(self).net().get_ok(hash@) ==> r is Ok && final(self).cache_m()
                == merge_header_resps_m(
                old(self).cache_m(),
                old(self).net().elements_for(hash@),
                old(self).net().elements_for(hash@).len() as int,
            ) && final(self).cache_e() == merge_header_resps_e(
                old(self).cache_e(),
                old(self).net().elements_for(hash@),
                old(self).net().elements_for(hash@).len() as int,
            ),
    {
        let results = match self.network.get(hash, options) {
            Ok(v) => v,
            Err(e) => {
                return Err(CascadeError::Transport(e));
            },
        };
        let ghost rs = old(self).net().elements_for(hash@);
        let mut i: usize = 0;
        while i < results.len()
            invariant
                i <= results@.len(),
                rs == crate::net::resp_views(results@),
                self.wf(),
                self.cache_m() == merge_header_resps_m(old(self).cache_m(), rs, i as int),
                self.cache_e() == merge_header_resps_e(old(self).cache_e(), rs, i as int),
                self.vault_e() == old(self).vault_e(),
                self.vault_m() == old(self).vault_m(),
                net_stable(old(self).net(), self.net()),
                self.net().call_count() == old(self).net().call_count() + 1,
            decreases results@.len() - i,
        {
            proof {
                assert(rs[i as int] == results@[i as int]@);
            }
            match &results[i] {
                GetElementResponse::GetHeader(Some(we)) => {
                    if we.signed_header.header.wf_check() {
                        let shh = SignedHeaderHashed::from_content_sync(we.signed_header.clone());
                        let entry = match &we.entry {
                            Some(e) => {
                                if e.wf_check() {
                                    let ehash = crate::entry::hash_entry(e);
                                    match shh.header().entry_hash() {
                                        Some(hh) => {
                                            if hh.same(&ehash) {
                                                Some(e.clone())
                                            } else {
                                                None
                                            }
                                        },
                                        None => None,
                                    }
                                } else {
                                    None
                                }
                            },
                            None => None,
                        };
                        let element = Element::new(shh, entry);
                        proof {
                            assert(element@ =~= wire_element_of(we@));
                        }
                        self.update_stores(element);
                        match &we.deleted {
                            Some(d) => {
                                if d.header.wf_check() {
                                    let shh_d = SignedHeaderHashed::from_content_sync(d.clone());
                                    let del_element = Element::new(shh_d, None);
                                    proof {
                                        assert(del_element@ =~= bare_element_of(d@));
                                    }
                                    self.update_stores(del_element);
                                }
                            },
                            None => {},
                        }
                    }
                },
                _ => {
                    // An answer of the wrong shape for a header request:
                    // ignored, the remaining answers still merge.
                },
            }
            proof {
                assert(self.cache_m() == merge_header_resps_m(old(self).cache_m(), rs, i + 1));
                assert(self.cache_e() == merge_header_resps_e(old(self).cache_e(), rs, i + 1));
            }
            i += 1;
        }
        Ok(())
    }

    /// Fetches the element data for an entry address from remote
    /// authorities and merges every answer into the cache: the header
    /// group, then the deletes, then the updates of each answer.
    fn fetch_element_via_entry(&mut self, hash: &HoloHash, options: &GetOptions) -> (r:
        CascadeResult<()>)
        requires
            old(self).wf(),
        ensures
            final(self).wf(),
            final(self).vault_e() == old(self).vault_e(),
            final(self).vault_m() == old(self).vault_m(),
            net_stable(old(self).net(), final(self).net()),
            final(self).net().call_count() == old(self).net().call_count() + 1,
            !old(self).net().get_ok(hash@) ==> (r matches Err(CascadeError::Transport(_)))
                && final(self).cache_m() == old(self).cache_m() && final(self).cache_e() == old(
                self,
            ).cache_e(),
            old(self).net().get_ok(hash@) ==> r is Ok && final(self).cache_m()
                == merge_entry_resps_m(
                old(self).cache_m(),
                old(self).net().elements_for(hash@),
                old(self).net().elements_for(hash@).len() as int,
            ) && final(self).cache_e() == merge_entry_resps_e(
                old(self).cache_e(),
                old(self).net().elements_for(hash@),
                old(self).net().elements_for(hash@).len() as int,
            ),
    {
        let results = match self.network.get(hash, options) {
            Ok(v) => v,
            Err(e) => {
                return Err(CascadeError::Transport(e));
            },
        };
        let ghost rs = old(self).net().elements_for(hash@);
        let mut i: usize = 0;
        while i < results.len()
            invariant
                i <= results@.len(),
                rs == crate::net::resp_views(results@),
                self.wf(),
                self.cache_m() == merge_entry_resps_m(old(self).cache_m(), rs, i as int),
                self.cache_e() == merge_entry_resps_e(old(self).cache_e(), rs, i as int),
                self.vault_e() == old(self).vault_e(),
                self.vault_m() == old(self).vault_m(),
                net_stable(old(self).net(), self.net()),
                self.net().call_count() == old(self).net().call_count() + 1,
            decreases results@.len() - i,
        {
            proof {
                assert(rs[i as int] == results@[i as int]@);
            }
            match &results[i] {
                GetElementResponse::GetEntryFull(Some(raw)) => {
                    if raw.entry.wf_check() {
                        let live = crate::net::clone_signed_headers(&raw.live_headers);
                        let elements = ElementGroup::from_wire_elements(live, raw.entry.clone());
                        self.update_stores_with_element_group(elements);
                        self.merge_bare_headers(&raw.deletes);
                        self.merge_bare_headers(&raw.updates);
                    }
                },
                _ => {
                    // An answer of the wrong shape for an entry request:
                    // ignored, the remaining answers still merge.
                },
            }
            proof {
                assert(self.cache_m() == merge_entry_resps_m(old(self).cache_m(), rs, i + 1));
                assert(self.cache_e() == merge_entry_resps_e(old(self).cache_e(), rs, i + 1));
            }
            i += 1;
        }
        Ok(())
    }

    /// Merges a run of bare signed wire headers (deletes or updates that
    /// arrived with an entry answer) into the cache.
    fn merge_bare_headers(&mut self, shs: &Vec<SignedHeader>)
        requires
            old(self).wf(),
        ensures
            final(self).wf(),
            final(self).cache_m() == merge_shs_m(
                old(self).cache_m(),
                crate::element::sh_views(shs@),
                shs@.len() as int,
            ),
            final(self).cache_e() == merge_shs_e(
                old(self).cache_e(),
                crate::element::sh_views(shs@),
                shs@.len() as int,
            ),
            final(self).vault_e() == old(self).vault_e(),
            final(self).vault_m() == old(self).vault_m(),
            final(self).net() == old(self).net(),
    {
        let ghost svs = crate::element::sh_views(shs@);
        let mut k: usize = 0;
        while k < shs.len()
            invariant
                k <= shs@.len(),
                svs == crate::element::sh_views(shs@),
                self.wf(),
                self.cache_m() == merge_shs_m(old(self).cache_m(), svs, k as int),
                self.cache_e() == merge_shs_e(old(self).cache_e(), svs, k as int),
                self.vault_e() == old(self).vault_e(),
                self.vault_m() == old(self).vault_m(),
                self.net() == old(self).net(),
            decreases shs@.len() - k,
        {
            proof {
                assert(svs[k as int] == shs@[k as int]@);
            }
            if shs[k].header.wf_check() {
                let shh = SignedHeaderHashed::from_content_sync(shs[k].clone());
                let element = Element::new(shh, None);
                proof {
                    assert(element@ =~= bare_element_of(svs[k as int]));
                }
                self.update_stores(element);
            }
            k += 1;
        }
    }
}


/// Whether returning the element under this header is justified: the
/// header itself was validated and stored, or (for entry-bearing headers)
/// the specific (entry, header) pairing was.
pub open spec fn valid_element_spec(
    vm: MetaV,
    cm: MetaV,
    header_hash: HashV,
    entry_hash: Option<HashV>,
) -> bool {
    ||| vm.store_elements.contains(header_hash)
    ||| cm.store_elements.contains(header_hash)
    ||| (entry_hash matches Some(e) && (cm.store_entries.contains((e, header_hash))
        || vm.store_entries.contains((e, header_hash))))
}

/// The entry address a header commits, if any.
pub open spec fn entry_hash_opt(h: HeaderV) -> Option<HashV> {
    match h.entry_data() {
        Some(d) => Some(d.0),
        None => None,
    }
}

/// The locally resolvable element at a header address: vault first, then
/// cache, surfaced only with a valid reason.
#[verifier::opaque]
pub open spec fn local_element(
    ve: ElementBufV,
    vm: MetaV,
    ce: ElementBufV,
    cm: MetaV,
    hash: HashV,
) -> Option<ElementV> {
    let r = match buf_get_element(ve, hash) {
        None => buf_get_element(ce, hash),
        Some(el) => Some(el),
    };
    match r {
        Some(el) => if valid_element_spec(vm, cm, el.hash, entry_hash_opt(el.header)) {
            Some(el)
        } else {
            None
        },
        None => None,
    }
}

/// Whether any validated (entry, header) pairing exists for the entry.
pub open spec fn any_store_entry(m: MetaV, e: HashV) -> bool {
    exists|i: int| 0 <= i < m.store_entries.len() && (#[trigger] m.store_entries[i]).0 == e
}

/// The locally resolvable entry at an entry address: vault first, then
/// cache, surfaced only when some new-entry pairing was validated.
pub open spec fn local_entry(
    ve: ElementBufV,
    vm: MetaV,
    ce: ElementBufV,
    cm: MetaV,
    hash: HashV,
) -> Option<crate::element::EntryHashedV> {
    let r = match crate::element_buf::find_entry(ve.entries, hash) {
        None => crate::element_buf::find_entry(ce.entries, hash),
        Some(e) => Some(e),
    };
    match r {
        Some(e) => if any_store_entry(cm, hash) || any_store_entry(vm, hash) {
            Some(e)
        } else {
            None
        },
        None => None,
    }
}

/// The locally resolvable signed header at a header address: vault first,
/// then cache, surfaced only with a valid reason.
pub open spec fn local_header(
    ve: ElementBufV,
    vm: MetaV,
    ce: ElementBufV,
    cm: MetaV,
    hash: HashV,
) -> Option<SignedHeaderHashedV> {
    let r = match crate::element_buf::find_header(ve.headers, hash) {
        None => crate::element_buf::find_header(ce.headers, hash),
        Some(h) => Some(h),
    };
    match r {
        Some(h) => if valid_element_spec(vm, cm, h.hash, entry_hash_opt(h.header)) {
            Some(h)
        } else {
            None
        },
        None => None,
    }
}

/// The resolvable element of the latest candidate in an ordered run:
/// candidates are tried from the top of the run downwards.
pub open spec fn newest_resolvable(
    ve: ElementBufV,
    vm: MetaV,
    ce: ElementBufV,
    cm: MetaV,
    s: Seq<ThhV>,
    j: int,
) -> Option<ElementV>
    decreases j,
{
    if j <= 0 {
        None
    } else {
        match local_element(ve, vm, ce, cm, s[j - 1].header_hash) {
            Some(el) => Some(el),
            None => newest_resolvable(ve, vm, ce, cm, s, j - 1),
        }
    }
}

/// The locally resolvable element for an entry: the headers known for
/// the entry in cache and vault, ordered ascending by (timestamp, header
/// hash) and walked newest-first; the first one whose element resolves
/// wins.
pub open spec fn local_via_entry(
    ve: ElementBufV,
    vm: MetaV,
    ce: ElementBufV,
    cm: MetaV,
    e: HashV,
) -> Option<ElementV> {
    let combined = select_thh(cm.headers_on_entry, e, cm.headers_on_entry.len() as int)
        + select_thh(vm.headers_on_entry, e, vm.headers_on_entry.len() as int);
    let hs = crate::time::sort_thhs(combined, combined.len() as int);
    newest_resolvable(ve, vm, ce, cm, hs, hs.len() as int)
}

/// The headers among the first `j` candidates that have no delete
/// registered in the store, in order.
pub open spec fn filter_live(cm: MetaV, s: Seq<ThhV>, j: int) -> Seq<ThhV>
    decreases j,
{
    if j <= 0 {
        Seq::empty()
    } else {
        let p = filter_live(cm, s, j - 1);
        if !crate::metadata::has_delete_on_header(cm, s[j - 1].header_hash) {
            p.push(s[j - 1])
        } else {
            p
        }
    }
}

/// The store's undeleted new-entry headers for an entry, in registration
/// order.
pub open spec fn live_list(cm: MetaV, e: HashV) -> Seq<ThhV> {
    let hs = select_thh(cm.headers_on_entry, e, cm.headers_on_entry.len() as int);
    filter_live(cm, hs, hs.len() as int)
}

/// The minimum of the first `j` candidates under the timed-header order,
/// taking the later candidate on ties.
pub open spec fn min_thh_pre(s: Seq<ThhV>, j: int) -> ThhV
    decreases j,
{
    if j <= 1 {
        s[0]
    } else {
        let m = min_thh_pre(s, j - 1);
        if thh_le(s[j - 1], m) {
            s[j - 1]
        } else {
            m
        }
    }
}

/// The oldest undeleted header of a live entry: minimal (timestamp,
/// header hash) among the undeleted headers.
pub open spec fn oldest_live(cm: MetaV, e: HashV) -> ThhV {
    let l = live_list(cm, e);
    min_thh_pre(l, l.len() as int)
}

/// What stands in the filtered live run: exactly the undeleted candidates.
pub proof fn lemma_filter_live_props(cm: MetaV, s: Seq<ThhV>, j: int)
    requires
        0 <= j <= s.len(),
    ensures
        forall|t: ThhV| #[trigger] filter_live(cm, s, j).contains(t) ==> s.contains(t)
            && !crate::metadata::has_delete_on_header(cm, t.header_hash),
        forall|k: int|
            0 <= k < j && !crate::metadata::has_delete_on_header(
                cm,
                (#[trigger] s[k]).header_hash,
            ) ==> filter_live(cm, s, j).contains(s[k]),
    decreases j,
{
    if j > 0 {
        lemma_filter_live_props(cm, s, j - 1);
        let p = filter_live(cm, s, j - 1);
        let cur = filter_live(cm, s, j);
        if !crate::metadata::has_delete_on_header(cm, s[j - 1].header_hash) {
            assert(cur[p.len() as int] == s[j - 1]);
            assert forall|t: ThhV| #[trigger] cur.contains(t) implies s.contains(t)
                && !crate::metadata::has_delete_on_header(cm, t.header_hash) by {
                let i = choose|i: int| 0 <= i < cur.len() && cur[i] == t;
                if i < p.len() {
                    assert(p.contains(t));
                } else {
                    assert(t == s[j - 1]);
                }
            }
            assert forall|k: int|
                0 <= k < j && !crate::metadata::has_delete_on_header(
                    cm,
                    (#[trigger] s[k]).header_hash,
                ) implies cur.contains(s[k]) by {
                if k < j - 1 {
                    assert(p.contains(s[k]));
                    let i = choose|i: int| 0 <= i < p.len() && p[i] == s[k];
                    assert(cur[i] == s[k]);
                }
            }
        } else {
            assert(cur == p);
        }
    }
}

/// An entry's derived status is live exactly when its undeleted-header
/// run is nonempty.
pub proof fn lemma_live_list_status(cm: MetaV, e: HashV)
    ensures
        (derived_status(cm, e) == EntryDhtStatus::Live) == (live_list(cm, e).len() > 0),
{
    let hs = select_thh(cm.headers_on_entry, e, cm.headers_on_entry.len() as int);
    crate::metadata::lemma_select_thh_basis(
        cm.headers_on_entry,
        e,
        cm.headers_on_entry.len() as int,
    );
    lemma_filter_live_props(cm, hs, hs.len() as int);
    let l = live_list(cm, e);
    if crate::metadata::has_live_header(cm, e) {
        let i = choose|i: int|
            0 <= i < cm.headers_on_entry.len() && (#[trigger] cm.headers_on_entry[i]).0 == e
                && !crate::metadata::has_delete_on_header(
                cm,
                cm.headers_on_entry[i].1.header_hash,
            );
        assert(hs.contains(cm.headers_on_entry[i].1));
        let k = choose|k: int| 0 <= k < hs.len() && hs[k] == cm.headers_on_entry[i].1;
        assert(l.contains(hs[k]));
    }
    if l.len() > 0 {
        assert(l.contains(l[0]));
        let t = l[0];
        assert(hs.contains(t) && !crate::metadata::has_delete_on_header(cm, t.header_hash));
        assert(crate::metadata::has_pair(cm.headers_on_entry, e, t));
        let i = choose|i: int|
            0 <= i < cm.headers_on_entry.len() && cm.headers_on_entry[i] == (e, t);
        assert((cm.headers_on_entry[i]).0 == e);
        assert(crate::metadata::has_live_header(cm, e));
    }
}

/// The minimum of a nonempty prefix is in it and below every candidate.
pub proof fn lemma_min_thh_pre_props(s: Seq<ThhV>, j: int)
    requires
        1 <= j <= s.len(),
    ensures
        exists|i: int| 0 <= i < j && #[trigger] s[i] == min_thh_pre(s, j),
        forall|k: int| 0 <= k < j ==> thh_le(min_thh_pre(s, j), #[trigger] s[k]),
    decreases j,
{
    if j == 1 {
        assert(s[0] == min_thh_pre(s, 1));
        crate::time::lemma_thh_le_total(s[0], s[0]);
    } else {
        lemma_min_thh_pre_props(s, j - 1);
        let m = min_thh_pre(s, j - 1);
        let cur = min_thh_pre(s, j);
        crate::time::lemma_thh_le_total(s[j - 1], m);
        if thh_le(s[j - 1], m) {
            assert(s[j - 1] == cur);
            assert forall|k: int| 0 <= k < j implies thh_le(cur, #[trigger] s[k]) by {
                if k < j - 1 {
                    crate::time::lemma_thh_le_transitive(cur, m, s[k]);
                } else {
                    crate::time::lemma_thh_le_total(s[k], s[k]);
                }
            }
        } else {
            assert(cur == m);
            assert forall|k: int| 0 <= k < j implies thh_le(cur, #[trigger] s[k]) by {
                if k == j - 1 {
                }
            }
        }
    }
}

/// What one read leaves behind: whether it succeeded, what it found, the
/// cache stores it left, and how many network requests it took.
pub ghost struct GetOutcome {
    /// Whether the read succeeded (a transport failure is the only way it
    /// does not).
    pub ok: bool,
    /// The element found, if any.
    pub result: Option<ElementV>,
    /// The metadata cache after the read.
    pub cache_m: MetaV,
    /// The element cache after the read.
    pub cache_e: ElementBufV,
    /// How many network requests the read made.
    pub calls: nat,
}

/// Whether an executable read result matches an outcome: a failed read
/// carries the transport error, never any other kind.
pub open spec fn outcome_matches(r: CascadeResult<Option<Element>>, o: GetOutcome) -> bool {
    if o.ok {
        r matches Ok(x) && (match x {
            Some(el) => o.result matches Some(v) && el@ == v,
            None => o.result is None,
        })
    } else {
        r matches Err(CascadeError::Transport(_))
    }
}

/// The outcome of a header-address read: a header with any locally known
/// delete yields nothing without touching the network; otherwise the
/// remote answers merge into the cache, and the element is surfaced only
/// if the header is still undeleted afterwards and locally resolvable.
pub open spec fn get_header_outcome(
    ve: ElementBufV,
    vm: MetaV,
    ce: ElementBufV,
    cm: MetaV,
    ok: bool,
    rs: Seq<GetElementResponseV>,
    h: HashV,
) -> GetOutcome {
    if has_basis(cm.deletes_on_header, h) || has_basis(vm.deletes_on_header, h) {
        GetOutcome { ok: true, result: None, cache_m: cm, cache_e: ce, calls: 0 }
    } else if !ok {
        GetOutcome { ok: false, result: None, cache_m: cm, cache_e: ce, calls: 1 }
    } else {
        let mm = merge_header_resps_m(cm, rs, rs.len() as int);
        let me = merge_header_resps_e(ce, rs, rs.len() as int);
        if has_basis(mm.deletes_on_header, h) {
            GetOutcome { ok: true, result: None, cache_m: mm, cache_e: me, calls: 1 }
        } else {
            GetOutcome {
                ok: true,
                result: local_element(ve, vm, me, mm, h),
                cache_m: mm,
                cache_e: me,
                calls: 1,
            }
        }
    }
}

/// The outcome of an entry-address read: the remote answers merge into
/// the cache; a non-live entry yields nothing; a live one yields the
/// element of its oldest undeleted header, resolved locally or through
/// one more header-address read.
pub open spec fn get_entry_outcome<N: Network>(
    ve: ElementBufV,
    vm: MetaV,
    ce: ElementBufV,
    cm: MetaV,
    net: N,
    e: HashV,
) -> GetOutcome {
    if !net.get_ok(e) {
        GetOutcome { ok: false, result: None, cache_m: cm, cache_e: ce, calls: 1 }
    } else {
        let rs = net.elements_for(e);
        let mm = merge_entry_resps_m(cm, rs, rs.len() as int);
        let me = merge_entry_resps_e(ce, rs, rs.len() as int);
        if live_list(mm, e).len() == 0 {
            GetOutcome { ok: true, result: None, cache_m: mm, cache_e: me, calls: 1 }
        } else {
            let m = oldest_live(mm, e);
            match local_element(ve, vm, me, mm, m.header_hash) {
                Some(el) => GetOutcome {
                    ok: true,
                    result: Some(el),
                    cache_m: mm,
                    cache_e: me,
                    calls: 1,
                },
                None => {
                    let o2 = get_header_outcome(
                        ve,
                        vm,
                        me,
                        mm,
                        net.get_ok(m.header_hash),
                        net.elements_for(m.header_hash),
                        m.header_hash,
                    );
                    GetOutcome {
                        ok: o2.ok,
                        result: o2.result,
                        cache_m: o2.cache_m,
                        cache_e: o2.cache_e,
                        calls: 1 + o2.calls,
                    }
                },
            }
        }
    }
}

impl<N: Network> Cascade<N> {
    /// Whether the element under this header was validated and stored in
    /// the vault or the cache.
    fn valid_header(&self, hash: &HoloHash) -> (r: bool)
        ensures
            r == (self.vault_m().store_elements.contains(hash@)
                || self.cache_m().store_elements.contains(hash@)),
    {
        self.meta_vault.has_registered_store_element(hash)
            || self.meta_cache.has_registered_store_element(hash)
    }

    /// Whether any validated new-entry pairing exists for the entry, in
    /// the cache or the vault.
    fn valid_entry(&self, hash: &HoloHash) -> (r: bool)
        ensures
            r == (any_store_entry(self.cache_m(), hash@) || any_store_entry(
                self.vault_m(),
                hash@,
            )),
    {
        if self.meta_cache.has_any_registered_store_entry(hash) {
            return true;
        }
        if self.meta_vault.has_any_registered_store_entry(hash) {
            return true;
        }
        false
    }

    /// Whether there is a valid reason to return the element under this
    /// header from the cascade.
    fn valid_element(&self, header_hash: &HoloHash, entry_hash: Option<&HoloHash>) -> (r: bool)
        ensures
            r == valid_element_spec(
                self.vault_m(),
                self.cache_m(),
                header_hash@,
                match entry_hash {
                    Some(e) => Some(e@),
                    None => None,
                },
            ),
    {
        if self.valid_header(header_hash) {
            return true;
        }
        match entry_hash {
            Some(eh) => {
                if self.meta_cache.has_registered_store_entry(eh, header_hash) {
                    return true;
                }
                if self.meta_vault.has_registered_store_entry(eh, header_hash) {
                    return true;
                }
                false
            },
            None => false,
        }
    }

    /// The locally held element at a header address, surfaced only with a
    /// valid reason: vault first, then cache.
    fn get_element_local_raw(&self, hash: &HoloHash) -> (r: Option<Element>)
        ensures
            match local_element(self.vault_e(), self.vault_m(), self.cache_e(), self.cache_m(), hash@) {
                Some(x) => r matches Some(el) && el@ == x,
                None => r is None,
            },
            self.wf() ==> match r {
                Some(el) => el@.wf(),
                None => true,
            },
    {
        proof {
            reveal(local_element);
            crate::element_buf::lemma_buf_get_element_wf_if(self.vault_e(), hash@);
            crate::element_buf::lemma_buf_get_element_wf_if(self.cache_e(), hash@);
        }
        let found = match self.element_vault.get_element(hash) {
            None => self.element_cache.get_element(hash),
            Some(el) => Some(el),
        };
        match found {
            Some(el) => {
                let eh = el.header().entry_hash();
                if self.valid_element(el.header_address(), eh) {
                    Some(el)
                } else {
                    None
                }
            },
            None => None,
        }
    }

    /// The locally held entry at an entry address, surfaced only when a
    /// validated pairing exists: vault first, then cache.
    fn get_entry_local_raw(&self, hash: &HoloHash) -> (r: Option<EntryHashed>)
        ensures
            match local_entry(self.vault_e(), self.vault_m(), self.cache_e(), self.cache_m(), hash@) {
                Some(x) => r matches Some(e) && e@ == x,
                None => r is None,
            },
    {
        proof {
            crate::element_buf::lemma_find_entry_found_if(self.vault_e().entries, hash@);
            crate::element_buf::lemma_find_entry_found_if(self.cache_e().entries, hash@);
        }
        let found = match self.element_vault.get_entry(hash) {
            None => self.element_cache.get_entry(hash),
            Some(e) => Some(e),
        };
        match found {
            Some(e) => {
                if self.valid_entry(e.as_hash()) {
                    Some(e)
                } else {
                    None
                }
            },
            None => None,
        }
    }

    /// The locally held signed header at a header address, surfaced only
    /// with a valid reason: vault first, then cache.
    fn get_header_local_raw_with_sig(&self, hash: &HoloHash) -> (r: Option<SignedHeaderHashed>)
        ensures
            match local_header(self.vault_e(), self.vault_m(), self.cache_e(), self.cache_m(), hash@) {
                Some(x) => r matches Some(h) && h@ == x,
                None => r is None,
            },
    {
        let found = match self.element_vault.get_header(hash) {
            None => self.element_cache.get_header(hash),
            Some(h) => Some(h),
        };
        match found {
            Some(h) => {
                let eh = h.header().entry_hash();
                if self.valid_element(h.header_address(), eh) {
                    Some(h)
                } else {
                    None
                }
            },
            None => None,
        }
    }

    /// The element of the newest header known for this entry that is held
    /// locally: the union of the cache's and the vault's header
    /// registrations, ordered by (timestamp, header hash) and walked
    /// newest-first.
    #[verifier::rlimit(100)]
    #[verifier::loop_isolation(false)]
    fn get_element_local_raw_via_entry(&self, hash: &HoloHash) -> (r: Option<Element>)
        ensures
            match local_via_entry(self.vault_e(), self.vault_m(), self.cache_e(), self.cache_m(), hash@) {
                Some(x) => r matches Some(el) && el@ == x,
                None => r is None,
            },
    {
        let mut headers = self.meta_cache.get_headers(hash);
        let mut vault_headers = self.meta_vault.get_headers(hash);
        let ghost combined = crate::metadata::thh_views(headers@) + crate::metadata::thh_views(
            vault_headers@,
        );
        headers.append(&mut vault_headers);
        proof {
            assert(crate::metadata::thh_views(headers@) =~= combined);
        }
        let sorted = crate::metadata::sort_timed_headers(headers);
        let ghost hs = crate::metadata::thh_views(sorted@);
        let mut i: usize = sorted.len();
        while i > 0
            invariant
                i <= sorted@.len(),
                hs == crate::metadata::thh_views(sorted@),
                newest_resolvable(
                    self.vault_e(),
                    self.vault_m(),
                    self.cache_e(),
                    self.cache_m(),
                    hs,
                    hs.len() as int,
                ) == newest_resolvable(
                    self.vault_e(),
                    self.vault_m(),
                    self.cache_e(),
                    self.cache_m(),
                    hs,
                    i as int,
                ),
            decreases i,
        {
            proof {
                assert(hs[i - 1] == sorted@[i - 1]@);
            }
            match self.get_element_local_raw(&sorted[i - 1].header_hash) {
                Some(el) => {
                    return Some(el);
                },
                None => {},
            }
            i -= 1;
        }
        None
    }

    /// Returns the [`Element`] for this header address if it is live: a
    /// header with any locally known delete yields nothing without
    /// touching the network; otherwise the remote answers merge into the
    /// cache, and the element is surfaced only if the header is still
    /// undeleted and locally resolvable. Deleted headers are a tombstone
    /// set.
    pub fn dht_get_header(&mut self, header_hash: HoloHash, options: GetOptions) -> (r:
        CascadeResult<Option<Element>>)
        requires
            old(self).wf(),
        ensures
            final(self).wf(),
            final(self).vault_e() == old(self).vault_e(),
            final(self).vault_m() == old(self).vault_m(),
            net_stable(old(self).net(), final(self).net()),
            ({
                let o = get_header_outcome(
                    old(self).vault_e(),
                    old(self).vault_m(),
                    old(self).cache_e(),
                    old(self).cache_m(),
                    old(self).net().get_ok(header_hash@),
                    old(self).net().elements_for(header_hash@),
                    header_hash@,
                );
                &&& final(self).cache_m() == o.cache_m
                &&& final(self).cache_e() == o.cache_e
                &&& final(self).net().call_count() == old(self).net().call_count() + o.calls
                &&& outcome_matches(r, o)
            }),
    {
        let found_local_delete = self.meta_cache.has_delete_on_header(&header_hash)
            || self.meta_vault.has_delete_on_header(&header_hash);
        if found_local_delete {
            return Ok(None);
        }
        match self.fetch_element_via_header(&header_hash, &options) {
            Ok(()) => {},
            Err(e) => {
                return Err(e);
            },
        }
        let is_live = !self.meta_cache.has_delete_on_header(&header_hash);
        if is_live {
            Ok(self.get_element_local_raw(&header_hash))
        } else {
            Ok(None)
        }
    }

    /// Returns the oldest live [`Element`] for this entry address: the
    /// remote answers merge into the cache; a non-live entry yields
    /// nothing even when its bytes are held; a live one yields the
    /// element of the header with the minimal (timestamp, header hash)
    /// among the undeleted headers.
    pub fn dht_get_entry(&mut self, entry_hash: HoloHash, options: GetOptions) -> (r:
        CascadeResult<Option<Element>>)
        requires
            old(self).wf(),
        ensures
            final(self).wf(),
            final(self).vault_e() == old(self).vault_e(),
            final(self).vault_m() == old(self).vault_m(),
            net_stable(old(self).net(), final(self).net()),
            ({
                let o = get_entry_outcome(
                    old(self).vault_e(),
                    old(self).vault_m(),
                    old(self).cache_e(),
                    old(self).cache_m(),
                    old(self).net(),
                    entry_hash@,
                );
                &&& final(self).cache_m() == o.cache_m
                &&& final(self).cache_e() == o.cache_e
                &&& final(self).net().call_count() == old(self).net().call_count() + o.calls
                &&& outcome_matches(r, o)
            }),
    {
        match self.fetch_element_via_entry(&entry_hash, &options) {
            Ok(()) => {},
            Err(e) => {
                return Err(e);
            },
        }
        let status = self.meta_cache.get_dht_status(&entry_hash);
        proof {
            lemma_live_list_status(self.cache_m(), entry_hash@);
        }
        let search = match status {
            EntryDhtStatus::Live => {
                let headers = self.meta_cache.get_headers(&entry_hash);
                let ghost hsel = select_thh(
                    self.cache_m().headers_on_entry,
                    entry_hash@,
                    self.cache_m().headers_on_entry.len() as int,
                );
                let mut live: Vec<TimedHeaderHash> = Vec::new();
                let mut i: usize = 0;
                while i < headers.len()
                    invariant
                        i <= headers@.len(),
                        hsel == crate::metadata::thh_views(headers@),
                        crate::metadata::thh_views(live@) == filter_live(
                            self.cache_m(),
                            hsel,
                            i as int,
                        ),
                    decreases headers@.len() - i,
                {
                    let ghost before = crate::metadata::thh_views(live@);
                    proof {
                        assert(hsel[i as int] == headers@[i as int]@);
                    }
                    if !self.meta_cache.has_delete_on_header(&headers[i].header_hash) {
                        live.push(headers[i].clone());
                        proof {
                            assert(crate::metadata::thh_views(live@) =~= before.push(
                                hsel[i as int],
                            ));
                        }
                    }
                    i += 1;
                }
                let ghost lv = live_list(self.cache_m(), entry_hash@);
                proof {
                    assert(crate::metadata::thh_views(live@) == lv);
                    assert(lv.len() > 0);
                }
                // Status is live, so an undeleted header exists: pick the
                // oldest.
                let mut oldest = live[0].clone();
                let mut k: usize = 1;
                while k < live.len()
                    invariant
                        1 <= k <= live@.len(),
                        lv == crate::metadata::thh_views(live@),
                        lv.len() == live@.len(),
                        oldest@ == min_thh_pre(lv, k as int),
                    decreases live@.len() - k,
                {
                    proof {
                        assert(lv[k as int] == live@[k as int]@);
                    }
                    if live[k].le(&oldest) {
                        oldest = live[k].clone();
                    }
                    k += 1;
                }
                proof {
                    assert(oldest@ == oldest_live(self.cache_m(), entry_hash@));
                }
                match self.get_element_local_raw(&oldest.header_hash) {
                    Some(el) => Search::Found(el),
                    None => Search::Continue(oldest.header_hash),
                }
            },
            EntryDhtStatus::Dead
            | EntryDhtStatus::Pending
            | EntryDhtStatus::Rejected
            | EntryDhtStatus::Abandoned
            | EntryDhtStatus::Conflict
            | EntryDhtStatus::Withdrawn
            | EntryDhtStatus::Purged => Search::NotInCascade,
        };
        match search {
            Search::Found(element) => Ok(Some(element)),
            Search::Continue(oldest_live_header) => self.dht_get_header(
                oldest_live_header,
                options,
            ),
            Search::NotInCascade => Ok(None),
        }
    }
}


impl<N: Network> Cascade<N> {
    /// Gets the entry from the DHT regardless of metadata: whatever is
    /// found locally is returned as it stands; the network is asked only
    /// when nothing is held locally. No liveness filtering applies.
    pub fn retrieve_entry(&mut self, hash: HoloHash, options: GetOptions) -> (r: CascadeResult<
        Option<EntryHashed>,
    >)
        requires
            old(self).wf(),
        ensures
            final(self).wf(),
            final(self).vault_e() == old(self).vault_e(),
            final(self).vault_m() == old(self).vault_m(),
            net_stable(old(self).net(), final(self).net()),
            ({
                let le0 = local_entry(
                    old(self).vault_e(),
                    old(self).vault_m(),
                    old(self).cache_e(),
                    old(self).cache_m(),
                    hash@,
                );
                if le0 is Some {
                    &&& final(self).cache_m() == old(self).cache_m()
                    &&& final(self).cache_e() == old(self).cache_e()
                    &&& final(self).net().call_count() == old(self).net().call_count()
                    &&& r matches Ok(x) && (x matches Some(e) && Some(e@) == le0)
                } else if !old(self).net().get_ok(hash@) {
                    &&& final(self).cache_m() == old(self).cache_m()
                    &&& final(self).cache_e() == old(self).cache_e()
                    &&& final(self).net().call_count() == old(self).net().call_count() + 1
                    &&& r matches Err(CascadeError::Transport(_))
                } else {
                    let rs = old(self).net().elements_for(hash@);
                    let mm = merge_entry_resps_m(old(self).cache_m(), rs, rs.len() as int);
                    let me = merge_entry_resps_e(old(self).cache_e(), rs, rs.len() as int);
                    let le1 = local_entry(old(self).vault_e(), old(self).vault_m(), me, mm, hash@);
                    &&& final(self).cache_m() == mm
                    &&& final(self).cache_e() == me
                    &&& final(self).net().call_count() == old(self).net().call_count() + 1
                    &&& r matches Ok(x) && (match x {
                        Some(e) => le1 matches Some(v) && e@ == v,
                        None => le1 is None,
                    })
                }
            }),
    {
        match self.get_entry_local_raw(&hash) {
            Some(e) => Ok(Some(e)),
            None => {
                match self.fetch_element_via_entry(&hash, &options) {
                    Ok(()) => {},
                    Err(e) => {
                        return Err(e);
                    },
                }
                Ok(self.get_entry_local_raw(&hash))
            },
        }
    }

    /// Gets only the signed header from the DHT regardless of metadata:
    /// whatever is found locally is returned as it stands; the network is
    /// asked only when nothing is held locally.
    pub fn retrieve_header(&mut self, hash: HoloHash, options: GetOptions) -> (r: CascadeResult<
        Option<SignedHeaderHashed>,
    >)
        requires
            old(self).wf(),
        ensures
            final(self).wf(),
            final(self).vault_e() == old(self).vault_e(),
            final(self).vault_m() == old(self).vault_m(),
            net_stable(old(self).net(), final(self).net()),
            ({
                let lh0 = local_header(
                    old(self).vault_e(),
                    old(self).vault_m(),
                    old(self).cache_e(),
                    old(self).cache_m(),
                    hash@,
                );
                if lh0 is Some {
                    &&& final(self).cache_m() == old(self).cache_m()
                    &&& final(self).cache_e() == old(self).cache_e()
                    &&& final(self).net().call_count() == old(self).net().call_count()
                    &&& r matches Ok(x) && (x matches Some(h) && Some(h@) == lh0)
                } else if !old(self).net().get_ok(hash@) {
                    &&& final(self).cache_m() == old(self).cache_m()
                    &&& final(self).cache_e() == old(self).cache_e()
                    &&& final(self).net().call_count() == old(self).net().call_count() + 1
                    &&& r matches Err(CascadeError::Transport(_))
                } else {
                    let rs = old(self).net().elements_for(hash@);
                    let mm = merge_header_resps_m(old(self).cache_m(), rs, rs.len() as int);
                    let me = merge_header_resps_e(old(self).cache_e(), rs, rs.len() as int);
                    let lh1 = local_header(old(self).vault_e(), old(self).vault_m(), me, mm, hash@);
                    &&& final(self).cache_m() == mm
                    &&& final(self).cache_e() == me
                    &&& final(self).net().call_count() == old(self).net().call_count() + 1
                    &&& r matches Ok(x) && (match x {
                        Some(h) => lh1 matches Some(v) && h@ == v,
                        None => lh1 is None,
                    })
                }
            }),
    {
        match self.get_header_local_raw_with_sig(&hash) {
            Some(h) => Ok(Some(h)),
            None => {
                match self.fetch_element_via_header(&hash, &options) {
                    Ok(()) => {},
                    Err(e) => {
                        return Err(e);
                    },
                }
                Ok(self.get_header_local_raw_with_sig(&hash))
            },
        }
    }

    /// Gets an element from the DHT regardless of metadata, dispatching on
    /// the role carried by the address: proof of possession, not a
    /// CRUD-correct view. The network is asked only when nothing is held
    /// locally.
    pub fn retrieve(&mut self, hash: HoloHash, options: GetOptions) -> (r: CascadeResult<
        Option<Element>,
    >)
        requires
            old(self).wf(),
            hash@.role == HashRole::Entry || hash@.role == HashRole::Header,
        ensures
            final(self).wf(),
            final(self).vault_e() == old(self).vault_e(),
            final(self).vault_m() == old(self).vault_m(),
            net_stable(old(self).net(), final(self).net()),
            hash@.role == HashRole::Entry ==> ({
                let le0 = local_via_entry(
                    old(self).vault_e(),
                    old(self).vault_m(),
                    old(self).cache_e(),
                    old(self).cache_m(),
                    hash@,
                );
                if le0 is Some {
                    &&& final(self).cache_m() == old(self).cache_m()
                    &&& final(self).cache_e() == old(self).cache_e()
                    &&& final(self).net().call_count() == old(self).net().call_count()
                    &&& r matches Ok(x) && (x matches Some(el) && Some(el@) == le0)
                } else if !old(self).net().get_ok(hash@) {
                    &&& final(self).cache_m() == old(self).cache_m()
                    &&& final(self).cache_e() == old(self).cache_e()
                    &&& final(self).net().call_count() == old(self).net().call_count() + 1
                    &&& r matches Err(CascadeError::Transport(_))
                } else {
                    let rs = old(self).net().elements_for(hash@);
                    let mm = merge_entry_resps_m(old(self).cache_m(), rs, rs.len() as int);
                    let me = merge_entry_resps_e(old(self).cache_e(), rs, rs.len() as int);
                    let le1 = local_via_entry(
                        old(self).vault_e(),
                        old(self).vault_m(),
                        me,
                        mm,
                        hash@,
                    );
                    &&& final(self).cache_m() == mm
                    &&& final(self).cache_e() == me
                    &&& final(self).net().call_count() == old(self).net().call_count() + 1
                    &&& r matches Ok(x) && (match x {
                        Some(el) => le1 matches Some(v) && el@ == v,
                        None => le1 is None,
                    })
                }
            }),
            hash@.role == HashRole::Header ==> ({
                let le0 = local_element(
                    old(self).vault_e(),
                    old(self).vault_m(),
                    old(self).cache_e(),
                    old(self).cache_m(),
                    hash@,
                );
                if le0 is Some {
                    &&& final(self).cache_m() == old(self).cache_m()
                    &&& final(self).cache_e() == old(self).cache_e()
                    &&& final(self).net().call_count() == old(self).net().call_count()
                    &&& r matches Ok(x) && (x matches Some(el) && Some(el@) == le0)
                } else if !old(self).net().get_ok(hash@) {
                    &&& final(self).cache_m() == old(self).cache_m()
                    &&& final(self).cache_e() == old(self).cache_e()
                    &&& final(self).net().call_count() == old(self).net().call_count() + 1
                    &&& r matches Err(CascadeError::Transport(_))
                } else {
                    let rs = old(self).net().elements_for(hash@);
                    let mm = merge_header_resps_m(old(self).cache_m(), rs, rs.len() as int);
                    let me = merge_header_resps_e(old(self).cache_e(), rs, rs.len() as int);
                    let le1 = local_element(old(self).vault_e(), old(self).vault_m(), me, mm, hash@);
                    &&& final(self).cache_m() == mm
                    &&& final(self).cache_e() == me
                    &&& final(self).net().call_count() == old(self).net().call_count() + 1
                    &&& r matches Ok(x) && (match x {
                        Some(el) => le1 matches Some(v) && el@ == v,
                        None => le1 is None,
                    })
                }
            }),
    {
        if hash.has_role(HashRole::Entry) {
            match self.get_element_local_raw_via_entry(&hash) {
                Some(e) => Ok(Some(e)),
                None => {
                    match self.fetch_element_via_entry(&hash, &options) {
                        Ok(()) => {},
                        Err(e) => {
                            return Err(e);
                        },
                    }
                    Ok(self.get_element_local_raw_via_entry(&hash))
                },
            }
        } else {
            match self.get_element_local_raw(&hash) {
                Some(e) => Ok(Some(e)),
                None => {
                    match self.fetch_element_via_header(&hash, &options) {
                        Ok(()) => {},
                        Err(e) => {
                            return Err(e);
                        },
                    }
                    Ok(self.get_element_local_raw(&hash))
                },
            }
        }
    }

    /// Updates the cache with the latest remote authority data for an
    /// address and returns what the cascade then holds: the latest
    /// possible picture of the current DHT state. Dispatches to the entry
    /// or header path by the role carried in the address.
    pub fn dht_get(&mut self, hash: HoloHash, options: GetOptions) -> (r: CascadeResult<
        Option<Element>,
    >)
        requires
            old(self).wf(),
            hash@.role == HashRole::Entry || hash@.role == HashRole::Header,
        ensures
            final(self).wf(),
            final(self).vault_e() == old(self).vault_e(),
            final(self).vault_m() == old(self).vault_m(),
            net_stable(old(self).net(), final(self).net()),
            hash@.role == HashRole::Entry ==> ({
                let o = get_entry_outcome(
                    old(self).vault_e(),
                    old(self).vault_m(),
                    old(self).cache_e(),
                    old(self).cache_m(),
                    old(self).net(),
                    hash@,
                );
                &&& final(self).cache_m() == o.cache_m
                &&& final(self).cache_e() == o.cache_e
                &&& final(self).net().call_count() == old(self).net().call_count() + o.calls
                &&& outcome_matches(r, o)
            }),
            hash@.role == HashRole::Header ==> ({
                let o = get_header_outcome(
                    old(self).vault_e(),
                    old(self).vault_m(),
                    old(self).cache_e(),
                    old(self).cache_m(),
                    old(self).net().get_ok(hash@),
                    old(self).net().elements_for(hash@),
                    hash@,
                );
                &&& final(self).cache_m() == o.cache_m
                &&& final(self).cache_e() == o.cache_e
                &&& final(self).net().call_count() == old(self).net().call_count() + o.calls
                &&& outcome_matches(r, o)
            }),
    {
        if hash.has_role(HashRole::Entry) {
            self.dht_get_entry(hash, options)
        } else {
            self.dht_get_header(hash, options)
        }
    }
}


/// Whether a run of link-add records holds one at the given address.
pub open spec fn has_link_hash(s: Seq<LinkMetaV>, h: HashV) -> bool {
    exists|i: int| 0 <= i < s.len() && (#[trigger] s[i]).link_add_hash == h
}

/// Appends the first `j` of a run of link-add records, skipping those
/// whose address is already represented.
pub open spec fn dedup_links(acc: Seq<LinkMetaV>, s: Seq<LinkMetaV>, j: int) -> Seq<LinkMetaV>
    decreases j,
{
    if j <= 0 {
        acc
    } else {
        let p = dedup_links(acc, s, j - 1);
        if has_link_hash(p, s[j - 1].link_add_hash) {
            p
        } else {
            p.push(s[j - 1])
        }
    }
}

/// Whether any link-remove is registered against the link-add, in either
/// store.
pub open spec fn link_removed(vm: MetaV, cm: MetaV, l: LinkMetaV) -> bool {
    has_basis(cm.link_removes, l.link_add_hash) || has_basis(vm.link_removes, l.link_add_hash)
}

/// The first `j` link-add records with zero registered removes, in order.
pub open spec fn filter_live_links(vm: MetaV, cm: MetaV, s: Seq<LinkMetaV>, j: int) -> Seq<
    LinkMetaV,
>
    decreases j,
{
    if j <= 0 {
        Seq::empty()
    } else {
        let p = filter_live_links(vm, cm, s, j - 1);
        if !link_removed(vm, cm, s[j - 1]) {
            p.push(s[j - 1])
        } else {
            p
        }
    }
}

/// The caller-facing links of the first `j` records.
pub open spec fn links_of(s: Seq<LinkMetaV>, j: int) -> Seq<crate::metadata::LinkV>
    decreases j,
{
    if j <= 0 {
        Seq::empty()
    } else {
        links_of(s, j - 1).push(crate::metadata::link_of_meta(s[j - 1]))
    }
}

/// The live links under a key: the creates with zero registered removes,
/// sourced first from the cache and then from the vault, deduplicated by
/// link-add address, with removes counted across both stores.
pub open spec fn live_links_list(vm: MetaV, cm: MetaV, k: LinkMetaKeyV) -> Seq<
    crate::metadata::LinkV,
> {
    let ca = select_links(cm.link_adds, k, cm.link_adds.len() as int);
    let va = select_links(vm.link_adds, k, vm.link_adds.len() as int);
    let all = dedup_links(ca, va, va.len() as int);
    let live = filter_live_links(vm, cm, all, all.len() as int);
    links_of(live, live.len() as int)
}

/// The view of a vector of links.
pub open spec fn link_views(s: Seq<Link>) -> Seq<crate::metadata::LinkV> {
    Seq::new(s.len(), |i: int| s[i]@)
}

/// The headers of the first `j` candidates that resolve locally, in
/// order.
pub open spec fn render_headers_f(
    ve: ElementBufV,
    vm: MetaV,
    ce: ElementBufV,
    cm: MetaV,
    s: Seq<ThhV>,
    j: int,
) -> Seq<HeaderV>
    decreases j,
{
    if j <= 0 {
        Seq::empty()
    } else {
        let p = render_headers_f(ve, vm, ce, cm, s, j - 1);
        match local_header(ve, vm, ce, cm, s[j - 1].header_hash) {
            Some(h) => p.push(h.header),
            None => p,
        }
    }
}

/// The deletes of the first `j` candidates that resolve locally: a
/// resolvable candidate of another header kind is a conversion failure.
pub open spec fn render_deletes_f(
    ve: ElementBufV,
    vm: MetaV,
    ce: ElementBufV,
    cm: MetaV,
    s: Seq<ThhV>,
    j: int,
) -> Option<Seq<crate::header::DeleteV>>
    decreases j,
{
    if j <= 0 {
        Some(Seq::empty())
    } else {
        match render_deletes_f(ve, vm, ce, cm, s, j - 1) {
            None => None,
            Some(p) => match local_header(ve, vm, ce, cm, s[j - 1].header_hash) {
                Some(h) => match h.header {
                    HeaderV::Delete(d) => Some(p.push(d)),
                    _ => None,
                },
                None => Some(p),
            },
        }
    }
}

/// The updates of the first `j` candidates that resolve locally: a
/// resolvable candidate of another header kind is a conversion failure.
pub open spec fn render_updates_f(
    ve: ElementBufV,
    vm: MetaV,
    ce: ElementBufV,
    cm: MetaV,
    s: Seq<ThhV>,
    j: int,
) -> Option<Seq<crate::header::UpdateV>>
    decreases j,
{
    if j <= 0 {
        Some(Seq::empty())
    } else {
        match render_updates_f(ve, vm, ce, cm, s, j - 1) {
            None => None,
            Some(p) => match local_header(ve, vm, ce, cm, s[j - 1].header_hash) {
                Some(h) => match h.header {
                    HeaderV::Update(u) => Some(p.push(u)),
                    _ => None,
                },
                None => Some(p),
            },
        }
    }
}

/// A conversion failure in a prefix stays a failure for the whole run.
pub proof fn lemma_render_deletes_none(
    ve: ElementBufV,
    vm: MetaV,
    ce: ElementBufV,
    cm: MetaV,
    s: Seq<ThhV>,
    j1: int,
    j2: int,
)
    requires
        0 <= j1 <= j2,
        render_deletes_f(ve, vm, ce, cm, s, j1) is None,
    ensures
        render_deletes_f(ve, vm, ce, cm, s, j2) is None,
    decreases j2 - j1,
{
    if j1 < j2 {
        lemma_render_deletes_none(ve, vm, ce, cm, s, j1, j2 - 1);
    }
}

/// A conversion failure in a prefix stays a failure for the whole run.
pub proof fn lemma_render_updates_none(
    ve: ElementBufV,
    vm: MetaV,
    ce: ElementBufV,
    cm: MetaV,
    s: Seq<ThhV>,
    j1: int,
    j2: int,
)
    requires
        0 <= j1 <= j2,
        render_updates_f(ve, vm, ce, cm, s, j1) is None,
    ensures
        render_updates_f(ve, vm, ce, cm, s, j2) is None,
    decreases j2 - j1,
{
    if j1 < j2 {
        lemma_render_updates_none(ve, vm, ce, cm, s, j1, j2 - 1);
    }
}

/// The local full CRUD view of an entry: nothing when the entry is not
/// locally resolvable; a conversion failure when a registered delete or
/// update resolves to a header of another kind.
pub open spec fn entry_details_outcome(
    ve: ElementBufV,
    vm: MetaV,
    ce: ElementBufV,
    cm: MetaV,
    e: HashV,
) -> Result<Option<crate::details::EntryDetailsV>, ()> {
    match local_entry(ve, vm, ce, cm, e) {
        None => Ok(None),
        Some(eh) => {
            let hs = select_thh(cm.headers_on_entry, e, cm.headers_on_entry.len() as int);
            let ds = select_thh(cm.deletes_on_entry, e, cm.deletes_on_entry.len() as int);
            let us = select_thh(cm.updates_on_entry, e, cm.updates_on_entry.len() as int);
            match render_deletes_f(ve, vm, ce, cm, ds, ds.len() as int) {
                None => Err(()),
                Some(deletes) => match render_updates_f(ve, vm, ce, cm, us, us.len() as int) {
                    None => Err(()),
                    Some(updates) => Ok(
                        Some(
                            crate::details::EntryDetailsV {
                                entry: eh.entry,
                                headers: render_headers_f(ve, vm, ce, cm, hs, hs.len() as int),
                                deletes,
                                updates,
                                entry_dht_status: derived_status(cm, e),
                            },
                        ),
                    ),
                },
            }
        },
    }
}

/// The local full CRUD view of a header: nothing when its element is not
/// locally resolvable; a conversion failure when a registered delete
/// resolves to a header of another kind.
pub open spec fn element_details_outcome(
    ve: ElementBufV,
    vm: MetaV,
    ce: ElementBufV,
    cm: MetaV,
    h: HashV,
) -> Result<Option<crate::details::ElementDetailsV>, ()> {
    match local_element(ve, vm, ce, cm, h) {
        None => Ok(None),
        Some(el) => {
            let ds = select_thh(cm.deletes_on_header, h, cm.deletes_on_header.len() as int);
            match render_deletes_f(ve, vm, ce, cm, ds, ds.len() as int) {
                None => Err(()),
                Some(deletes) => Ok(
                    Some(crate::details::ElementDetailsV { element: el, deletes }),
                ),
            }
        },
    }
}

/// The link-removes among the first `j` candidates that resolve locally
/// to a link-remove header; others are silently skipped.
pub open spec fn render_removes_f(
    ve: ElementBufV,
    vm: MetaV,
    ce: ElementBufV,
    cm: MetaV,
    s: Seq<ThhV>,
    j: int,
) -> Seq<crate::header::DeleteLinkV>
    decreases j,
{
    if j <= 0 {
        Seq::empty()
    } else {
        let p = render_removes_f(ve, vm, ce, cm, s, j - 1);
        match local_element(ve, vm, ce, cm, s[j - 1].header_hash) {
            Some(el) => match el.header {
                HeaderV::DeleteLink(dl) => p.push(dl),
                _ => p,
            },
            None => p,
        }
    }
}

/// The link details of the first `j` registered creates: each create that
/// resolves locally to a link-add header, paired with its resolvable
/// removes taken in ascending (timestamp, header hash) order; creates
/// that cannot be resolved are silently skipped, so one unresolvable
/// record cannot fail the whole listing.
pub open spec fn link_details_f(
    ve: ElementBufV,
    vm: MetaV,
    ce: ElementBufV,
    cm: MetaV,
    ls: Seq<LinkMetaV>,
    j: int,
) -> Seq<(crate::header::CreateLinkV, Seq<crate::header::DeleteLinkV>)>
    decreases j,
{
    if j <= 0 {
        Seq::empty()
    } else {
        let p = link_details_f(ve, vm, ce, cm, ls, j - 1);
        match local_element(ve, vm, ce, cm, ls[j - 1].link_add_hash) {
            Some(el) => match el.header {
                HeaderV::CreateLink(cl) => {
                    let regs = select_thh(
                        cm.link_removes,
                        ls[j - 1].link_add_hash,
                        cm.link_removes.len() as int,
                    );
                    let rems = crate::time::sort_thhs(regs, regs.len() as int);
                    p.push((cl, render_removes_f(ve, vm, ce, cm, rems, rems.len() as int)))
                },
                _ => p,
            },
            None => p,
        }
    }
}

/// The full link details under a key, read from the cache's
/// registrations, the creates ordered ascending by (timestamp, link-add
/// address).
pub open spec fn link_details_list(
    ve: ElementBufV,
    vm: MetaV,
    ce: ElementBufV,
    cm: MetaV,
    k: LinkMetaKeyV,
) -> Seq<(crate::header::CreateLinkV, Seq<crate::header::DeleteLinkV>)> {
    let sel = select_links(cm.link_adds, k, cm.link_adds.len() as int);
    let ls = crate::metadata::sort_links(sel, sel.len() as int);
    link_details_f(ve, vm, ce, cm, ls, ls.len() as int)
}

/// The view of a vector of link-removes.
pub open spec fn dl_views(s: Seq<crate::header::DeleteLink>) -> Seq<crate::header::DeleteLinkV> {
    Seq::new(s.len(), |i: int| s[i]@)
}

/// The view of a link-details listing.
pub open spec fn ld_views(s: Seq<(crate::header::CreateLink, Vec<crate::header::DeleteLink>)>) -> Seq<
    (crate::header::CreateLinkV, Seq<crate::header::DeleteLinkV>),
> {
    Seq::new(s.len(), |i: int| (s[i].0@, dl_views(s[i].1@)))
}

/// Fresh, empty stores for one cascade: a vault pair and a cache pair.
pub fn test_dbs_and_mocks() -> (r: (ElementBuf, MetadataBuf, ElementBuf, MetadataBuf))
    ensures
        r.0@.wf(),
        r.2@.wf(),
        r.0@.headers.len() == 0,
        r.0@.entries.len() == 0,
        r.2@.headers.len() == 0,
        r.2@.entries.len() == 0,
        crate::metadata::meta_empty(r.1@),
        crate::metadata::meta_empty(r.3@),
{
    (ElementBuf::new(), MetadataBuf::new(), ElementBuf::new(), MetadataBuf::new())
}

impl<N: Network> Cascade<N> {
    /// Whether a run of held link-add records contains the given address.
    fn contains_link_hash(v: &Vec<LinkMetaVal>, h: &HoloHash) -> (r: bool)
        ensures
            r == has_link_hash(crate::metadata::link_meta_views(v@), h@),
    {
        let mut i: usize = 0;
        while i < v.len()
            invariant
                i <= v@.len(),
                forall|i2: int|
                    0 <= i2 < i ==> (#[trigger] crate::metadata::link_meta_views(
                        v@,
                    )[i2]).link_add_hash != h@,
            decreases v@.len() - i,
        {
            if v[i].link_add_hash.same(h) {
                proof {
                    assert(crate::metadata::link_meta_views(v@)[i as int].link_add_hash == h@);
                }
                return true;
            }
            i += 1;
        }
        false
    }

    /// Fetches the links under a key from remote authorities and merges
    /// every answer into the cache: each answer's link-adds, then its
    /// link-removes.
    fn fetch_links(&mut self, key: &WireLinkMetaKey, options: &GetLinksOptions) -> (r:
        CascadeResult<()>)
        requires
            old(self).wf(),
        ensures
            final(self).wf(),
            final(self).vault_e() == old(self).vault_e(),
            final(self).vault_m() == old(self).vault_m(),
            net_stable(old(self).net(), final(self).net()),
            final(self).net().call_count() == old(self).net().call_count() + 1,
            !old(self).net().links_ok(key@) ==> (r matches Err(CascadeError::Transport(_)))
                && final(self).cache_m() == old(self).cache_m() && final(self).cache_e() == old(
                self,
            ).cache_e(),
            old(self).net().links_ok(key@) ==> r is Ok && final(self).cache_m() == merge_links_m(
                old(self).cache_m(),
                old(self).net().links_for(key@),
                old(self).net().links_for(key@).len() as int,
            ) && final(self).cache_e() == merge_links_e(
                old(self).cache_e(),
                old(self).net().links_for(key@),
                old(self).net().links_for(key@).len() as int,
            ),
    {
        let results = match self.network.get_links(key, options) {
            Ok(v) => v,
            Err(e) => {
                return Err(CascadeError::Transport(e));
            },
        };
        let ghost rs = old(self).net().links_for(key@);
        let mut i: usize = 0;
        while i < results.len()
            invariant
                i <= results@.len(),
                rs == crate::net::links_views(results@),
                self.wf(),
                self.cache_m() == merge_links_m(old(self).cache_m(), rs, i as int),
                self.cache_e() == merge_links_e(old(self).cache_e(), rs, i as int),
                self.vault_e() == old(self).vault_e(),
                self.vault_m() == old(self).vault_m(),
                net_stable(old(self).net(), self.net()),
                self.net().call_count() == old(self).net().call_count() + 1,
            decreases results@.len() - i,
        {
            proof {
                assert(rs[i as int] == results@[i as int]@);
            }
            let ghost base_m = self.cache_m();
            let ghost base_e = self.cache_e();
            let ghost adds = rs[i as int].link_adds;
            let ghost rems = rs[i as int].link_removes;
            let mut k: usize = 0;
            while k < results[i].link_adds.len()
                invariant
                    i < results@.len(),
                    k <= results@[i as int].link_adds@.len(),
                    rs == crate::net::links_views(results@),
                    adds == rs[i as int].link_adds,
                    adds == crate::net::link_add_views(results@[i as int].link_adds@),
                    self.wf(),
                    self.cache_m() == merge_cl_m(base_m, adds, k as int),
                    self.cache_e() == merge_cl_e(base_e, adds, k as int),
                    self.vault_e() == old(self).vault_e(),
                    self.vault_m() == old(self).vault_m(),
                    net_stable(old(self).net(), self.net()),
                    self.net().call_count() == old(self).net().call_count() + 1,
                decreases results@[i as int].link_adds@.len() - k,
            {
                proof {
                    assert(adds[k as int] == (
                        results@[i as int].link_adds@[k as int].0@,
                        results@[i as int].link_adds@[k as int].1@,
                    ));
                }
                let h = Header::CreateLink(results[i].link_adds[k].0.clone());
                if h.wf_check() {
                    let sh = SignedHeader {
                        header: h,
                        signature: crate::hash::clone_bytes(&results[i].link_adds[k].1),
                    };
                    let shh = SignedHeaderHashed::from_content_sync(sh);
                    let element = Element::new(shh, None);
                    proof {
                        assert(element@ =~= bare_element_of(
                            SignedHeaderV {
                                header: HeaderV::CreateLink(adds[k as int].0),
                                signature: adds[k as int].1,
                            },
                        ));
                    }
                    self.update_stores(element);
                }
                k += 1;
            }
            let ghost mid_m = self.cache_m();
            let ghost mid_e = self.cache_e();
            let mut k2: usize = 0;
            while k2 < results[i].link_removes.len()
                invariant
                    i < results@.len(),
                    k2 <= results@[i as int].link_removes@.len(),
                    rs == crate::net::links_views(results@),
                    rems == rs[i as int].link_removes,
                    rems == crate::net::link_remove_views(results@[i as int].link_removes@),
                    self.wf(),
                    self.cache_m() == merge_dl_m(mid_m, rems, k2 as int),
                    self.cache_e() == merge_dl_e(mid_e, rems, k2 as int),
                    self.vault_e() == old(self).vault_e(),
                    self.vault_m() == old(self).vault_m(),
                    net_stable(old(self).net(), self.net()),
                    self.net().call_count() == old(self).net().call_count() + 1,
                decreases results@[i as int].link_removes@.len() - k2,
            {
                proof {
                    assert(rems[k2 as int] == (
                        results@[i as int].link_removes@[k2 as int].0@,
                        results@[i as int].link_removes@[k2 as int].1@,
                    ));
                }
                let h = Header::DeleteLink(results[i].link_removes[k2].0.clone());
                if h.wf_check() {
                    let sh = SignedHeader {
                        header: h,
                        signature: crate::hash::clone_bytes(&results[i].link_removes[k2].1),
                    };
                    let shh = SignedHeaderHashed::from_content_sync(sh);
                    let element = Element::new(shh, None);
                    proof {
                        assert(element@ =~= bare_element_of(
                            SignedHeaderV {
                                header: HeaderV::DeleteLink(rems[k2 as int].0),
                                signature: rems[k2 as int].1,
                            },
                        ));
                    }
                    self.update_stores(element);
                }
                k2 += 1;
            }
            proof {
                assert(self.cache_m() == merge_links_m(old(self).cache_m(), rs, i + 1));
                assert(self.cache_e() == merge_links_e(old(self).cache_e(), rs, i + 1));
            }
            i += 1;
        }
        Ok(())
    }

    /// Gets the live links under a key: refreshes the cache from remote
    /// authorities, then returns exactly the creates with zero registered
    /// removes, sourced first from the cache and then from the vault,
    /// with removes counted across both stores.
    pub fn dht_get_links(&mut self, key: &LinkMetaKey, options: GetLinksOptions) -> (r:
        CascadeResult<Vec<Link>>)
        requires
            old(self).wf(),
        ensures
            final(self).wf(),
            final(self).vault_e() == old(self).vault_e(),
            final(self).vault_m() == old(self).vault_m(),
            net_stable(old(self).net(), final(self).net()),
            final(self).net().call_count() == old(self).net().call_count() + 1,
            !old(self).net().links_ok(key@) ==> (r matches Err(CascadeError::Transport(_)))
                && final(self).cache_m() == old(self).cache_m() && final(self).cache_e() == old(
                self,
            ).cache_e(),
            old(self).net().links_ok(key@) ==> ({
                let rs = old(self).net().links_for(key@);
                let mm = merge_links_m(old(self).cache_m(), rs, rs.len() as int);
                let me = merge_links_e(old(self).cache_e(), rs, rs.len() as int);
                &&& final(self).cache_m() == mm
                &&& final(self).cache_e() == me
                &&& r matches Ok(v) && link_views(v@) == live_links_list(
                    old(self).vault_m(),
                    mm,
                    key@,
                )
            }),
    {
        match self.fetch_links(key, &options) {
            Ok(()) => {},
            Err(e) => {
                return Err(e);
            },
        }
        let cache_adds = self.meta_cache.get_links_all(key);
        let vault_adds = self.meta_vault.get_links_all(key);
        let ghost ca = crate::metadata::link_meta_views(cache_adds@);
        let ghost va = crate::metadata::link_meta_views(vault_adds@);
        let mut all = cache_adds;
        proof {
            assert(crate::metadata::link_meta_views(all@) =~= dedup_links(ca, va, 0));
        }
        let mut j: usize = 0;
        while j < vault_adds.len()
            invariant
                j <= vault_adds@.len(),
                va == crate::metadata::link_meta_views(vault_adds@),
                crate::metadata::link_meta_views(all@) == dedup_links(ca, va, j as int),
            decreases vault_adds@.len() - j,
        {
            let ghost before = crate::metadata::link_meta_views(all@);
            proof {
                assert(va[j as int] == vault_adds@[j as int]@);
            }
            if !Self::contains_link_hash(&all, &vault_adds[j].link_add_hash) {
                all.push(vault_adds[j].clone());
                proof {
                    assert(crate::metadata::link_meta_views(all@) =~= before.push(va[j as int]));
                }
            }
            j += 1;
        }
        let ghost allv = crate::metadata::link_meta_views(all@);
        let mut live: Vec<LinkMetaVal> = Vec::new();
        let mut i: usize = 0;
        while i < all.len()
            invariant
                i <= all@.len(),
                allv == crate::metadata::link_meta_views(all@),
                crate::metadata::link_meta_views(live@) == filter_live_links(
                    self.vault_m(),
                    self.cache_m(),
                    allv,
                    i as int,
                ),
            decreases all@.len() - i,
        {
            let ghost before = crate::metadata::link_meta_views(live@);
            proof {
                assert(allv[i as int] == all@[i as int]@);
            }
            let removed = self.meta_cache.has_link_remove(&all[i].link_add_hash)
                || self.meta_vault.has_link_remove(&all[i].link_add_hash);
            if !removed {
                live.push(all[i].clone());
                proof {
                    assert(crate::metadata::link_meta_views(live@) =~= before.push(allv[i as int]));
                }
            }
            i += 1;
        }
        let ghost lv = crate::metadata::link_meta_views(live@);
        let mut out: Vec<Link> = Vec::new();
        let mut k: usize = 0;
        while k < live.len()
            invariant
                k <= live@.len(),
                lv == crate::metadata::link_meta_views(live@),
                link_views(out@) == links_of(lv, k as int),
            decreases live@.len() - k,
        {
            let ghost before = link_views(out@);
            proof {
                assert(lv[k as int] == live@[k as int]@);
            }
            out.push(live[k].clone().into_link());
            proof {
                assert(link_views(out@) =~= before.push(crate::metadata::link_of_meta(lv[k as int])));
            }
            k += 1;
        }
        proof {
            assert(link_views(out@) =~= live_links_list(self.vault_m(), self.cache_m(), key@));
        }
        Ok(out)
    }
}


impl<N: Network> Cascade<N> {
    /// The locally held header (without its signature) at a header
    /// address, surfaced only with a valid reason.
    fn get_header_local_raw(&self, hash: &HoloHash) -> (r: Option<crate::element::HeaderHashed>)
        ensures
            match local_header(self.vault_e(), self.vault_m(), self.cache_e(), self.cache_m(), hash@) {
                Some(x) => r matches Some(h) && h@.header == x.header && h@.hash == x.hash,
                None => r is None,
            },
    {
        match self.get_header_local_raw_with_sig(hash) {
            Some(h) => Some(h.into_header_and_signature().0),
            None => None,
        }
    }

    /// Renders the headers registered for an entry that resolve locally.
    fn render_headers(&self, headers: Vec<TimedHeaderHash>) -> (r: Vec<Header>)
        ensures
            crate::details::header_views(r@) == render_headers_f(
                self.vault_e(),
                self.vault_m(),
                self.cache_e(),
                self.cache_m(),
                crate::metadata::thh_views(headers@),
                headers@.len() as int,
            ),
    {
        let ghost hs = crate::metadata::thh_views(headers@);
        let mut out: Vec<Header> = Vec::new();
        let mut i: usize = 0;
        while i < headers.len()
            invariant
                i <= headers@.len(),
                hs == crate::metadata::thh_views(headers@),
                crate::details::header_views(out@) == render_headers_f(
                    self.vault_e(),
                    self.vault_m(),
                    self.cache_e(),
                    self.cache_m(),
                    hs,
                    i as int,
                ),
            decreases headers@.len() - i,
        {
            let ghost before = crate::details::header_views(out@);
            proof {
                assert(hs[i as int] == headers@[i as int]@);
            }
            match self.get_header_local_raw(&headers[i].header_hash) {
                Some(h) => {
                    let ghost hv = h@.header;
                    out.push(h.into_content());
                    proof {
                        assert(crate::details::header_views(out@) =~= before.push(hv));
                    }
                },
                None => {},
            }
            i += 1;
        }
        out
    }

    /// Renders the deletes registered against a basis that resolve
    /// locally; a resolvable record of another header kind is a
    /// conversion error.
    fn render_deletes(&self, headers: Vec<TimedHeaderHash>) -> (r: CascadeResult<
        Vec<crate::header::Delete>,
    >)
        ensures
            match render_deletes_f(
                self.vault_e(),
                self.vault_m(),
                self.cache_e(),
                self.cache_m(),
                crate::metadata::thh_views(headers@),
                headers@.len() as int,
            ) {
                Some(x) => r matches Ok(v) && crate::details::delete_views(v@) == x,
                None => r matches Err(CascadeError::Conversion),
            },
    {
        let ghost hs = crate::metadata::thh_views(headers@);
        let mut out: Vec<crate::header::Delete> = Vec::new();
        let mut i: usize = 0;
        while i < headers.len()
            invariant
                i <= headers@.len(),
                hs == crate::metadata::thh_views(headers@),
                render_deletes_f(
                    self.vault_e(),
                    self.vault_m(),
                    self.cache_e(),
                    self.cache_m(),
                    hs,
                    i as int,
                ) == Some(crate::details::delete_views(out@)),
            decreases headers@.len() - i,
        {
            let ghost before = crate::details::delete_views(out@);
            proof {
                assert(hs[i as int] == headers@[i as int]@);
            }
            match self.get_header_local_raw(&headers[i].header_hash) {
                Some(h) => {
                    match h.into_content() {
                        Header::Delete(d) => {
                            let ghost dv = d@;
                            out.push(d);
                            proof {
                                assert(crate::details::delete_views(out@) =~= before.push(dv));
                            }
                        },
                        _ => {
                            proof {
                                lemma_render_deletes_none(
                                    self.vault_e(),
                                    self.vault_m(),
                                    self.cache_e(),
                                    self.cache_m(),
                                    hs,
                                    i + 1,
                                    hs.len() as int,
                                );
                            }
                            return Err(CascadeError::Conversion);
                        },
                    }
                },
                None => {},
            }
            i += 1;
        }
        Ok(out)
    }

    /// Renders the updates registered against an entry that resolve
    /// locally; a resolvable record of another header kind is a
    /// conversion error.
    fn render_updates(&self, headers: Vec<TimedHeaderHash>) -> (r: CascadeResult<
        Vec<crate::header::Update>,
    >)
        ensures
            match render_updates_f(
                self.vault_e(),
                self.vault_m(),
                self.cache_e(),
                self.cache_m(),
                crate::metadata::thh_views(headers@),
                headers@.len() as int,
            ) {
                Some(x) => r matches Ok(v) && crate::details::update_views(v@) == x,
                None => r matches Err(CascadeError::Conversion),
            },
    {
        let ghost hs = crate::metadata::thh_views(headers@);
        let mut out: Vec<crate::header::Update> = Vec::new();
        let mut i: usize = 0;
        while i < headers.len()
            invariant
                i <= headers@.len(),
                hs == crate::metadata::thh_views(headers@),
                render_updates_f(
                    self.vault_e(),
                    self.vault_m(),
                    self.cache_e(),
                    self.cache_m(),
                    hs,
                    i as int,
                ) == Some(crate::details::update_views(out@)),
            decreases headers@.len() - i,
        {
            let ghost before = crate::details::update_views(out@);
            proof {
                assert(hs[i as int] == headers@[i as int]@);
            }
            match self.get_header_local_raw(&headers[i].header_hash) {
                Some(h) => {
                    match h.into_content() {
                        Header::Update(u) => {
                            let ghost uv = u@;
                            out.push(u);
                            proof {
                                assert(crate::details::update_views(out@) =~= before.push(uv));
                            }
                        },
                        _ => {
                            proof {
                                lemma_render_updates_none(
                                    self.vault_e(),
                                    self.vault_m(),
                                    self.cache_e(),
                                    self.cache_m(),
                                    hs,
                                    i + 1,
                                    hs.len() as int,
                                );
                            }
                            return Err(CascadeError::Conversion);
                        },
                    }
                },
                None => {},
            }
            i += 1;
        }
        Ok(out)
    }

    /// Assembles the local full CRUD view of an entry.
    fn create_entry_details(&self, hash: &HoloHash) -> (r: CascadeResult<
        Option<crate::details::EntryDetails>,
    >)
        ensures
            match entry_details_outcome(
                self.vault_e(),
                self.vault_m(),
                self.cache_e(),
                self.cache_m(),
                hash@,
            ) {
                Ok(Some(x)) => r matches Ok(o) && (o matches Some(d) && d@ == x),
                Ok(None) => r matches Ok(o) && o is None,
                Err(_) => r matches Err(CascadeError::Conversion),
            },
    {
        match self.get_entry_local_raw(hash) {
            Some(entry) => {
                let entry_dht_status = self.meta_cache.get_dht_status(hash);
                let headers = self.render_headers(self.meta_cache.get_headers(hash));
                let deletes = match self.render_deletes(self.meta_cache.get_deletes_on_entry(hash)) {
                    Ok(v) => v,
                    Err(e) => {
                        return Err(e);
                    },
                };
                let updates = match self.render_updates(self.meta_cache.get_updates(hash)) {
                    Ok(v) => v,
                    Err(e) => {
                        return Err(e);
                    },
                };
                let d = crate::details::EntryDetails {
                    entry: entry.into_content(),
                    headers,
                    deletes,
                    updates,
                    entry_dht_status,
                };
                proof {
                    assert(Some(d@) =~= entry_details_outcome(
                        self.vault_e(),
                        self.vault_m(),
                        self.cache_e(),
                        self.cache_m(),
                        hash@,
                    ).unwrap());
                }
                Ok(Some(d))
            },
            None => Ok(None),
        }
    }

    /// Assembles the local full CRUD view of a header.
    fn create_element_details(&self, hash: &HoloHash) -> (r: CascadeResult<
        Option<crate::details::ElementDetails>,
    >)
        ensures
            match element_details_outcome(
                self.vault_e(),
                self.vault_m(),
                self.cache_e(),
                self.cache_m(),
                hash@,
            ) {
                Ok(Some(x)) => r matches Ok(o) && (o matches Some(d) && d@ == x),
                Ok(None) => r matches Ok(o) && o is None,
                Err(_) => r matches Err(CascadeError::Conversion),
            },
    {
        match self.get_element_local_raw(hash) {
            Some(element) => {
                let deletes = match self.render_deletes(
                    self.meta_cache.get_deletes_on_header(hash),
                ) {
                    Ok(v) => v,
                    Err(e) => {
                        return Err(e);
                    },
                };
                let d = crate::details::ElementDetails { element, deletes };
                proof {
                    assert(Some(d@) =~= element_details_outcome(
                        self.vault_e(),
                        self.vault_m(),
                        self.cache_e(),
                        self.cache_m(),
                        hash@,
                    ).unwrap());
                }
                Ok(Some(d))
            },
            None => Ok(None),
        }
    }

    /// Gets the full CRUD view of an entry: refreshes the cache from
    /// remote authorities, then returns the entry with every resolvable
    /// header, delete and update and its derived status, regardless of
    /// liveness.
    pub fn get_entry_details(&mut self, entry_hash: HoloHash, options: GetOptions) -> (r:
        CascadeResult<Option<crate::details::EntryDetails>>)
        requires
            old(self).wf(),
        ensures
            final(self).wf(),
            final(self).vault_e() == old(self).vault_e(),
            final(self).vault_m() == old(self).vault_m(),
            net_stable(old(self).net(), final(self).net()),
            final(self).net().call_count() == old(self).net().call_count() + 1,
            !old(self).net().get_ok(entry_hash@) ==> (r matches Err(
                CascadeError::Transport(_),
            )) && final(self).cache_m() == old(self).cache_m() && final(self).cache_e() == old(
                self,
            ).cache_e(),
            old(self).net().get_ok(entry_hash@) ==> ({
                let rs = old(self).net().elements_for(entry_hash@);
                let mm = merge_entry_resps_m(old(self).cache_m(), rs, rs.len() as int);
                let me = merge_entry_resps_e(old(self).cache_e(), rs, rs.len() as int);
                &&& final(self).cache_m() == mm
                &&& final(self).cache_e() == me
                &&& match entry_details_outcome(
                    old(self).vault_e(),
                    old(self).vault_m(),
                    me,
                    mm,
                    entry_hash@,
                ) {
                    Ok(Some(x)) => r matches Ok(o) && (o matches Some(d) && d@ == x),
                    Ok(None) => r matches Ok(o) && o is None,
                    Err(_) => r matches Err(CascadeError::Conversion),
                }
            }),
    {
        match self.fetch_element_via_entry(&entry_hash, &options) {
            Ok(()) => {},
            Err(e) => {
                return Err(e);
            },
        }
        self.create_entry_details(&entry_hash)
    }

    /// Gets the full CRUD view of a header: refreshes the cache from
    /// remote authorities, then returns its element with every resolvable
    /// delete, regardless of liveness.
    pub fn get_header_details(&mut self, header_hash: HoloHash, options: GetOptions) -> (r:
        CascadeResult<Option<crate::details::ElementDetails>>)
        requires
            old(self).wf(),
        ensures
            final(self).wf(),
            final(self).vault_e() == old(self).vault_e(),
            final(self).vault_m() == old(self).vault_m(),
            net_stable(old(self).net(), final(self).net()),
            final(self).net().call_count() == old(self).net().call_count() + 1,
            !old(self).net().get_ok(header_hash@) ==> (r matches Err(
                CascadeError::Transport(_),
            )) && final(self).cache_m() == old(self).cache_m() && final(self).cache_e() == old(
                self,
            ).cache_e(),
            old(self).net().get_ok(header_hash@) ==> ({
                let rs = old(self).net().elements_for(header_hash@);
                let mm = merge_header_resps_m(old(self).cache_m(), rs, rs.len() as int);
                let me = merge_header_resps_e(old(self).cache_e(), rs, rs.len() as int);
                &&& final(self).cache_m() == mm
                &&& final(self).cache_e() == me
                &&& match element_details_outcome(
                    old(self).vault_e(),
                    old(self).vault_m(),
                    me,
                    mm,
                    header_hash@,
                ) {
                    Ok(Some(x)) => r matches Ok(o) && (o matches Some(d) && d@ == x),
                    Ok(None) => r matches Ok(o) && o is None,
                    Err(_) => r matches Err(CascadeError::Conversion),
                }
            }),
    {
        match self.fetch_element_via_header(&header_hash, &options) {
            Ok(()) => {},
            Err(e) => {
                return Err(e);
            },
        }
        self.create_element_details(&header_hash)
    }

    /// Gets the full CRUD view of an address, dispatching by the role it
    /// carries. Forces the request mode that asks every authority for all
    /// live headers with their metadata.
    pub fn get_details(&mut self, hash: HoloHash, options: GetOptions) -> (r: CascadeResult<
        Option<crate::details::Details>,
    >)
        requires
            old(self).wf(),
            hash@.role == HashRole::Entry || hash@.role == HashRole::Header,
        ensures
            final(self).wf(),
            final(self).vault_e() == old(self).vault_e(),
            final(self).vault_m() == old(self).vault_m(),
            net_stable(old(self).net(), final(self).net()),
            final(self).net().call_count() == old(self).net().call_count() + 1,
            hash@.role == HashRole::Entry && old(self).net().get_ok(hash@) ==> ({
                let rs = old(self).net().elements_for(hash@);
                let mm = merge_entry_resps_m(old(self).cache_m(), rs, rs.len() as int);
                let me = merge_entry_resps_e(old(self).cache_e(), rs, rs.len() as int);
                match entry_details_outcome(
                    old(self).vault_e(),
                    old(self).vault_m(),
                    me,
                    mm,
                    hash@,
                ) {
                    Ok(Some(x)) => r matches Ok(o) && (o matches Some(d) && d@
                        == crate::details::DetailsV::Entry(x)),
                    Ok(None) => r matches Ok(o) && o is None,
                    Err(_) => r matches Err(CascadeError::Conversion),
                }
            }),
            hash@.role == HashRole::Header && old(self).net().get_ok(hash@) ==> ({
                let rs = old(self).net().elements_for(hash@);
                let mm = merge_header_resps_m(old(self).cache_m(), rs, rs.len() as int);
                let me = merge_header_resps_e(old(self).cache_e(), rs, rs.len() as int);
                match element_details_outcome(
                    old(self).vault_e(),
                    old(self).vault_m(),
                    me,
                    mm,
                    hash@,
                ) {
                    Ok(Some(x)) => r matches Ok(o) && (o matches Some(d) && d@
                        == crate::details::DetailsV::Element(x)),
                    Ok(None) => r matches Ok(o) && o is None,
                    Err(_) => r matches Err(CascadeError::Conversion),
                }
            }),
            !old(self).net().get_ok(hash@) ==> (r matches Err(CascadeError::Transport(_)))
                && final(self).cache_m() == old(self).cache_m() && final(self).cache_e() == old(
                self,
            ).cache_e(),
    {
        let mut options = options;
        options.all_live_headers_with_metadata = true;
        if hash.has_role(HashRole::Entry) {
            match self.get_entry_details(hash, options) {
                Ok(Some(d)) => Ok(Some(crate::details::Details::Entry(d))),
                Ok(None) => Ok(None),
                Err(e) => Err(e),
            }
        } else {
            match self.get_header_details(hash, options) {
                Ok(Some(d)) => Ok(Some(crate::details::Details::Element(d))),
                Ok(None) => Ok(None),
                Err(e) => Err(e),
            }
        }
    }

    /// Returns all link-add headers under a key together with the
    /// link-removes registered against each, after refreshing the cache
    /// from remote authorities, both ordered ascending by (timestamp,
    /// header hash). Records that cannot be locally resolved are silently
    /// skipped: partial results are returned rather than failing the
    /// whole listing.
    pub fn get_link_details(&mut self, key: &LinkMetaKey, options: GetLinksOptions) -> (r:
        CascadeResult<Vec<(crate::header::CreateLink, Vec<crate::header::DeleteLink>)>>)
        requires
            old(self).wf(),
        ensures
            final(self).wf(),
            final(self).vault_e() == old(self).vault_e(),
            final(self).vault_m() == old(self).vault_m(),
            net_stable(old(self).net(), final(self).net()),
            final(self).net().call_count() == old(self).net().call_count() + 1,
            !old(self).net().links_ok(key@) ==> (r matches Err(CascadeError::Transport(_)))
                && final(self).cache_m() == old(self).cache_m() && final(self).cache_e() == old(
                self,
            ).cache_e(),
            old(self).net().links_ok(key@) ==> ({
                let rs = old(self).net().links_for(key@);
                let mm = merge_links_m(old(self).cache_m(), rs, rs.len() as int);
                let me = merge_links_e(old(self).cache_e(), rs, rs.len() as int);
                &&& final(self).cache_m() == mm
                &&& final(self).cache_e() == me
                &&& r matches Ok(v) && ld_views(v@) == link_details_list(
                    old(self).vault_e(),
                    old(self).vault_m(),
                    me,
                    mm,
                    key@,
                )
            }),
    {
        match self.fetch_links(key, &options) {
            Ok(()) => {},
            Err(e) => {
                return Err(e);
            },
        }
        let links = crate::metadata::sort_link_records(self.meta_cache.get_links_all(key));
        let ghost ls = crate::metadata::link_meta_views(links@);
        let mut result: Vec<(crate::header::CreateLink, Vec<crate::header::DeleteLink>)> =
            Vec::new();
        let mut i: usize = 0;
        while i < links.len()
            invariant
                i <= links@.len(),
                ls == crate::metadata::link_meta_views(links@),
                ld_views(result@) == link_details_f(
                    self.vault_e(),
                    self.vault_m(),
                    self.cache_e(),
                    self.cache_m(),
                    ls,
                    i as int,
                ),
            decreases links@.len() - i,
        {
            let ghost before = ld_views(result@);
            proof {
                assert(ls[i as int] == links@[i as int]@);
            }
            match self.get_element_local_raw(&links[i].link_add_hash) {
                Some(el) => {
                    let is_create_link = match el.header() {
                        Header::CreateLink(_) => true,
                        _ => false,
                    };
                    if is_create_link {
                        let removes_thh = crate::metadata::sort_timed_headers(
                            self.meta_cache.get_link_removes_on_link_add(&links[i].link_add_hash),
                        );
                        let ghost rthh = crate::metadata::thh_views(removes_thh@);
                        let mut removes: Vec<crate::header::DeleteLink> = Vec::new();
                        let mut k: usize = 0;
                        while k < removes_thh.len()
                            invariant
                                k <= removes_thh@.len(),
                                rthh == crate::metadata::thh_views(removes_thh@),
                                dl_views(removes@) == render_removes_f(
                                    self.vault_e(),
                                    self.vault_m(),
                                    self.cache_e(),
                                    self.cache_m(),
                                    rthh,
                                    k as int,
                                ),
                            decreases removes_thh@.len() - k,
                        {
                            let ghost rbefore = dl_views(removes@);
                            proof {
                                assert(rthh[k as int] == removes_thh@[k as int]@);
                            }
                            match self.get_element_local_raw(&removes_thh[k].header_hash) {
                                Some(el2) => {
                                    match el2.header() {
                                        Header::DeleteLink(dl) => {
                                            let ghost dv = dl@;
                                            removes.push(dl.clone());
                                            proof {
                                                assert(dl_views(removes@) =~= rbefore.push(dv));
                                            }
                                        },
                                        _ => {},
                                    }
                                },
                                None => {},
                            }
                            k += 1;
                        }
                        match el.header() {
                            Header::CreateLink(cl) => {
                                let ghost cv = cl@;
                                result.push((cl.clone(), removes));
                                proof {
                                    assert(ld_views(result@) =~= before.push(
                                        (cv, dl_views(result@[result@.len() - 1].1@)),
                                    ));
                                    assert(ld_views(result@) =~= link_details_f(
                                        self.vault_e(),
                                        self.vault_m(),
                                        self.cache_e(),
                                        self.cache_m(),
                                        ls,
                                        i + 1,
                                    ));
                                }
                            },
                            _ => {},
                        }
                    }
                },
                None => {},
            }
            i += 1;
        }
        Ok(result)
    }

    /// Fetches the raw metadata registered against an address from remote
    /// authorities, merges it into the cache, and hands back the combined
    /// answers.
    pub fn fetch_meta(&mut self, basis: &HoloHash, options: &GetMetaOptions) -> (r: CascadeResult<
        Vec<MetadataSet>,
    >)
        requires
            old(self).wf(),
            basis@.role == HashRole::Entry || basis@.role == HashRole::Header,
        ensures
            final(self).wf(),
            final(self).vault_e() == old(self).vault_e(),
            final(self).vault_m() == old(self).vault_m(),
            final(self).cache_e() == old(self).cache_e(),
            net_stable(old(self).net(), final(self).net()),
            final(self).net().call_count() == old(self).net().call_count() + 1,
            !old(self).net().meta_ok(basis@) ==> (r matches Err(CascadeError::Transport(_)))
                && final(self).cache_m() == old(self).cache_m(),
            old(self).net().meta_ok(basis@) ==> final(self).cache_m() == merge_meta_resps(
                old(self).cache_m(),
                basis@,
                old(self).net().meta_for(basis@),
                old(self).net().meta_for(basis@).len() as int,
            ) && (r matches Ok(v) && crate::net::meta_views(v@) == old(self).net().meta_for(
                basis@,
            )),
    {
        let all_metadata = match self.network.get_meta(basis, options) {
            Ok(v) => v,
            Err(e) => {
                return Err(CascadeError::Transport(e));
            },
        };
        let ghost ms = old(self).net().meta_for(basis@);
        let on_entry = basis.has_role(HashRole::Entry);
        let mut i: usize = 0;
        while i < all_metadata.len()
            invariant
                i <= all_metadata@.len(),
                ms == crate::net::meta_views(all_metadata@),
                on_entry == (basis@.role == HashRole::Entry),
                basis@.role == HashRole::Entry || basis@.role == HashRole::Header,
                self.wf(),
                self.cache_m() == merge_meta_resps(old(self).cache_m(), basis@, ms, i as int),
                self.cache_e() == old(self).cache_e(),
                self.vault_e() == old(self).vault_e(),
                self.vault_m() == old(self).vault_m(),
                net_stable(old(self).net(), self.net()),
                self.net().call_count() == old(self).net().call_count() + 1,
            decreases all_metadata@.len() - i,
        {
            proof {
                assert(ms[i as int] == all_metadata@[i as int]@);
            }
            let ghost base_m = self.cache_m();
            let set = &all_metadata[i];
            if on_entry {
                let mut k: usize = 0;
                while k < set.headers.len()
                    invariant
                        i < all_metadata@.len(),
                        set == &all_metadata@[i as int],
                        k <= set.headers@.len(),
                        self.cache_m() == (MetaV {
                            headers_on_entry: reg_thhs_fold(
                                base_m.headers_on_entry,
                                basis@,
                                crate::metadata::thh_views(set.headers@),
                                k as int,
                            ),
                            ..base_m
                        }),
                        self.cache_e() == old(self).cache_e(),
                        self.vault_e() == old(self).vault_e(),
                        self.vault_m() == old(self).vault_m(),
                        net_stable(old(self).net(), self.net()),
                        self.net().call_count() == old(self).net().call_count() + 1,
                        self.wf(),
                    decreases set.headers@.len() - k,
                {
                    proof {
                        assert(crate::metadata::thh_views(set.headers@)[k as int]
                            == set.headers@[k as int]@);
                    }
                    self.meta_cache.register_raw_on_entry(
                        basis.clone(),
                        SysMetaVal::NewEntry(set.headers[k].clone()),
                    );
                    proof {
                        assert(self.cache_m() =~= (MetaV {
                            headers_on_entry: reg_thhs_fold(
                                base_m.headers_on_entry,
                                basis@,
                                crate::metadata::thh_views(set.headers@),
                                k + 1,
                            ),
                            ..base_m
                        }));
                    }
                    k += 1;
                }
                let ghost m1 = self.cache_m();
                let mut k2: usize = 0;
                while k2 < set.deletes.len()
                    invariant
                        i < all_metadata@.len(),
                        set == &all_metadata@[i as int],
                        k2 <= set.deletes@.len(),
                        self.cache_m() == (MetaV {
                            deletes_on_entry: reg_thhs_fold(
                                m1.deletes_on_entry,
                                basis@,
                                crate::metadata::thh_views(set.deletes@),
                                k2 as int,
                            ),
                            ..m1
                        }),
                        self.cache_e() == old(self).cache_e(),
                        self.vault_e() == old(self).vault_e(),
                        self.vault_m() == old(self).vault_m(),
                        net_stable(old(self).net(), self.net()),
                        self.net().call_count() == old(self).net().call_count() + 1,
                        self.wf(),
                    decreases set.deletes@.len() - k2,
                {
                    proof {
                        assert(crate::metadata::thh_views(set.deletes@)[k2 as int]
                            == set.deletes@[k2 as int]@);
                    }
                    self.meta_cache.register_raw_on_entry(
                        basis.clone(),
                        SysMetaVal::Delete(set.deletes[k2].clone()),
                    );
                    proof {
                        assert(self.cache_m() =~= (MetaV {
                            deletes_on_entry: reg_thhs_fold(
                                m1.deletes_on_entry,
                                basis@,
                                crate::metadata::thh_views(set.deletes@),
                                k2 + 1,
                            ),
                            ..m1
                        }));
                    }
                    k2 += 1;
                }
                let ghost m2 = self.cache_m();
                let mut k3: usize = 0;
                while k3 < set.updates.len()
                    invariant
                        i < all_metadata@.len(),
                        set == &all_metadata@[i as int],
                        k3 <= set.updates@.len(),
                        self.cache_m() == (MetaV {
                            updates_on_entry: reg_thhs_fold(
                                m2.updates_on_entry,
                                basis@,
                                crate::metadata::thh_views(set.updates@),
                                k3 as int,
                            ),
                            ..m2
                        }),
                        self.cache_e() == old(self).cache_e(),
                        self.vault_e() == old(self).vault_e(),
                        self.vault_m() == old(self).vault_m(),
                        net_stable(old(self).net(), self.net()),
                        self.net().call_count() == old(self).net().call_count() + 1,
                        self.wf(),
                    decreases set.updates@.len() - k3,
                {
                    proof {
                        assert(crate::metadata::thh_views(set.updates@)[k3 as int]
                            == set.updates@[k3 as int]@);
                    }
                    self.meta_cache.register_raw_on_entry(
                        basis.clone(),
                        SysMetaVal::Update(set.updates[k3].clone()),
                    );
                    proof {
                        assert(self.cache_m() =~= (MetaV {
                            updates_on_entry: reg_thhs_fold(
                                m2.updates_on_entry,
                                basis@,
                                crate::metadata::thh_views(set.updates@),
                                k3 + 1,
                            ),
                            ..m2
                        }));
                    }
                    k3 += 1;
                }
                proof {
                    assert(self.cache_m() =~= merge_ms_entry(base_m, basis@, ms[i as int]));
                    assert(self.cache_m() == merge_meta_resps(
                        old(self).cache_m(),
                        basis@,
                        ms,
                        i + 1,
                    ));
                }
            } else {
                let mut k2: usize = 0;
                while k2 < set.deletes.len()
                    invariant
                        i < all_metadata@.len(),
                        set == &all_metadata@[i as int],
                        k2 <= set.deletes@.len(),
                        self.cache_m() == (MetaV {
                            deletes_on_header: reg_thhs_fold(
                                base_m.deletes_on_header,
                                basis@,
                                crate::metadata::thh_views(set.deletes@),
                                k2 as int,
                            ),
                            ..base_m
                        }),
                        self.cache_e() == old(self).cache_e(),
                        self.vault_e() == old(self).vault_e(),
                        self.vault_m() == old(self).vault_m(),
                        net_stable(old(self).net(), self.net()),
                        self.net().call_count() == old(self).net().call_count() + 1,
                        self.wf(),
                    decreases set.deletes@.len() - k2,
                {
                    proof {
                        assert(crate::metadata::thh_views(set.deletes@)[k2 as int]
                            == set.deletes@[k2 as int]@);
                    }
                    self.meta_cache.register_raw_on_header(
                        basis.clone(),
                        SysMetaVal::Delete(set.deletes[k2].clone()),
                    );
                    proof {
                        assert(self.cache_m() =~= (MetaV {
                            deletes_on_header: reg_thhs_fold(
                                base_m.deletes_on_header,
                                basis@,
                                crate::metadata::thh_views(set.deletes@),
                                k2 + 1,
                            ),
                            ..base_m
                        }));
                    }
                    k2 += 1;
                }
                proof {
                    assert(self.cache_m() =~= merge_ms_header(base_m, basis@, ms[i as int]));
                    assert(self.cache_m() == merge_meta_resps(
                        old(self).cache_m(),
                        basis@,
                        ms,
                        i + 1,
                    ));
                }
            }
            i += 1;
        }
        Ok(all_metadata)
    }
}

} // verus!
