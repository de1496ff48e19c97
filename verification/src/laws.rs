//! Laws of the cascade's cache merge and resolution logic.
//!
//! The central ones: merging the same remote answer twice changes nothing
//! beyond merging it once (so replayed or concurrent merges are harmless);
//! a non-live entry is never surfaced; a live entry surfaces the element
//! of its oldest undeleted header; and the live links under a key are
//! exactly the creates with zero registered removes, independent of
//! registration order.

use crate::cascade::{
    dedup_links, filter_live_links, get_entry_outcome, has_link_hash, integrate_group_m,
    integrate_header, link_removed, links_of, live_links_list, live_list, local_element,
    merge_element_e, merge_entry_resps_e, merge_entry_resps_m, merge_header_resps_e,
    merge_header_resps_m,
    merge_shs_e, merge_shs_m, merge_we_e, merge_we_m, oldest_live, reg_hash, reg_hash_pair,
    reg_link, thh_of, wire_element_of,
};
use crate::element::{group_fold, SignedHeaderHashedV, SignedHeaderV};
use crate::element_buf::{
    buf_put, find_entry, find_header, put_entry, put_group_fold, put_header, ElementBufV,
};
use crate::entry::entry_hash_of;
use crate::hash::HashV;
use crate::header::{header_hash_of, HeaderV};
use crate::metadata::{
    derived_status, has_basis, has_pair, key_matches, link_of_meta, reg_pair, select_links,
    select_thh,
    EntryDhtStatus, LinkMetaKeyV, LinkMetaV, LinkV, MetaV,
};
use crate::net::{GetElementResponseV, Network, RawGetEntryResponseV, WireElementV};
use crate::time::{thh_le, ThhV};
use vstd::prelude::*;

verus! {

// ---------------------------------------------------------------------
// Registration is append-only: presence of a record survives every later
// registration, and registering a present record changes nothing.
// ---------------------------------------------------------------------

/// Registering a keyed record makes it present.
pub proof fn lemma_reg_pair_adds(s: Seq<(HashV, ThhV)>, b: HashV, t: ThhV)
    ensures
        has_pair(reg_pair(s, b, t), b, t),
{
    if !has_pair(s, b, t) {
        assert(s.push((b, t))[s.len() as int] == (b, t));
    }
}

/// A sequence keeps its members when an address is registered.
pub proof fn lemma_reg_hash_mono(s: Seq<HashV>, h: HashV, x: HashV)
    requires
        s.contains(x),
    ensures
        reg_hash(s, h).contains(x),
{
    if !s.contains(h) {
        let i = choose|i: int| 0 <= i < s.len() && s[i] == x;
        assert(s.push(h)[i] == x);
    }
}

/// Registering a link-add represents its address.
pub proof fn lemma_reg_link_adds(s: Seq<LinkMetaV>, l: LinkMetaV)
    ensures
        has_link_hash(reg_link(s, l), l.link_add_hash),
{
    if !has_link_hash(s, l.link_add_hash) {
        assert(s.push(l)[s.len() as int].link_add_hash == l.link_add_hash);
    }
}

/// Whether every record that integrating a header at an address would add
/// is already present.
pub open spec fn registered(m: MetaV, h: HeaderV, hash: HashV) -> bool {
    &&& m.store_elements.contains(hash)
    &&& match h {
        HeaderV::Create(c) => has_pair(m.headers_on_entry, c.entry_hash, thh_of(h, hash))
            && m.store_entries.contains((c.entry_hash, hash)),
        HeaderV::Update(u) => has_pair(m.headers_on_entry, u.entry_hash, thh_of(h, hash))
            && m.store_entries.contains((u.entry_hash, hash)) && has_pair(
            m.updates_on_entry,
            u.original_entry_address,
            thh_of(h, hash),
        ),
        HeaderV::Delete(d) => has_pair(m.deletes_on_entry, d.deletes_entry_address, thh_of(h, hash))
            && has_pair(m.deletes_on_header, d.deletes_address, thh_of(h, hash)),
        HeaderV::CreateLink(l) => has_link_hash(m.link_adds, hash),
        HeaderV::DeleteLink(l) => has_pair(m.link_removes, l.link_add_address, thh_of(h, hash)),
    }
}

/// After integrating a header, its records are present.
pub proof fn lemma_integrate_registers(m: MetaV, h: HeaderV, hash: HashV)
    ensures
        registered(integrate_header(m, h, hash), h, hash),
{
    let m1 = MetaV { store_elements: reg_hash(m.store_elements, hash), ..m };
    if !m.store_elements.contains(hash) {
        assert(m.store_elements.push(hash)[m.store_elements.len() as int] == hash);
    }
    match h {
        HeaderV::Create(c) => {
            lemma_reg_pair_adds(m1.headers_on_entry, c.entry_hash, thh_of(h, hash));
            if !m1.store_entries.contains((c.entry_hash, hash)) {
                assert(m1.store_entries.push((c.entry_hash, hash))[m1.store_entries.len() as int]
                    == (c.entry_hash, hash));
            }
        },
        HeaderV::Update(u) => {
            lemma_reg_pair_adds(m1.headers_on_entry, u.entry_hash, thh_of(h, hash));
            lemma_reg_pair_adds(m1.updates_on_entry, u.original_entry_address, thh_of(h, hash));
            if !m1.store_entries.contains((u.entry_hash, hash)) {
                assert(m1.store_entries.push((u.entry_hash, hash))[m1.store_entries.len() as int]
                    == (u.entry_hash, hash));
            }
        },
        HeaderV::Delete(d) => {
            lemma_reg_pair_adds(m1.deletes_on_entry, d.deletes_entry_address, thh_of(h, hash));
            lemma_reg_pair_adds(m1.deletes_on_header, d.deletes_address, thh_of(h, hash));
        },
        HeaderV::CreateLink(l) => {
            lemma_reg_link_adds(
                m1.link_adds,
                LinkMetaV {
                    base: l.base_address,
                    zome_id: l.zome_id,
                    tag: l.tag,
                    link_add_hash: hash,
                    timestamp: l.timestamp,
                    target: l.target_address,
                },
            );
        },
        HeaderV::DeleteLink(l) => {
            lemma_reg_pair_adds(m1.link_removes, l.link_add_address, thh_of(h, hash));
        },
    }
}

/// Integrating a header whose records are all present changes nothing.
pub proof fn lemma_integrate_noop(m: MetaV, h: HeaderV, hash: HashV)
    requires
        registered(m, h, hash),
    ensures
        integrate_header(m, h, hash) == m,
{
    assert(reg_hash(m.store_elements, hash) == m.store_elements);
    assert(integrate_header(m, h, hash) =~= m);
}

/// Presence of a header's records survives integrating any other header.
pub proof fn lemma_registered_monotone(m: MetaV, h: HeaderV, hash: HashV, h2: HeaderV, hash2: HashV)
    requires
        registered(m, h, hash),
    ensures
        registered(integrate_header(m, h2, hash2), h, hash),
{
    let m2 = integrate_header(m, h2, hash2);
    assert(m2.store_elements.contains(hash)) by {
        lemma_reg_hash_mono(m.store_elements, hash2, hash);
    }
    assert forall|b: HashV, t: ThhV| has_pair(m.headers_on_entry, b, t) implies has_pair(
        m2.headers_on_entry,
        b,
        t,
    ) by {
        if m2.headers_on_entry != m.headers_on_entry {
            lemma_reg_pair_mono_any(m.headers_on_entry, m2.headers_on_entry, b, t);
        }
    }
    assert forall|b: HashV, t: ThhV| has_pair(m.updates_on_entry, b, t) implies has_pair(
        m2.updates_on_entry,
        b,
        t,
    ) by {
        if m2.updates_on_entry != m.updates_on_entry {
            lemma_reg_pair_mono_any(m.updates_on_entry, m2.updates_on_entry, b, t);
        }
    }
    assert forall|b: HashV, t: ThhV| has_pair(m.deletes_on_entry, b, t) implies has_pair(
        m2.deletes_on_entry,
        b,
        t,
    ) by {
        if m2.deletes_on_entry != m.deletes_on_entry {
            lemma_reg_pair_mono_any(m.deletes_on_entry, m2.deletes_on_entry, b, t);
        }
    }
    assert forall|b: HashV, t: ThhV| has_pair(m.deletes_on_header, b, t) implies has_pair(
        m2.deletes_on_header,
        b,
        t,
    ) by {
        if m2.deletes_on_header != m.deletes_on_header {
            lemma_reg_pair_mono_any(m.deletes_on_header, m2.deletes_on_header, b, t);
        }
    }
    assert forall|b: HashV, t: ThhV| has_pair(m.link_removes, b, t) implies has_pair(
        m2.link_removes,
        b,
        t,
    ) by {
        if m2.link_removes != m.link_removes {
            lemma_reg_pair_mono_any(m.link_removes, m2.link_removes, b, t);
        }
    }
    assert forall|p: (HashV, HashV)| m.store_entries.contains(p) implies m2.store_entries.contains(
        p,
    ) by {
        if m2.store_entries != m.store_entries {
            let i = choose|i: int| 0 <= i < m.store_entries.len() && m.store_entries[i] == p;
            assert(m2.store_entries[i] == p);
        }
    }
    assert forall|x: HashV| has_link_hash(m.link_adds, x) implies has_link_hash(
        m2.link_adds,
        x,
    ) by {
        if m2.link_adds != m.link_adds {
            let i = choose|i: int|
                0 <= i < m.link_adds.len() && (#[trigger] m.link_adds[i]).link_add_hash == x;
            assert(m2.link_adds[i].link_add_hash == x);
        }
    }
}

/// A keyed-record run extended by one registration keeps its members.
proof fn lemma_reg_pair_mono_any(s: Seq<(HashV, ThhV)>, s2: Seq<(HashV, ThhV)>, b: HashV, t: ThhV)
    requires
        has_pair(s, b, t),
        s2.len() == s.len() + 1,
        forall|i: int| 0 <= i < s.len() ==> s2[i] == s[i],
    ensures
        has_pair(s2, b, t),
{
    let i = choose|i: int| 0 <= i < s.len() && s[i] == (b, t);
    assert(s2[i] == (b, t));
}

/// The metadata store after integrating the first `j` headers of a run.
pub open spec fn integrate_seq(m: MetaV, items: Seq<(HeaderV, HashV)>, j: int) -> MetaV
    decreases j,
{
    if j <= 0 {
        m
    } else {
        integrate_header(integrate_seq(m, items, j - 1), items[j - 1].0, items[j - 1].1)
    }
}

/// After integrating a run, every header of the run is registered.
pub proof fn lemma_integrate_seq_all_registered(m: MetaV, items: Seq<(HeaderV, HashV)>, n: int)
    requires
        0 <= n <= items.len(),
    ensures
        forall|k: int|
            0 <= k < n ==> registered(
                integrate_seq(m, items, n),
                (#[trigger] items[k]).0,
                items[k].1,
            ),
    decreases n,
{
    if n > 0 {
        lemma_integrate_seq_all_registered(m, items, n - 1);
        let prev = integrate_seq(m, items, n - 1);
        assert forall|k: int| 0 <= k < n implies registered(
            integrate_seq(m, items, n),
            (#[trigger] items[k]).0,
            items[k].1,
        ) by {
            if k < n - 1 {
                lemma_registered_monotone(prev, items[k].0, items[k].1, items[n - 1].0, items[n - 1].1);
            } else {
                lemma_integrate_registers(prev, items[n - 1].0, items[n - 1].1);
            }
        }
    }
}

/// Integrating a run whose headers are all registered changes nothing.
pub proof fn lemma_integrate_seq_noop(m: MetaV, items: Seq<(HeaderV, HashV)>, n: int)
    requires
        0 <= n <= items.len(),
        forall|k: int| 0 <= k < n ==> registered(m, (#[trigger] items[k]).0, items[k].1),
    ensures
        integrate_seq(m, items, n) == m,
    decreases n,
{
    if n > 0 {
        lemma_integrate_seq_noop(m, items, n - 1);
        lemma_integrate_noop(m, items[n - 1].0, items[n - 1].1);
    }
}

/// Integrating the same run of headers twice yields the store that one
/// pass yields.
pub proof fn lemma_integrate_seq_idempotent(m: MetaV, items: Seq<(HeaderV, HashV)>, n: int)
    requires
        0 <= n <= items.len(),
    ensures
        integrate_seq(integrate_seq(m, items, n), items, n) == integrate_seq(m, items, n),
{
    lemma_integrate_seq_all_registered(m, items, n);
    lemma_integrate_seq_noop(integrate_seq(m, items, n), items, n);
}

/// Splitting a run splits its integration.
pub proof fn lemma_integrate_seq_append(m: MetaV, a: Seq<(HeaderV, HashV)>, b: Seq<(HeaderV, HashV)>)
    ensures
        integrate_seq(m, a + b, (a.len() + b.len()) as int) == integrate_seq(
            integrate_seq(m, a, a.len() as int),
            b,
            b.len() as int,
        ),
    decreases b.len(),
{
    let n = (a.len() + b.len()) as int;
    if b.len() == 0 {
        assert(a + b =~= a);
        lemma_integrate_seq_prefix(m, a + b, a, a.len() as int);
        assert(integrate_seq(integrate_seq(m, a, a.len() as int), b, 0) == integrate_seq(
            m,
            a,
            a.len() as int,
        ));
    } else {
        lemma_integrate_seq_append(m, a, b.drop_last());
        assert((a + b.drop_last()).len() == n - 1);
        lemma_integrate_seq_prefix(m, a + b, a + b.drop_last(), n - 1);
        assert(integrate_seq(m, a + b, n) == integrate_header(
            integrate_seq(m, a + b, n - 1),
            (a + b)[n - 1].0,
            (a + b)[n - 1].1,
        ));
        assert((a + b)[n - 1] == b[b.len() - 1]);
        let inner = integrate_seq(m, a, a.len() as int);
        assert(integrate_seq(inner, b, b.len() as int) == integrate_header(
            integrate_seq(inner, b, b.len() as int - 1),
            b[b.len() - 1].0,
            b[b.len() - 1].1,
        ));
        lemma_integrate_seq_prefix(inner, b, b.drop_last(), b.len() as int - 1);
    }
}

/// Integration over a prefix only reads the prefix.
pub proof fn lemma_integrate_seq_prefix(
    m: MetaV,
    s1: Seq<(HeaderV, HashV)>,
    s2: Seq<(HeaderV, HashV)>,
    j: int,
)
    requires
        0 <= j <= s1.len(),
        j <= s2.len(),
        forall|i: int| 0 <= i < j ==> s1[i] == s2[i],
    ensures
        integrate_seq(m, s1, j) == integrate_seq(m, s2, j),
    decreases j,
{
    if j > 0 {
        lemma_integrate_seq_prefix(m, s1, s2, j - 1);
    }
}

// ---------------------------------------------------------------------
// Every cache merge is the integration of a run of headers.
// ---------------------------------------------------------------------

/// The headers of a deduplicated group, as an integration run.
pub open spec fn group_items(g: Seq<SignedHeaderHashedV>) -> Seq<(HeaderV, HashV)> {
    Seq::new(g.len(), |i: int| (g[i].header, g[i].hash))
}

/// Integrating a group is integrating its headers.
pub proof fn lemma_integrate_group_items(m: MetaV, g: Seq<SignedHeaderHashedV>, j: int)
    requires
        0 <= j <= g.len(),
    ensures
        integrate_group_m(m, g, j) == integrate_seq(m, group_items(g), j),
    decreases j,
{
    if j > 0 {
        lemma_integrate_group_items(m, g, j - 1);
    }
}

/// The well-formed headers of a bare signed run, as an integration run.
pub open spec fn shs_items(shs: Seq<SignedHeaderV>, j: int) -> Seq<(HeaderV, HashV)>
    decreases j,
{
    if j <= 0 {
        Seq::empty()
    } else {
        let p = shs_items(shs, j - 1);
        if shs[j - 1].header.wf() {
            p.push((shs[j - 1].header, header_hash_of(shs[j - 1].header)))
        } else {
            p
        }
    }
}

/// Merging a bare signed run is integrating its well-formed headers.
pub proof fn lemma_merge_shs_m_items(m: MetaV, shs: Seq<SignedHeaderV>, j: int)
    requires
        0 <= j <= shs.len(),
    ensures
        merge_shs_m(m, shs, j) == integrate_seq(m, shs_items(shs, j), shs_items(shs, j).len() as int),
    decreases j,
{
    if j > 0 {
        lemma_merge_shs_m_items(m, shs, j - 1);
        let p = shs_items(shs, j - 1);
        if shs[j - 1].header.wf() {
            assert(shs_items(shs, j) == p.push(
                (shs[j - 1].header, header_hash_of(shs[j - 1].header)),
            ));
            lemma_integrate_seq_prefix(
                m,
                shs_items(shs, j),
                p,
                p.len() as int,
            );
        }
    }
}

/// The headers one full entry answer integrates: the deduplicated group,
/// then the well-formed deletes, then the well-formed updates.
pub open spec fn raw_items(raw: RawGetEntryResponseV) -> Seq<(HeaderV, HashV)> {
    if !raw.entry.wf() {
        Seq::empty()
    } else {
        let g = group_fold(
            raw.live_headers,
            raw.live_headers.len() as int,
            entry_hash_of(raw.entry),
        );
        group_items(g) + shs_items(raw.deletes, raw.deletes.len() as int) + shs_items(
            raw.updates,
            raw.updates.len() as int,
        )
    }
}

/// Merging a full entry answer is integrating its headers.
pub proof fn lemma_merge_raw_m_items(m: MetaV, raw: RawGetEntryResponseV)
    ensures
        crate::cascade::merge_raw_m(m, raw) == integrate_seq(
            m,
            raw_items(raw),
            raw_items(raw).len() as int,
        ),
{
    if raw.entry.wf() {
        let g = group_fold(
            raw.live_headers,
            raw.live_headers.len() as int,
            entry_hash_of(raw.entry),
        );
        let gi = group_items(g);
        let di = shs_items(raw.deletes, raw.deletes.len() as int);
        let ui = shs_items(raw.updates, raw.updates.len() as int);
        lemma_integrate_group_items(m, g, g.len() as int);
        let m1 = integrate_group_m(m, g, g.len() as int);
        lemma_merge_shs_m_items(m1, raw.deletes, raw.deletes.len() as int);
        let m2 = merge_shs_m(m1, raw.deletes, raw.deletes.len() as int);
        lemma_merge_shs_m_items(m2, raw.updates, raw.updates.len() as int);
        lemma_integrate_seq_append(m, gi, di);
        lemma_integrate_seq_append(m, gi + di, ui);
        assert(gi + di + ui =~= raw_items(raw));
        lemma_integrate_seq_prefix(
            m,
            gi + di + ui,
            raw_items(raw),
            (gi.len() + di.len() + ui.len()) as int,
        );
    }
}

/// Merging the same wire header answer into the metadata cache twice
/// yields the same store — and hence the same derived status for every
/// entry — as merging it once.
pub proof fn lemma_merge_we_m_idempotent(m: MetaV, we: WireElementV, e: HashV)
    ensures
        merge_we_m(merge_we_m(m, we), we) == merge_we_m(m, we),
        derived_status(merge_we_m(merge_we_m(m, we), we), e) == derived_status(
            merge_we_m(m, we),
            e,
        ),
{
    if we.signed_header.header.wf() {
        let h = we.signed_header.header;
        let hh = header_hash_of(h);
        let m1 = integrate_header(m, h, hh);
        lemma_integrate_registers(m, h, hh);
        match we.deleted {
            Some(d) => {
                if d.header.wf() {
                    let dh = header_hash_of(d.header);
                    let m2 = integrate_header(m1, d.header, dh);
                    lemma_registered_monotone(m1, h, hh, d.header, dh);
                    lemma_integrate_noop(m2, h, hh);
                    lemma_integrate_registers(m1, d.header, dh);
                    lemma_integrate_noop(m2, d.header, dh);
                } else {
                    lemma_integrate_noop(m1, h, hh);
                }
            },
            None => {
                lemma_integrate_noop(m1, h, hh);
            },
        }
    }
}

/// Merging the same full entry answer into the metadata cache twice
/// yields the same store — and hence the same derived status for every
/// entry — as merging it once.
pub proof fn lemma_merge_raw_m_idempotent(m: MetaV, raw: RawGetEntryResponseV, e: HashV)
    ensures
        crate::cascade::merge_raw_m(crate::cascade::merge_raw_m(m, raw), raw)
            == crate::cascade::merge_raw_m(m, raw),
        derived_status(
            crate::cascade::merge_raw_m(crate::cascade::merge_raw_m(m, raw), raw),
            e,
        ) == derived_status(crate::cascade::merge_raw_m(m, raw), e),
{
    lemma_merge_raw_m_items(m, raw);
    lemma_merge_raw_m_items(crate::cascade::merge_raw_m(m, raw), raw);
    lemma_integrate_seq_idempotent(m, raw_items(raw), raw_items(raw).len() as int);
}

// ---------------------------------------------------------------------
// The element-store side: storing is idempotent too.
// ---------------------------------------------------------------------

/// A header found stays found after any write.
pub proof fn lemma_find_header_after_put(
    s: Seq<SignedHeaderHashedV>,
    x: SignedHeaderHashedV,
    h: HashV,
)
    requires
        find_header(s, h) is Some,
    ensures
        find_header(put_header(s, x), h) is Some,
    decreases s.len(),
{
    if find_header(s, x.hash) is None {
        lemma_find_header_push(s, x, h);
    }
}

/// Finding in a run extended by one value.
pub proof fn lemma_find_header_push(s: Seq<SignedHeaderHashedV>, x: SignedHeaderHashedV, h: HashV)
    ensures
        find_header(s.push(x), h) == (if find_header(s, h) is Some {
            find_header(s, h)
        } else if x.hash == h {
            Some(x)
        } else {
            None
        }),
    decreases s.len(),
{
    if s.len() == 0 {
        assert(s.push(x)[0] == x);
        assert(s.push(x).skip(1) =~= Seq::<SignedHeaderHashedV>::empty());
    } else {
        assert(s.push(x)[0] == s[0]);
        assert(s.push(x).skip(1) =~= s.skip(1).push(x));
        lemma_find_header_push(s.skip(1), x, h);
    }
}

/// An entry found stays found after any write.
pub proof fn lemma_find_entry_after_put(
    s: Seq<crate::element::EntryHashedV>,
    x: crate::element::EntryHashedV,
    h: HashV,
)
    requires
        find_entry(s, h) is Some,
    ensures
        find_entry(put_entry(s, x), h) is Some,
    decreases s.len(),
{
    if find_entry(s, x.hash) is None {
        lemma_find_entry_push(s, x, h);
    }
}

/// Finding in a run extended by one value.
#[verifier::rlimit(50)]
#[verifier::spinoff_prover]
pub proof fn lemma_find_entry_push(
    s: Seq<crate::element::EntryHashedV>,
    x: crate::element::EntryHashedV,
    h: HashV,
)
    ensures
        find_entry(s.push(x), h) == (if find_entry(s, h) is Some {
            find_entry(s, h)
        } else if x.hash == h {
            Some(x)
        } else {
            None
        }),
    decreases s.len(),
{
    if s.len() == 0 {
        assert(s.push(x)[0] == x);
        assert(s.push(x).skip(1) =~= Seq::<crate::element::EntryHashedV>::empty());
        assert(find_entry(Seq::<crate::element::EntryHashedV>::empty(), h) is None);
        if x.hash == h {
            assert(find_entry(s.push(x), h) == Some(x));
        } else {
            assert(find_entry(s.push(x), h) is None);
        }
        assert(find_entry(s, h) is None);
    } else {
        assert(s.push(x)[0] == s[0]);
        assert(s.push(x).skip(1) =~= s.skip(1).push(x));
        if s[0].hash == h {
            assert(find_entry(s, h) == Some(s[0]));
            assert(find_entry(s.push(x), h) == Some(s[0]));
        } else {
            lemma_find_entry_push(s.skip(1), x, h);
            assert(find_entry(s.push(x), h) == find_entry(s.skip(1).push(x), h));
            assert(find_entry(s, h) == find_entry(s.skip(1), h));
        }
    }
}

/// Whether everything one write would add is already held.
pub open spec fn held(b: ElementBufV, x: SignedHeaderHashedV, e: Option<crate::element::EntryHashedV>) -> bool {
    &&& find_header(b.headers, x.hash) is Some
    &&& match e {
        Some(eh) => find_entry(b.entries, eh.hash) is Some,
        None => true,
    }
}

/// After one write, what it wrote is held.
pub proof fn lemma_put_holds(b: ElementBufV, x: SignedHeaderHashedV, e: Option<crate::element::EntryHashedV>)
    ensures
        held(buf_put(b, x, e), x, e),
{
    if find_header(b.headers, x.hash) is None {
        lemma_find_header_push(b.headers, x, x.hash);
    }
    match e {
        Some(eh) => {
            if find_entry(b.entries, eh.hash) is None {
                lemma_find_entry_push(b.entries, eh, eh.hash);
            }
        },
        None => {},
    }
}

/// A write whose data is already held changes nothing.
pub proof fn lemma_put_noop(b: ElementBufV, x: SignedHeaderHashedV, e: Option<crate::element::EntryHashedV>)
    requires
        held(b, x, e),
    ensures
        buf_put(b, x, e) == b,
{
    assert(buf_put(b, x, e) =~= b);
}

/// Held data stays held after any other write.
pub proof fn lemma_held_monotone(
    b: ElementBufV,
    x: SignedHeaderHashedV,
    e: Option<crate::element::EntryHashedV>,
    x2: SignedHeaderHashedV,
    e2: Option<crate::element::EntryHashedV>,
)
    requires
        held(b, x, e),
    ensures
        held(buf_put(b, x2, e2), x, e),
{
    lemma_find_header_after_put(b.headers, x2, x.hash);
    match e {
        Some(eh) => {
            match e2 {
                Some(eh2) => {
                    lemma_find_entry_after_put(b.entries, eh2, eh.hash);
                },
                None => {},
            }
        },
        None => {},
    }
}

/// The element store after the first `j` writes of a run.
pub open spec fn put_seq(
    b: ElementBufV,
    items: Seq<(SignedHeaderHashedV, Option<crate::element::EntryHashedV>)>,
    j: int,
) -> ElementBufV
    decreases j,
{
    if j <= 0 {
        b
    } else {
        buf_put(put_seq(b, items, j - 1), items[j - 1].0, items[j - 1].1)
    }
}

/// After a run of writes, everything written is held.
pub proof fn lemma_put_seq_all_held(
    b: ElementBufV,
    items: Seq<(SignedHeaderHashedV, Option<crate::element::EntryHashedV>)>,
    n: int,
)
    requires
        0 <= n <= items.len(),
    ensures
        forall|k: int|
            0 <= k < n ==> held(put_seq(b, items, n), (#[trigger] items[k]).0, items[k].1),
    decreases n,
{
    if n > 0 {
        lemma_put_seq_all_held(b, items, n - 1);
        let prev = put_seq(b, items, n - 1);
        assert forall|k: int| 0 <= k < n implies held(
            put_seq(b, items, n),
            (#[trigger] items[k]).0,
            items[k].1,
        ) by {
            if k < n - 1 {
                lemma_held_monotone(prev, items[k].0, items[k].1, items[n - 1].0, items[n - 1].1);
            } else {
                lemma_put_holds(prev, items[n - 1].0, items[n - 1].1);
            }
        }
    }
}

/// A run of writes whose data is all held changes nothing.
pub proof fn lemma_put_seq_noop(
    b: ElementBufV,
    items: Seq<(SignedHeaderHashedV, Option<crate::element::EntryHashedV>)>,
    n: int,
)
    requires
        0 <= n <= items.len(),
        forall|k: int| 0 <= k < n ==> held(b, (#[trigger] items[k]).0, items[k].1),
    ensures
        put_seq(b, items, n) == b,
    decreases n,
{
    if n > 0 {
        lemma_put_seq_noop(b, items, n - 1);
        lemma_put_noop(b, items[n - 1].0, items[n - 1].1);
    }
}

/// Writing the same run twice yields the store that one pass yields.
pub proof fn lemma_put_seq_idempotent(
    b: ElementBufV,
    items: Seq<(SignedHeaderHashedV, Option<crate::element::EntryHashedV>)>,
    n: int,
)
    requires
        0 <= n <= items.len(),
    ensures
        put_seq(put_seq(b, items, n), items, n) == put_seq(b, items, n),
{
    lemma_put_seq_all_held(b, items, n);
    lemma_put_seq_noop(put_seq(b, items, n), items, n);
}

/// Merging the same wire header answer into the element cache twice
/// yields the same held elements as merging it once.
pub proof fn lemma_merge_we_e_idempotent(b: ElementBufV, we: WireElementV)
    ensures
        merge_we_e(merge_we_e(b, we), we) == merge_we_e(b, we),
{
    if we.signed_header.header.wf() {
        let el = wire_element_of(we);
        let x = SignedHeaderHashedV { header: el.header, hash: el.hash, signature: el.signature };
        let xe = match el.entry {
            Some(ev) => Some(crate::element::EntryHashedV { entry: ev, hash: entry_hash_of(ev) }),
            None => None,
        };
        let b1 = buf_put(b, x, xe);
        lemma_put_holds(b, x, xe);
        match we.deleted {
            Some(d) => {
                if d.header.wf() {
                    let y = SignedHeaderHashedV {
                        header: d.header,
                        hash: header_hash_of(d.header),
                        signature: d.signature,
                    };
                    let b2 = buf_put(b1, y, None);
                    lemma_held_monotone(b1, x, xe, y, None);
                    lemma_put_noop(b2, x, xe);
                    lemma_put_holds(b1, y, None);
                    lemma_put_noop(b2, y, None);
                } else {
                    lemma_put_noop(b1, x, xe);
                }
            },
            None => {
                lemma_put_noop(b1, x, xe);
            },
        }
    }
}

/// Writing over a prefix only reads the prefix.
pub proof fn lemma_put_seq_prefix(
    b: ElementBufV,
    s1: Seq<(SignedHeaderHashedV, Option<crate::element::EntryHashedV>)>,
    s2: Seq<(SignedHeaderHashedV, Option<crate::element::EntryHashedV>)>,
    j: int,
)
    requires
        0 <= j <= s1.len(),
        j <= s2.len(),
        forall|i: int| 0 <= i < j ==> s1[i] == s2[i],
    ensures
        put_seq(b, s1, j) == put_seq(b, s2, j),
    decreases j,
{
    if j > 0 {
        lemma_put_seq_prefix(b, s1, s2, j - 1);
    }
}

/// Splitting a run of writes splits its effect.
pub proof fn lemma_put_seq_append(
    b: ElementBufV,
    a: Seq<(SignedHeaderHashedV, Option<crate::element::EntryHashedV>)>,
    c: Seq<(SignedHeaderHashedV, Option<crate::element::EntryHashedV>)>,
)
    ensures
        put_seq(b, a + c, (a.len() + c.len()) as int) == put_seq(
            put_seq(b, a, a.len() as int),
            c,
            c.len() as int,
        ),
    decreases c.len(),
{
    let n = (a.len() + c.len()) as int;
    if c.len() == 0 {
        assert(a + c =~= a);
        lemma_put_seq_prefix(b, a + c, a, a.len() as int);
    } else {
        lemma_put_seq_append(b, a, c.drop_last());
        assert((a + c.drop_last()).len() == n - 1);
        lemma_put_seq_prefix(b, a + c, a + c.drop_last(), n - 1);
        assert(put_seq(b, a + c, n) == buf_put(
            put_seq(b, a + c, n - 1),
            (a + c)[n - 1].0,
            (a + c)[n - 1].1,
        ));
        assert((a + c)[n - 1] == c[c.len() - 1]);
        let inner = put_seq(b, a, a.len() as int);
        assert(put_seq(inner, c, c.len() as int) == buf_put(
            put_seq(inner, c, c.len() as int - 1),
            c[c.len() - 1].0,
            c[c.len() - 1].1,
        ));
        lemma_put_seq_prefix(inner, c, c.drop_last(), c.len() as int - 1);
    }
}

/// The writes a deduplicated group makes: every header with the shared
/// entry.
pub open spec fn group_put_items(g: Seq<SignedHeaderHashedV>, e: crate::element::EntryHashedV) -> Seq<
    (SignedHeaderHashedV, Option<crate::element::EntryHashedV>),
> {
    Seq::new(g.len(), |i: int| (g[i], Some(e)))
}

/// Storing a group is a run of writes.
pub proof fn lemma_put_group_items(
    b: ElementBufV,
    g: Seq<SignedHeaderHashedV>,
    e: crate::element::EntryHashedV,
    j: int,
)
    requires
        0 <= j <= g.len(),
    ensures
        put_group_fold(b, g, e, j) == put_seq(b, group_put_items(g, e), j),
    decreases j,
{
    if j > 0 {
        lemma_put_group_items(b, g, e, j - 1);
    }
}

/// The writes a bare signed run makes: each well-formed header, without
/// entry bytes.
pub open spec fn shs_put_items(shs: Seq<SignedHeaderV>, j: int) -> Seq<
    (SignedHeaderHashedV, Option<crate::element::EntryHashedV>),
>
    decreases j,
{
    if j <= 0 {
        Seq::empty()
    } else {
        let p = shs_put_items(shs, j - 1);
        if shs[j - 1].header.wf() {
            p.push(
                (
                    SignedHeaderHashedV {
                        header: shs[j - 1].header,
                        hash: header_hash_of(shs[j - 1].header),
                        signature: shs[j - 1].signature,
                    },
                    None,
                ),
            )
        } else {
            p
        }
    }
}

/// Storing a bare signed run is a run of writes.
pub proof fn lemma_merge_shs_e_items(b: ElementBufV, shs: Seq<SignedHeaderV>, j: int)
    requires
        0 <= j <= shs.len(),
    ensures
        merge_shs_e(b, shs, j) == put_seq(b, shs_put_items(shs, j), shs_put_items(shs, j).len() as int),
    decreases j,
{
    if j > 0 {
        lemma_merge_shs_e_items(b, shs, j - 1);
        let p = shs_put_items(shs, j - 1);
        if shs[j - 1].header.wf() {
            lemma_put_seq_prefix(b, shs_put_items(shs, j), p, p.len() as int);
        }
    }
}

/// The writes one full entry answer makes.
pub open spec fn raw_put_items(raw: RawGetEntryResponseV) -> Seq<
    (SignedHeaderHashedV, Option<crate::element::EntryHashedV>),
> {
    if !raw.entry.wf() {
        Seq::empty()
    } else {
        let g = group_fold(
            raw.live_headers,
            raw.live_headers.len() as int,
            entry_hash_of(raw.entry),
        );
        let e = crate::element::EntryHashedV { entry: raw.entry, hash: entry_hash_of(raw.entry) };
        group_put_items(g, e) + shs_put_items(raw.deletes, raw.deletes.len() as int)
            + shs_put_items(raw.updates, raw.updates.len() as int)
    }
}

/// Merging a full entry answer into the element cache is a run of writes.
pub proof fn lemma_merge_raw_e_items(b: ElementBufV, raw: RawGetEntryResponseV)
    ensures
        crate::cascade::merge_raw_e(b, raw) == put_seq(
            b,
            raw_put_items(raw),
            raw_put_items(raw).len() as int,
        ),
{
    if raw.entry.wf() {
        let g = group_fold(
            raw.live_headers,
            raw.live_headers.len() as int,
            entry_hash_of(raw.entry),
        );
        let e = crate::element::EntryHashedV { entry: raw.entry, hash: entry_hash_of(raw.entry) };
        let gi = group_put_items(g, e);
        let di = shs_put_items(raw.deletes, raw.deletes.len() as int);
        let ui = shs_put_items(raw.updates, raw.updates.len() as int);
        lemma_put_group_items(b, g, e, g.len() as int);
        let b1 = put_group_fold(b, g, e, g.len() as int);
        lemma_merge_shs_e_items(b1, raw.deletes, raw.deletes.len() as int);
        let b2 = merge_shs_e(b1, raw.deletes, raw.deletes.len() as int);
        lemma_merge_shs_e_items(b2, raw.updates, raw.updates.len() as int);
        lemma_put_seq_append(b, gi, di);
        lemma_put_seq_append(b, gi + di, ui);
        assert(gi + di + ui =~= raw_put_items(raw));
        lemma_put_seq_prefix(
            b,
            gi + di + ui,
            raw_put_items(raw),
            (gi.len() + di.len() + ui.len()) as int,
        );
    }
}

/// Merging the same full entry answer into the element cache twice yields
/// the same held elements as merging it once.
pub proof fn lemma_merge_raw_e_idempotent(b: ElementBufV, raw: RawGetEntryResponseV)
    ensures
        crate::cascade::merge_raw_e(crate::cascade::merge_raw_e(b, raw), raw)
            == crate::cascade::merge_raw_e(b, raw),
{
    lemma_merge_raw_e_items(b, raw);
    lemma_merge_raw_e_items(crate::cascade::merge_raw_e(b, raw), raw);
    lemma_put_seq_idempotent(b, raw_put_items(raw), raw_put_items(raw).len() as int);
}

// ---------------------------------------------------------------------
// Idempotence lifts from one answer to the whole answer list of a fetch.
// ---------------------------------------------------------------------

/// Whether every record a wire header answer would register is present.
pub open spec fn we_registered(m: MetaV, we: WireElementV) -> bool {
    we.signed_header.header.wf() ==> ({
        &&& registered(m, we.signed_header.header, header_hash_of(we.signed_header.header))
        &&& match we.deleted {
            Some(d) => d.header.wf() ==> registered(m, d.header, header_hash_of(d.header)),
            None => true,
        }
    })
}

/// A header's records survive merging any wire header answer.
pub proof fn lemma_registered_after_we(m: MetaV, h: HeaderV, hash: HashV, we: WireElementV)
    requires
        registered(m, h, hash),
    ensures
        registered(merge_we_m(m, we), h, hash),
{
    if we.signed_header.header.wf() {
        let hh = header_hash_of(we.signed_header.header);
        let m1 = integrate_header(m, we.signed_header.header, hh);
        lemma_registered_monotone(m, h, hash, we.signed_header.header, hh);
        match we.deleted {
            Some(d) => {
                if d.header.wf() {
                    lemma_registered_monotone(m1, h, hash, d.header, header_hash_of(d.header));
                }
            },
            None => {},
        }
    }
}

/// After merging a wire header answer, its records are present.
pub proof fn lemma_we_merge_registers(m: MetaV, we: WireElementV)
    ensures
        we_registered(merge_we_m(m, we), we),
{
    if we.signed_header.header.wf() {
        let h = we.signed_header.header;
        let hh = header_hash_of(h);
        let m1 = integrate_header(m, h, hh);
        lemma_integrate_registers(m, h, hh);
        match we.deleted {
            Some(d) => {
                if d.header.wf() {
                    let dh = header_hash_of(d.header);
                    lemma_registered_monotone(m1, h, hh, d.header, dh);
                    lemma_integrate_registers(m1, d.header, dh);
                }
            },
            None => {},
        }
    }
}

/// An answer's presence survives merging any other answer.
pub proof fn lemma_we_registered_after_we(m: MetaV, we: WireElementV, we2: WireElementV)
    requires
        we_registered(m, we),
    ensures
        we_registered(merge_we_m(m, we2), we),
{
    if we.signed_header.header.wf() {
        lemma_registered_after_we(
            m,
            we.signed_header.header,
            header_hash_of(we.signed_header.header),
            we2,
        );
        match we.deleted {
            Some(d) => {
                if d.header.wf() {
                    lemma_registered_after_we(m, d.header, header_hash_of(d.header), we2);
                }
            },
            None => {},
        }
    }
}

/// Merging a wire header answer whose records are all present changes
/// nothing.
pub proof fn lemma_we_merge_noop(m: MetaV, we: WireElementV)
    requires
        we_registered(m, we),
    ensures
        merge_we_m(m, we) == m,
{
    if we.signed_header.header.wf() {
        let h = we.signed_header.header;
        let hh = header_hash_of(h);
        lemma_integrate_noop(m, h, hh);
        match we.deleted {
            Some(d) => {
                if d.header.wf() {
                    lemma_integrate_noop(m, d.header, header_hash_of(d.header));
                }
            },
            None => {},
        }
    }
}

/// After merging a whole run of header-request answers, every answer's
/// records are present.
pub proof fn lemma_header_list_all_registered(m: MetaV, rs: Seq<GetElementResponseV>, n: int)
    requires
        0 <= n <= rs.len(),
    ensures
        forall|k: int|
            0 <= k < n ==> match #[trigger] rs[k] {
                GetElementResponseV::GetHeader(Some(we)) => we_registered(
                    merge_header_resps_m(m, rs, n),
                    we,
                ),
                _ => true,
            },
    decreases n,
{
    if n > 0 {
        lemma_header_list_all_registered(m, rs, n - 1);
        let prev = merge_header_resps_m(m, rs, n - 1);
        assert forall|k: int| 0 <= k < n implies match #[trigger] rs[k] {
            GetElementResponseV::GetHeader(Some(we)) => we_registered(
                merge_header_resps_m(m, rs, n),
                we,
            ),
            _ => true,
        } by {
            match rs[k] {
                GetElementResponseV::GetHeader(Some(we)) => {
                    if k < n - 1 {
                        match rs[n - 1] {
                            GetElementResponseV::GetHeader(Some(we2)) => {
                                lemma_we_registered_after_we(prev, we, we2);
                            },
                            _ => {},
                        }
                    } else {
                        lemma_we_merge_registers(prev, we);
                    }
                },
                _ => {},
            }
        }
    }
}

/// Merging a run of header-request answers whose records are all present
/// changes nothing.
pub proof fn lemma_header_list_noop(m: MetaV, rs: Seq<GetElementResponseV>, n: int)
    requires
        0 <= n <= rs.len(),
        forall|k: int|
            0 <= k < n ==> match #[trigger] rs[k] {
                GetElementResponseV::GetHeader(Some(we)) => we_registered(m, we),
                _ => true,
            },
    ensures
        merge_header_resps_m(m, rs, n) == m,
    decreases n,
{
    if n > 0 {
        lemma_header_list_noop(m, rs, n - 1);
        match rs[n - 1] {
            GetElementResponseV::GetHeader(Some(we)) => {
                lemma_we_merge_noop(m, we);
            },
            _ => {},
        }
    }
}

/// Law: merging the full answer list of a header request into the
/// metadata cache twice yields the same store — and the same derived
/// status for every entry — as merging it once.
pub proof fn lemma_merge_header_resps_m_idempotent(
    m: MetaV,
    rs: Seq<GetElementResponseV>,
    e: HashV,
)
    ensures
        merge_header_resps_m(merge_header_resps_m(m, rs, rs.len() as int), rs, rs.len() as int)
            == merge_header_resps_m(m, rs, rs.len() as int),
        derived_status(
            merge_header_resps_m(
                merge_header_resps_m(m, rs, rs.len() as int),
                rs,
                rs.len() as int,
            ),
            e,
        ) == derived_status(merge_header_resps_m(m, rs, rs.len() as int), e),
{
    lemma_header_list_all_registered(m, rs, rs.len() as int);
    lemma_header_list_noop(merge_header_resps_m(m, rs, rs.len() as int), rs, rs.len() as int);
}

/// A header's records survive integrating any run of headers.
pub proof fn lemma_registered_after_seq(
    m: MetaV,
    h: HeaderV,
    hash: HashV,
    items: Seq<(HeaderV, HashV)>,
    n: int,
)
    requires
        registered(m, h, hash),
        0 <= n <= items.len(),
    ensures
        registered(integrate_seq(m, items, n), h, hash),
    decreases n,
{
    if n > 0 {
        lemma_registered_after_seq(m, h, hash, items, n - 1);
        lemma_registered_monotone(
            integrate_seq(m, items, n - 1),
            h,
            hash,
            items[n - 1].0,
            items[n - 1].1,
        );
    }
}

/// Whether every record a full entry answer would register is present.
pub open spec fn raw_registered(m: MetaV, raw: RawGetEntryResponseV) -> bool {
    forall|k: int|
        0 <= k < raw_items(raw).len() ==> registered(
            m,
            (#[trigger] raw_items(raw)[k]).0,
            raw_items(raw)[k].1,
        )
}

/// A header's records survive merging any full entry answer.
pub proof fn lemma_registered_after_raw(m: MetaV, h: HeaderV, hash: HashV, raw: RawGetEntryResponseV)
    requires
        registered(m, h, hash),
    ensures
        registered(crate::cascade::merge_raw_m(m, raw), h, hash),
{
    lemma_merge_raw_m_items(m, raw);
    lemma_registered_after_seq(m, h, hash, raw_items(raw), raw_items(raw).len() as int);
}

/// After merging a full entry answer, its records are present.
pub proof fn lemma_raw_merge_registers(m: MetaV, raw: RawGetEntryResponseV)
    ensures
        raw_registered(crate::cascade::merge_raw_m(m, raw), raw),
{
    lemma_merge_raw_m_items(m, raw);
    lemma_integrate_seq_all_registered(m, raw_items(raw), raw_items(raw).len() as int);
}

/// An answer's presence survives merging any other full entry answer.
pub proof fn lemma_raw_registered_after_raw(
    m: MetaV,
    raw: RawGetEntryResponseV,
    raw2: RawGetEntryResponseV,
)
    requires
        raw_registered(m, raw),
    ensures
        raw_registered(crate::cascade::merge_raw_m(m, raw2), raw),
{
    assert forall|k: int| 0 <= k < raw_items(raw).len() implies registered(
        crate::cascade::merge_raw_m(m, raw2),
        (#[trigger] raw_items(raw)[k]).0,
        raw_items(raw)[k].1,
    ) by {
        lemma_registered_after_raw(m, raw_items(raw)[k].0, raw_items(raw)[k].1, raw2);
    }
}

/// Merging a full entry answer whose records are all present changes
/// nothing.
pub proof fn lemma_raw_merge_noop(m: MetaV, raw: RawGetEntryResponseV)
    requires
        raw_registered(m, raw),
    ensures
        crate::cascade::merge_raw_m(m, raw) == m,
{
    lemma_merge_raw_m_items(m, raw);
    lemma_integrate_seq_noop(m, raw_items(raw), raw_items(raw).len() as int);
}

/// After merging a whole run of entry-request answers, every answer's
/// records are present.
pub proof fn lemma_entry_list_all_registered(m: MetaV, rs: Seq<GetElementResponseV>, n: int)
    requires
        0 <= n <= rs.len(),
    ensures
        forall|k: int|
            0 <= k < n ==> match #[trigger] rs[k] {
                GetElementResponseV::GetEntryFull(Some(raw)) => raw_registered(
                    merge_entry_resps_m(m, rs, n),
                    raw,
                ),
                _ => true,
            },
    decreases n,
{
    if n > 0 {
        lemma_entry_list_all_registered(m, rs, n - 1);
        let prev = merge_entry_resps_m(m, rs, n - 1);
        assert forall|k: int| 0 <= k < n implies match #[trigger] rs[k] {
            GetElementResponseV::GetEntryFull(Some(raw)) => raw_registered(
                merge_entry_resps_m(m, rs, n),
                raw,
            ),
            _ => true,
        } by {
            match rs[k] {
                GetElementResponseV::GetEntryFull(Some(raw)) => {
                    if k < n - 1 {
                        match rs[n - 1] {
                            GetElementResponseV::GetEntryFull(Some(raw2)) => {
                                lemma_raw_registered_after_raw(prev, raw, raw2);
                            },
                            _ => {},
                        }
                    } else {
                        lemma_raw_merge_registers(prev, raw);
                    }
                },
                _ => {},
            }
        }
    }
}

/// Merging a run of entry-request answers whose records are all present
/// changes nothing.
pub proof fn lemma_entry_list_noop(m: MetaV, rs: Seq<GetElementResponseV>, n: int)
    requires
        0 <= n <= rs.len(),
        forall|k: int|
            0 <= k < n ==> match #[trigger] rs[k] {
                GetElementResponseV::GetEntryFull(Some(raw)) => raw_registered(m, raw),
                _ => true,
            },
    ensures
        merge_entry_resps_m(m, rs, n) == m,
    decreases n,
{
    if n > 0 {
        lemma_entry_list_noop(m, rs, n - 1);
        match rs[n - 1] {
            GetElementResponseV::GetEntryFull(Some(raw)) => {
                lemma_raw_merge_noop(m, raw);
            },
            _ => {},
        }
    }
}

/// Law: merging the full answer list of an entry request into the
/// metadata cache twice yields the same store — and the same derived
/// status for every entry — as merging it once.
pub proof fn lemma_merge_entry_resps_m_idempotent(
    m: MetaV,
    rs: Seq<GetElementResponseV>,
    e: HashV,
)
    ensures
        merge_entry_resps_m(merge_entry_resps_m(m, rs, rs.len() as int), rs, rs.len() as int)
            == merge_entry_resps_m(m, rs, rs.len() as int),
        derived_status(
            merge_entry_resps_m(merge_entry_resps_m(m, rs, rs.len() as int), rs, rs.len() as int),
            e,
        ) == derived_status(merge_entry_resps_m(m, rs, rs.len() as int), e),
{
    lemma_entry_list_all_registered(m, rs, rs.len() as int);
    lemma_entry_list_noop(merge_entry_resps_m(m, rs, rs.len() as int), rs, rs.len() as int);
}

/// The write-items of a wire header answer: the answered element, then
/// the delete that came along, each when well-formed.
pub open spec fn we_writes(we: WireElementV) -> Seq<
    (SignedHeaderHashedV, Option<crate::element::EntryHashedV>),
> {
    if !we.signed_header.header.wf() {
        Seq::empty()
    } else {
        let el = wire_element_of(we);
        let first = (
            SignedHeaderHashedV { header: el.header, hash: el.hash, signature: el.signature },
            match el.entry {
                Some(ev) => Some(
                    crate::element::EntryHashedV { entry: ev, hash: entry_hash_of(ev) },
                ),
                None => None,
            },
        );
        match we.deleted {
            Some(d) => if d.header.wf() {
                seq![
                    first,
                    (
                        SignedHeaderHashedV {
                            header: d.header,
                            hash: header_hash_of(d.header),
                            signature: d.signature,
                        },
                        None,
                    ),
                ]
            } else {
                seq![first]
            },
            None => seq![first],
        }
    }
}

/// Whether everything a wire header answer would write is already held.
pub open spec fn we_held(b: ElementBufV, we: WireElementV) -> bool {
    forall|k: int|
        0 <= k < we_writes(we).len() ==> held(
            b,
            (#[trigger] we_writes(we)[k]).0,
            we_writes(we)[k].1,
        )
}

/// Held data stays held across merging any wire header answer.
pub proof fn lemma_held_after_we(
    b: ElementBufV,
    x: SignedHeaderHashedV,
    e: Option<crate::element::EntryHashedV>,
    we: WireElementV,
)
    requires
        held(b, x, e),
    ensures
        held(merge_we_e(b, we), x, e),
{
    if we.signed_header.header.wf() {
        let el = wire_element_of(we);
        let b1 = merge_element_e(b, el);
        lemma_held_monotone(b, x, e, SignedHeaderHashedV {
            header: el.header,
            hash: el.hash,
            signature: el.signature,
        }, match el.entry {
            Some(ev) => Some(crate::element::EntryHashedV { entry: ev, hash: entry_hash_of(ev) }),
            None => None,
        });
        match we.deleted {
            Some(d) => {
                if d.header.wf() {
                    lemma_held_monotone(b1, x, e, SignedHeaderHashedV {
                        header: d.header,
                        hash: header_hash_of(d.header),
                        signature: d.signature,
                    }, None);
                }
            },
            None => {},
        }
    }
}

/// After merging a wire header answer, everything it wrote is held.
pub proof fn lemma_we_merge_holds(b: ElementBufV, we: WireElementV)
    ensures
        we_held(merge_we_e(b, we), we),
{
    if we.signed_header.header.wf() {
        let el = wire_element_of(we);
        let x = SignedHeaderHashedV { header: el.header, hash: el.hash, signature: el.signature };
        let xe = match el.entry {
            Some(ev) => Some(crate::element::EntryHashedV { entry: ev, hash: entry_hash_of(ev) }),
            None => None,
        };
        let b1 = buf_put(b, x, xe);
        lemma_put_holds(b, x, xe);
        match we.deleted {
            Some(d) => {
                if d.header.wf() {
                    let y = SignedHeaderHashedV {
                        header: d.header,
                        hash: header_hash_of(d.header),
                        signature: d.signature,
                    };
                    lemma_held_monotone(b1, x, xe, y, None);
                    lemma_put_holds(b1, y, None);
                    assert(we_writes(we)[0] == (x, xe));
                    assert(we_writes(we)[1] == (y, None::<crate::element::EntryHashedV>));
                }
            },
            None => {
                assert(we_writes(we)[0] == (x, xe));
            },
        }
        if we.deleted is None {
            assert(we_writes(we)[0] == (x, xe));
        }
    }
}

/// An answer's held data survives merging any other answer.
pub proof fn lemma_we_held_after_we(b: ElementBufV, we: WireElementV, we2: WireElementV)
    requires
        we_held(b, we),
    ensures
        we_held(merge_we_e(b, we2), we),
{
    assert forall|k: int| 0 <= k < we_writes(we).len() implies held(
        merge_we_e(b, we2),
        (#[trigger] we_writes(we)[k]).0,
        we_writes(we)[k].1,
    ) by {
        lemma_held_after_we(b, we_writes(we)[k].0, we_writes(we)[k].1, we2);
    }
}

/// Merging a wire header answer whose data is all held changes nothing.
pub proof fn lemma_we_merge_noop_e(b: ElementBufV, we: WireElementV)
    requires
        we_held(b, we),
    ensures
        merge_we_e(b, we) == b,
{
    if we.signed_header.header.wf() {
        let el = wire_element_of(we);
        let x = SignedHeaderHashedV { header: el.header, hash: el.hash, signature: el.signature };
        let xe = match el.entry {
            Some(ev) => Some(crate::element::EntryHashedV { entry: ev, hash: entry_hash_of(ev) }),
            None => None,
        };
        assert(we_writes(we)[0] == (x, xe));
        lemma_put_noop(b, x, xe);
        match we.deleted {
            Some(d) => {
                if d.header.wf() {
                    let y = SignedHeaderHashedV {
                        header: d.header,
                        hash: header_hash_of(d.header),
                        signature: d.signature,
                    };
                    assert(we_writes(we)[1] == (y, None::<crate::element::EntryHashedV>));
                    lemma_put_noop(b, y, None);
                }
            },
            None => {},
        }
    }
}

/// After merging a whole run of header-request answers, everything they
/// wrote is held.
pub proof fn lemma_header_list_all_held(b: ElementBufV, rs: Seq<GetElementResponseV>, n: int)
    requires
        0 <= n <= rs.len(),
    ensures
        forall|k: int|
            0 <= k < n ==> match #[trigger] rs[k] {
                GetElementResponseV::GetHeader(Some(we)) => we_held(
                    merge_header_resps_e(b, rs, n),
                    we,
                ),
                _ => true,
            },
    decreases n,
{
    if n > 0 {
        lemma_header_list_all_held(b, rs, n - 1);
        let prev = merge_header_resps_e(b, rs, n - 1);
        assert forall|k: int| 0 <= k < n implies match #[trigger] rs[k] {
            GetElementResponseV::GetHeader(Some(we)) => we_held(
                merge_header_resps_e(b, rs, n),
                we,
            ),
            _ => true,
        } by {
            match rs[k] {
                GetElementResponseV::GetHeader(Some(we)) => {
                    if k < n - 1 {
                        match rs[n - 1] {
                            GetElementResponseV::GetHeader(Some(we2)) => {
                                lemma_we_held_after_we(prev, we, we2);
                            },
                            _ => {},
                        }
                    } else {
                        lemma_we_merge_holds(prev, we);
                    }
                },
                _ => {},
            }
        }
    }
}

/// Merging a run of header-request answers whose data is all held
/// changes nothing.
pub proof fn lemma_header_list_noop_e(b: ElementBufV, rs: Seq<GetElementResponseV>, n: int)
    requires
        0 <= n <= rs.len(),
        forall|k: int|
            0 <= k < n ==> match #[trigger] rs[k] {
                GetElementResponseV::GetHeader(Some(we)) => we_held(b, we),
                _ => true,
            },
    ensures
        merge_header_resps_e(b, rs, n) == b,
    decreases n,
{
    if n > 0 {
        lemma_header_list_noop_e(b, rs, n - 1);
        match rs[n - 1] {
            GetElementResponseV::GetHeader(Some(we)) => {
                lemma_we_merge_noop_e(b, we);
            },
            _ => {},
        }
    }
}

/// Law: merging the full answer list of a header request into the
/// element cache twice yields the same held elements as merging it once.
pub proof fn lemma_merge_header_resps_e_idempotent(b: ElementBufV, rs: Seq<GetElementResponseV>)
    ensures
        merge_header_resps_e(merge_header_resps_e(b, rs, rs.len() as int), rs, rs.len() as int)
            == merge_header_resps_e(b, rs, rs.len() as int),
{
    lemma_header_list_all_held(b, rs, rs.len() as int);
    lemma_header_list_noop_e(merge_header_resps_e(b, rs, rs.len() as int), rs, rs.len() as int);
}

/// Held data stays held across a run of writes.
pub proof fn lemma_held_after_put_seq(
    b: ElementBufV,
    x: SignedHeaderHashedV,
    e: Option<crate::element::EntryHashedV>,
    items: Seq<(SignedHeaderHashedV, Option<crate::element::EntryHashedV>)>,
    n: int,
)
    requires
        held(b, x, e),
        0 <= n <= items.len(),
    ensures
        held(put_seq(b, items, n), x, e),
    decreases n,
{
    if n > 0 {
        lemma_held_after_put_seq(b, x, e, items, n - 1);
        lemma_held_monotone(put_seq(b, items, n - 1), x, e, items[n - 1].0, items[n - 1].1);
    }
}

/// Whether everything a full entry answer would write is already held.
pub open spec fn raw_held(b: ElementBufV, raw: RawGetEntryResponseV) -> bool {
    forall|k: int|
        0 <= k < raw_put_items(raw).len() ==> held(
            b,
            (#[trigger] raw_put_items(raw)[k]).0,
            raw_put_items(raw)[k].1,
        )
}

/// Held data stays held across merging any full entry answer.
pub proof fn lemma_held_after_raw(
    b: ElementBufV,
    x: SignedHeaderHashedV,
    e: Option<crate::element::EntryHashedV>,
    raw: RawGetEntryResponseV,
)
    requires
        held(b, x, e),
    ensures
        held(crate::cascade::merge_raw_e(b, raw), x, e),
{
    lemma_merge_raw_e_items(b, raw);
    lemma_held_after_put_seq(b, x, e, raw_put_items(raw), raw_put_items(raw).len() as int);
}

/// After merging a full entry answer, everything it wrote is held.
pub proof fn lemma_raw_merge_holds(b: ElementBufV, raw: RawGetEntryResponseV)
    ensures
        raw_held(crate::cascade::merge_raw_e(b, raw), raw),
{
    lemma_merge_raw_e_items(b, raw);
    lemma_put_seq_all_held(b, raw_put_items(raw), raw_put_items(raw).len() as int);
}

/// An answer's held data survives merging any other full entry answer.
pub proof fn lemma_raw_held_after_raw(
    b: ElementBufV,
    raw: RawGetEntryResponseV,
    raw2: RawGetEntryResponseV,
)
    requires
        raw_held(b, raw),
    ensures
        raw_held(crate::cascade::merge_raw_e(b, raw2), raw),
{
    assert forall|k: int| 0 <= k < raw_put_items(raw).len() implies held(
        crate::cascade::merge_raw_e(b, raw2),
        (#[trigger] raw_put_items(raw)[k]).0,
        raw_put_items(raw)[k].1,
    ) by {
        lemma_held_after_raw(b, raw_put_items(raw)[k].0, raw_put_items(raw)[k].1, raw2);
    }
}

/// Merging a full entry answer whose data is all held changes nothing.
pub proof fn lemma_raw_merge_noop_e(b: ElementBufV, raw: RawGetEntryResponseV)
    requires
        raw_held(b, raw),
    ensures
        crate::cascade::merge_raw_e(b, raw) == b,
{
    lemma_merge_raw_e_items(b, raw);
    lemma_put_seq_noop(b, raw_put_items(raw), raw_put_items(raw).len() as int);
}

/// After merging a whole run of entry-request answers, everything they
/// wrote is held.
pub proof fn lemma_entry_list_all_held(b: ElementBufV, rs: Seq<GetElementResponseV>, n: int)
    requires
        0 <= n <= rs.len(),
    ensures
        forall|k: int|
            0 <= k < n ==> match #[trigger] rs[k] {
                GetElementResponseV::GetEntryFull(Some(raw)) => raw_held(
                    merge_entry_resps_e(b, rs, n),
                    raw,
                ),
                _ => true,
            },
    decreases n,
{
    if n > 0 {
        lemma_entry_list_all_held(b, rs, n - 1);
        let prev = merge_entry_resps_e(b, rs, n - 1);
        assert forall|k: int| 0 <= k < n implies match #[trigger] rs[k] {
            GetElementResponseV::GetEntryFull(Some(raw)) => raw_held(
                merge_entry_resps_e(b, rs, n),
                raw,
            ),
            _ => true,
        } by {
            match rs[k] {
                GetElementResponseV::GetEntryFull(Some(raw)) => {
                    if k < n - 1 {
                        match rs[n - 1] {
                            GetElementResponseV::GetEntryFull(Some(raw2)) => {
                                lemma_raw_held_after_raw(prev, raw, raw2);
                            },
                            _ => {},
                        }
                    } else {
                        lemma_raw_merge_holds(prev, raw);
                    }
                },
                _ => {},
            }
        }
    }
}

/// Merging a run of entry-request answers whose data is all held changes
/// nothing.
pub proof fn lemma_entry_list_noop_e(b: ElementBufV, rs: Seq<GetElementResponseV>, n: int)
    requires
        0 <= n <= rs.len(),
        forall|k: int|
            0 <= k < n ==> match #[trigger] rs[k] {
                GetElementResponseV::GetEntryFull(Some(raw)) => raw_held(b, raw),
                _ => true,
            },
    ensures
        merge_entry_resps_e(b, rs, n) == b,
    decreases n,
{
    if n > 0 {
        lemma_entry_list_noop_e(b, rs, n - 1);
        match rs[n - 1] {
            GetElementResponseV::GetEntryFull(Some(raw)) => {
                lemma_raw_merge_noop_e(b, raw);
            },
            _ => {},
        }
    }
}

/// Law: merging the full answer list of an entry request into the
/// element cache twice yields the same held elements as merging it once.
pub proof fn lemma_merge_entry_resps_e_idempotent(b: ElementBufV, rs: Seq<GetElementResponseV>)
    ensures
        merge_entry_resps_e(merge_entry_resps_e(b, rs, rs.len() as int), rs, rs.len() as int)
            == merge_entry_resps_e(b, rs, rs.len() as int),
{
    lemma_entry_list_all_held(b, rs, rs.len() as int);
    lemma_entry_list_noop_e(merge_entry_resps_e(b, rs, rs.len() as int), rs, rs.len() as int);
}

// ---------------------------------------------------------------------
// Liveness laws of the entry read.
// ---------------------------------------------------------------------

/// Law: an entry whose derived status after the merge is anything but
/// live is never surfaced, even when its element is physically held.
pub proof fn lemma_non_live_entry_yields_none<N: Network>(
    ve: ElementBufV,
    vm: MetaV,
    ce: ElementBufV,
    cm: MetaV,
    net: N,
    e: HashV,
)
    requires
        net.get_ok(e),
        ({
            let rs = net.elements_for(e);
            derived_status(merge_entry_resps_m(cm, rs, rs.len() as int), e) != EntryDhtStatus::Live
        }),
    ensures
        get_entry_outcome(ve, vm, ce, cm, net, e).result is None,
{
    let rs = net.elements_for(e);
    let mm = merge_entry_resps_m(cm, rs, rs.len() as int);
    crate::cascade::lemma_live_list_status(mm, e);
}

/// Law: a live entry surfaces the element of the header with the minimal
/// (timestamp, header hash) among the undeleted headers — the chosen
/// header is undeleted and below every undeleted header, whatever
/// element the read returns sits at exactly that header's address, and
/// the element is owed whenever a local store holds it after the merge,
/// or the follow-up header read leaves it resolvable and undeleted.
pub proof fn lemma_live_entry_yields_oldest<N: Network>(
    ve: ElementBufV,
    vm: MetaV,
    ce: ElementBufV,
    cm: MetaV,
    net: N,
    e: HashV,
)
    requires
        net.get_ok(e),
        ({
            let rs = net.elements_for(e);
            derived_status(merge_entry_resps_m(cm, rs, rs.len() as int), e) == EntryDhtStatus::Live
        }),
    ensures
        ({
            let rs = net.elements_for(e);
            let mm = merge_entry_resps_m(cm, rs, rs.len() as int);
            let me = merge_entry_resps_e(ce, rs, rs.len() as int);
            let m = oldest_live(mm, e);
            let rs2 = net.elements_for(m.header_hash);
            let mm2 = merge_header_resps_m(mm, rs2, rs2.len() as int);
            let me2 = merge_header_resps_e(me, rs2, rs2.len() as int);
            &&& live_list(mm, e).contains(m)
            &&& forall|t: ThhV| #[trigger] live_list(mm, e).contains(t) ==> thh_le(m, t)
            &&& match get_entry_outcome(ve, vm, ce, cm, net, e).result {
                Some(el) => el.hash == m.header_hash,
                None => true,
            }
            &&& (local_element(ve, vm, me, mm, m.header_hash) matches Some(el)
                ==> get_entry_outcome(ve, vm, ce, cm, net, e).result == Some(el))
            &&& (local_element(ve, vm, me, mm, m.header_hash) is None && net.get_ok(m.header_hash)
                && !has_basis(vm.deletes_on_header, m.header_hash) && !has_basis(
                mm2.deletes_on_header,
                m.header_hash,
            ) ==> get_entry_outcome(ve, vm, ce, cm, net, e).result == local_element(
                ve,
                vm,
                me2,
                mm2,
                m.header_hash,
            ))
        }),
{
    let rs = net.elements_for(e);
    let mm = merge_entry_resps_m(cm, rs, rs.len() as int);
    let me = merge_entry_resps_e(ce, rs, rs.len() as int);
    crate::cascade::lemma_live_list_status(mm, e);
    let l = live_list(mm, e);
    crate::cascade::lemma_min_thh_pre_props(l, l.len() as int);
    let m = oldest_live(mm, e);
    let i = choose|i: int| 0 <= i < l.len() && l[i] == m;
    assert(l.contains(l[i]));
    assert forall|t: ThhV| #[trigger] l.contains(t) implies thh_le(m, t) by {
        let k = choose|k: int| 0 <= k < l.len() && l[k] == t;
    }
    lemma_local_element_hash(ve, vm, ce, cm, m.header_hash);
    // The chosen header is in the live run, so the merged cache holds no
    // delete against it: a follow-up header read never stops at the
    // local-tombstone gate on the cache's account.
    let hs = select_thh(mm.headers_on_entry, e, mm.headers_on_entry.len() as int);
    crate::cascade::lemma_filter_live_props(mm, hs, hs.len() as int);
    assert(!crate::metadata::has_delete_on_header(mm, m.header_hash));
    match local_element(ve, vm, me, mm, m.header_hash) {
        Some(el) => {
            lemma_local_element_hash(ve, vm, me, mm, m.header_hash);
        },
        None => {
            let o2 = crate::cascade::get_header_outcome(
                ve,
                vm,
                me,
                mm,
                net.get_ok(m.header_hash),
                net.elements_for(m.header_hash),
                m.header_hash,
            );
            let rs2 = net.elements_for(m.header_hash);
            let mm2 = merge_header_resps_m(mm, rs2, rs2.len() as int);
            let me2 = merge_header_resps_e(me, rs2, rs2.len() as int);
            lemma_local_element_hash(ve, vm, me2, mm2, m.header_hash);
        },
    }
}

/// A locally resolved element sits at the address it was resolved from.
pub proof fn lemma_local_element_hash(
    ve: ElementBufV,
    vm: MetaV,
    ce: ElementBufV,
    cm: MetaV,
    h: HashV,
)
    ensures
        local_element(ve, vm, ce, cm, h) matches Some(el) ==> el.hash == h,
{
    reveal(local_element);
    crate::element_buf::lemma_buf_get_element_wf_if(ve, h);
    crate::element_buf::lemma_buf_get_element_wf_if(ce, h);
}

// ---------------------------------------------------------------------
// The live-links law.
// ---------------------------------------------------------------------

/// Every record a key-selection keeps was registered and matches the key,
/// and conversely.
pub proof fn lemma_select_links_exact(s: Seq<LinkMetaV>, k: LinkMetaKeyV, j: int)
    requires
        0 <= j <= s.len(),
    ensures
        forall|l: LinkMetaV| #[trigger] select_links(s, k, j).contains(l) ==> s.contains(l)
            && key_matches(k, l),
        forall|i: int|
            0 <= i < j && key_matches(k, #[trigger] s[i]) ==> select_links(s, k, j).contains(s[i]),
    decreases j,
{
    if j > 0 {
        lemma_select_links_exact(s, k, j - 1);
        let p = select_links(s, k, j - 1);
        let cur = select_links(s, k, j);
        if key_matches(k, s[j - 1]) {
            assert(cur[p.len() as int] == s[j - 1]);
            assert forall|l: LinkMetaV| #[trigger] cur.contains(l) implies s.contains(l)
                && key_matches(k, l) by {
                let i = choose|i: int| 0 <= i < cur.len() && cur[i] == l;
                if i < p.len() {
                    assert(p.contains(l));
                }
            }
            assert forall|i: int| 0 <= i < j && key_matches(k, #[trigger] s[i]) implies cur.contains(
                s[i],
            ) by {
                if i < j - 1 {
                    assert(p.contains(s[i]));
                    let i2 = choose|i2: int| 0 <= i2 < p.len() && p[i2] == s[i];
                    assert(cur[i2] == s[i]);
                }
            }
        } else {
            assert(cur == p);
        }
    }
}

/// What a deduplicated combination holds: members of either run, and for
/// every member of either run a representative with the same link-add
/// address.
pub proof fn lemma_dedup_links_exact(acc: Seq<LinkMetaV>, s: Seq<LinkMetaV>, j: int)
    requires
        0 <= j <= s.len(),
    ensures
        forall|l: LinkMetaV| #[trigger] dedup_links(acc, s, j).contains(l) ==> acc.contains(l)
            || s.contains(l),
        forall|l: LinkMetaV| acc.contains(l) ==> #[trigger] dedup_links(acc, s, j).contains(l),
        forall|i: int|
            0 <= i < j ==> has_link_hash(
                dedup_links(acc, s, j),
                (#[trigger] s[i]).link_add_hash,
            ),
    decreases j,
{
    if j > 0 {
        lemma_dedup_links_exact(acc, s, j - 1);
        let p = dedup_links(acc, s, j - 1);
        let cur = dedup_links(acc, s, j);
        if has_link_hash(p, s[j - 1].link_add_hash) {
            assert(cur == p);
        } else {
            assert(cur[p.len() as int] == s[j - 1]);
            assert forall|l: LinkMetaV| #[trigger] cur.contains(l) implies acc.contains(l)
                || s.contains(l) by {
                let i = choose|i: int| 0 <= i < cur.len() && cur[i] == l;
                if i < p.len() {
                    assert(p.contains(l));
                }
            }
            assert forall|l: LinkMetaV| acc.contains(l) implies #[trigger] cur.contains(l) by {
                assert(dedup_links(acc, s, j - 1).contains(l));
                let i = choose|i: int| 0 <= i < p.len() && p[i] == l;
                assert(cur[i] == l);
            }
            assert forall|i: int| 0 <= i < j implies has_link_hash(
                cur,
                (#[trigger] s[i]).link_add_hash,
            ) by {
                if i < j - 1 {
                    let i2 = choose|i2: int|
                        0 <= i2 < p.len() && (#[trigger] p[i2]).link_add_hash == s[i].link_add_hash;
                    assert(cur[i2].link_add_hash == s[i].link_add_hash);
                } else {
                    assert(cur[p.len() as int].link_add_hash == s[i].link_add_hash);
                }
            }
        }
    }
}

/// What the live filter keeps: exactly the records with zero registered
/// removes in either store.
pub proof fn lemma_filter_live_links_exact(vm: MetaV, cm: MetaV, s: Seq<LinkMetaV>, j: int)
    requires
        0 <= j <= s.len(),
    ensures
        forall|l: LinkMetaV| #[trigger] filter_live_links(vm, cm, s, j).contains(l) ==> s.contains(
            l,
        ) && !link_removed(vm, cm, l),
        forall|i: int|
            0 <= i < j && !link_removed(vm, cm, #[trigger] s[i]) ==> filter_live_links(
                vm,
                cm,
                s,
                j,
            ).contains(s[i]),
    decreases j,
{
    if j > 0 {
        lemma_filter_live_links_exact(vm, cm, s, j - 1);
        let p = filter_live_links(vm, cm, s, j - 1);
        let cur = filter_live_links(vm, cm, s, j);
        if !link_removed(vm, cm, s[j - 1]) {
            assert(cur[p.len() as int] == s[j - 1]);
            assert forall|l: LinkMetaV| #[trigger] cur.contains(l) implies s.contains(l)
                && !link_removed(vm, cm, l) by {
                let i = choose|i: int| 0 <= i < cur.len() && cur[i] == l;
                if i < p.len() {
                    assert(p.contains(l));
                }
            }
            assert forall|i: int| 0 <= i < j && !link_removed(vm, cm, #[trigger] s[i]) implies cur.contains(
                s[i],
            ) by {
                if i < j - 1 {
                    assert(p.contains(s[i]));
                    let i2 = choose|i2: int| 0 <= i2 < p.len() && p[i2] == s[i];
                    assert(cur[i2] == s[i]);
                }
            }
        } else {
            assert(cur == p);
        }
    }
}

/// The caller-facing links of a run are exactly its records, rendered.
pub proof fn lemma_links_of_exact(s: Seq<LinkMetaV>, j: int)
    requires
        0 <= j <= s.len(),
    ensures
        links_of(s, j).len() == j,
        forall|i: int| 0 <= i < j ==> links_of(s, j)[i] == link_of_meta(#[trigger] s[i]),
    decreases j,
{
    if j > 0 {
        lemma_links_of_exact(s, j - 1);
    }
}

/// Law: the live links under a key are exactly the creates registered
/// under the key — in the cache or the vault — with zero removes
/// registered in either store; what was registered in what order changes
/// nothing. Every returned link is the rendering of such a create, and
/// every such create is represented by its link-add address.
pub proof fn lemma_live_links_exact(vm: MetaV, cm: MetaV, k: LinkMetaKeyV)
    ensures
        forall|lk: LinkV| #[trigger] live_links_list(vm, cm, k).contains(lk) ==> exists|l: LinkMetaV|
            (cm.link_adds.contains(l) || vm.link_adds.contains(l)) && #[trigger] key_matches(k, l)
                && !link_removed(vm, cm, l) && link_of_meta(l) == lk,
        forall|l: LinkMetaV|
            (cm.link_adds.contains(l) || vm.link_adds.contains(l)) && #[trigger] key_matches(k, l)
                && !link_removed(vm, cm, l) ==> exists|l2: LinkMetaV|
                (cm.link_adds.contains(l2) || vm.link_adds.contains(l2)) && #[trigger] key_matches(
                    k,
                    l2,
                ) && !link_removed(vm, cm, l2) && l2.link_add_hash == l.link_add_hash
                    && live_links_list(vm, cm, k).contains(link_of_meta(l2)),
{
    let ca = select_links(cm.link_adds, k, cm.link_adds.len() as int);
    let va = select_links(vm.link_adds, k, vm.link_adds.len() as int);
    let all = dedup_links(ca, va, va.len() as int);
    let live = filter_live_links(vm, cm, all, all.len() as int);
    lemma_select_links_exact(cm.link_adds, k, cm.link_adds.len() as int);
    lemma_select_links_exact(vm.link_adds, k, vm.link_adds.len() as int);
    lemma_dedup_links_exact(ca, va, va.len() as int);
    lemma_filter_live_links_exact(vm, cm, all, all.len() as int);
    lemma_links_of_exact(live, live.len() as int);
    assert forall|lk: LinkV| #[trigger] live_links_list(vm, cm, k).contains(lk) implies exists|l: LinkMetaV|
        (cm.link_adds.contains(l) || vm.link_adds.contains(l)) && #[trigger] key_matches(k, l)
            && !link_removed(vm, cm, l) && link_of_meta(l) == lk by {
        let i = choose|i: int|
            0 <= i < live_links_list(vm, cm, k).len() && live_links_list(vm, cm, k)[i] == lk;
        let l = live[i];
        assert(live.contains(l));
        assert(all.contains(l));
        assert((cm.link_adds.contains(l) || vm.link_adds.contains(l)) && key_matches(k, l)
            && !link_removed(vm, cm, l) && link_of_meta(l) == lk);
    }
    assert forall|l: LinkMetaV|
        (cm.link_adds.contains(l) || vm.link_adds.contains(l)) && #[trigger] key_matches(k, l)
            && !link_removed(vm, cm, l) implies exists|l2: LinkMetaV|
        (cm.link_adds.contains(l2) || vm.link_adds.contains(l2)) && #[trigger] key_matches(k, l2)
            && !link_removed(vm, cm, l2) && l2.link_add_hash == l.link_add_hash
            && live_links_list(vm, cm, k).contains(link_of_meta(l2)) by {
        if cm.link_adds.contains(l) {
            let i = choose|i: int| 0 <= i < cm.link_adds.len() && cm.link_adds[i] == l;
            assert(ca.contains(l));
            assert(all.contains(l));
            assert(live.contains(l));
            let i2 = choose|i2: int| 0 <= i2 < live.len() && live[i2] == l;
            assert(live_links_list(vm, cm, k)[i2] == link_of_meta(l));
            assert(live_links_list(vm, cm, k).contains(link_of_meta(l)));
        } else {
            let i = choose|i: int| 0 <= i < vm.link_adds.len() && vm.link_adds[i] == l;
            assert(va.contains(l));
            let iv = choose|iv: int| 0 <= iv < va.len() && va[iv] == l;
            assert(has_link_hash(all, va[iv].link_add_hash));
            let ia = choose|ia: int|
                0 <= ia < all.len() && (#[trigger] all[ia]).link_add_hash == l.link_add_hash;
            let l2 = all[ia];
            assert(all.contains(l2));
            assert(ca.contains(l2) || va.contains(l2));
            assert(key_matches(k, l2));
            assert(!link_removed(vm, cm, l2)) by {
                assert(l2.link_add_hash == l.link_add_hash);
            }
            assert(live.contains(l2));
            let i2 = choose|i2: int| 0 <= i2 < live.len() && live[i2] == l2;
            assert(live_links_list(vm, cm, k)[i2] == link_of_meta(l2));
            assert(live_links_list(vm, cm, k).contains(link_of_meta(l2)));
        }
    }
}


} // verus!
