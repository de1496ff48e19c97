//! The network capability consumed by the cascade.
//!
//! Remote authorities are reached through the [`Network`] trait: a
//! request/response port with three queries — elements by address, raw
//! metadata by address, links by key. Responses are additive evidence to
//! merge into the cache, never mutually exclusive alternatives. A
//! [`ScriptedNetwork`] answers from a fixed script and counts the calls it
//! receives; it backs every in-process use of the cascade.

use crate::element::{sh_views, SignedHeader, SignedHeaderV};
use crate::entry::{Entry, EntryV};
use crate::hash::{HashV, HoloHash};
use crate::header::{CreateLink, CreateLinkV, DeleteLink, DeleteLinkV};
use crate::metadata::{LinkMetaKey, LinkMetaKeyV};
use crate::time::{ThhV, TimedHeaderHash};
use vstd::prelude::*;

verus! {

/// Error related to remote communication: the network was unreachable,
/// timed out, or answered outside the protocol. Always propagated to the
/// caller, never treated as "not found".
#[derive(Debug)]
pub enum TransportError {
    /// Unspecified transport failure, with a description.
    Other(String),
}

impl TransportError {
    /// Promotes a description to a transport error.
    pub fn other(e: String) -> (r: TransportError)
        ensures
            r matches TransportError::Other(s) && s@ == e@,
    {
        TransportError::Other(e)
    }

    /// The error's description.
    pub fn message(&self) -> (r: &String)
        ensures
            self matches TransportError::Other(s) && s@ == r@,
    {
        match self {
            TransportError::Other(s) => s,
        }
    }
}

/// Result type for remote communication.
pub type TransportResult<T> = Result<T, TransportError>;

/// Options for a network element request.
#[derive(Clone, Copy, Debug)]
pub struct GetOptions {
    /// How many remote authorities to ask.
    pub remote_agent_count: Option<u8>,
    /// Give up after this many milliseconds.
    pub timeout_ms: Option<u64>,
    /// Race the authorities and keep the first answers.
    pub as_race: bool,
    /// Give up on a race after this many milliseconds.
    pub race_timeout_ms: Option<u64>,
    /// Follow forwarding answers.
    pub follow_redirects: bool,
    /// Request every live header with its full metadata, not just the
    /// oldest; the details family of reads forces this on.
    pub all_live_headers_with_metadata: bool,
}

impl GetOptions {
    /// Default request options.
    pub fn new() -> (r: GetOptions)
        ensures
            !r.all_live_headers_with_metadata,
    {
        GetOptions {
            remote_agent_count: None,
            timeout_ms: None,
            as_race: false,
            race_timeout_ms: None,
            follow_redirects: false,
            all_live_headers_with_metadata: false,
        }
    }
}

/// Options for a network metadata request.
#[derive(Clone, Copy, Debug)]
pub struct GetMetaOptions {
    /// Give up after this many milliseconds.
    pub timeout_ms: Option<u64>,
}

/// Options for a network link request.
#[derive(Clone, Copy, Debug)]
pub struct GetLinksOptions {
    /// Give up after this many milliseconds.
    pub timeout_ms: Option<u64>,
}

/// The key a link query travels under: the same shape the local store
/// uses.
pub type WireLinkMetaKey = LinkMetaKey;

/// Mathematical value of a [`WireElement`].
#[verifier::ext_equal]
pub ghost struct WireElementV {
    pub signed_header: SignedHeaderV,
    pub entry: Option<EntryV>,
    pub deleted: Option<SignedHeaderV>,
}

/// One authority's answer to a header request: the signed header, its
/// entry when the authority held it, and the first delete known against
/// it, if any.
pub struct WireElement {
    /// The signed header asked for.
    pub signed_header: SignedHeader,
    /// The committed entry, when held and public.
    pub entry: Option<Entry>,
    /// A delete registered against the header, if the authority knew one.
    pub deleted: Option<SignedHeader>,
}

impl View for WireElement {
    type V = WireElementV;

    open spec fn view(&self) -> WireElementV {
        WireElementV {
            signed_header: self.signed_header@,
            entry: match self.entry {
                Some(e) => Some(e@),
                None => None,
            },
            deleted: match self.deleted {
                Some(d) => Some(d@),
                None => None,
            },
        }
    }
}

impl Clone for WireElement {
    fn clone(&self) -> (r: Self)
        ensures
            r@ == self@,
    {
        let entry = match &self.entry {
            Some(e) => Some(e.clone()),
            None => None,
        };
        let deleted = match &self.deleted {
            Some(d) => Some(d.clone()),
            None => None,
        };
        let r = WireElement { signed_header: self.signed_header.clone(), entry, deleted };
        proof {
            assert(r@ =~= self@);
        }
        r
    }
}

/// Mathematical value of a [`RawGetEntryResponse`].
#[verifier::ext_equal]
pub ghost struct RawGetEntryResponseV {
    pub live_headers: Seq<SignedHeaderV>,
    pub deletes: Seq<SignedHeaderV>,
    pub updates: Seq<SignedHeaderV>,
    pub entry: EntryV,
}

/// One authority's answer to an entry request: all live new-entry headers
/// it holds for the entry, the entry bytes, and every delete and update it
/// knows against them.
pub struct RawGetEntryResponse {
    /// The live new-entry headers for the entry.
    pub live_headers: Vec<SignedHeader>,
    /// The deletes known against those headers.
    pub deletes: Vec<SignedHeader>,
    /// The updates known against the entry.
    pub updates: Vec<SignedHeader>,
    /// The entry bytes.
    pub entry: Entry,
}

impl View for RawGetEntryResponse {
    type V = RawGetEntryResponseV;

    open spec fn view(&self) -> RawGetEntryResponseV {
        RawGetEntryResponseV {
            live_headers: sh_views(self.live_headers@),
            deletes: sh_views(self.deletes@),
            updates: sh_views(self.updates@),
            entry: self.entry@,
        }
    }
}

/// Copies a vector of signed headers.
pub fn clone_signed_headers(v: &Vec<SignedHeader>) -> (r: Vec<SignedHeader>)
    ensures
        sh_views(r@) == sh_views(v@),
{
    let mut r: Vec<SignedHeader> = Vec::new();
    let mut i: usize = 0;
    while i < v.len()
        invariant
            i <= v@.len(),
            r@.len() == i,
            forall|j: int| 0 <= j < i ==> (#[trigger] r@[j])@ == v@[j]@,
        decreases v@.len() - i,
    {
        r.push(v[i].clone());
        i += 1;
    }
    proof {
        assert(sh_views(r@) =~= sh_views(v@));
    }
    r
}

impl Clone for RawGetEntryResponse {
    fn clone(&self) -> (r: Self)
        ensures
            r@ == self@,
    {
        let r = RawGetEntryResponse {
            live_headers: clone_signed_headers(&self.live_headers),
            deletes: clone_signed_headers(&self.deletes),
            updates: clone_signed_headers(&self.updates),
            entry: self.entry.clone(),
        };
        proof {
            assert(r@ =~= self@);
        }
        r
    }
}

/// Mathematical value of a [`GetElementResponse`].
#[verifier::ext_equal]
pub ghost enum GetElementResponseV {
    GetEntryFull(Option<RawGetEntryResponseV>),
    GetHeader(Option<WireElementV>),
}

/// One authority's answer to an element request.
pub enum GetElementResponse {
    /// The answer to an entry-address request; `None` when the authority
    /// held no headers for the entry.
    GetEntryFull(Option<RawGetEntryResponse>),
    /// The answer to a header-address request; `None` when the authority
    /// did not hold the header.
    GetHeader(Option<WireElement>),
}

impl View for GetElementResponse {
    type V = GetElementResponseV;

    open spec fn view(&self) -> GetElementResponseV {
        match self {
            GetElementResponse::GetEntryFull(o) => GetElementResponseV::GetEntryFull(
                match o {
                    Some(x) => Some(x@),
                    None => None,
                },
            ),
            GetElementResponse::GetHeader(o) => GetElementResponseV::GetHeader(
                match o {
                    Some(x) => Some(x@),
                    None => None,
                },
            ),
        }
    }
}

impl Clone for GetElementResponse {
    fn clone(&self) -> (r: Self)
        ensures
            r@ == self@,
    {
        match self {
            GetElementResponse::GetEntryFull(o) => GetElementResponse::GetEntryFull(
                match o {
                    Some(x) => Some(x.clone()),
                    None => None,
                },
            ),
            GetElementResponse::GetHeader(o) => GetElementResponse::GetHeader(
                match o {
                    Some(x) => Some(x.clone()),
                    None => None,
                },
            ),
        }
    }
}

/// Mathematical value of a [`MetadataSet`].
#[verifier::ext_equal]
pub ghost struct MetadataSetV {
    pub headers: Seq<ThhV>,
    pub deletes: Seq<ThhV>,
    pub updates: Seq<ThhV>,
}

/// One authority's answer to a raw metadata request: the timed header
/// hashes it has registered against the address.
pub struct MetadataSet {
    /// New-entry headers registered against the address.
    pub headers: Vec<TimedHeaderHash>,
    /// Deletes registered against the address.
    pub deletes: Vec<TimedHeaderHash>,
    /// Updates registered against the address.
    pub updates: Vec<TimedHeaderHash>,
}

impl View for MetadataSet {
    type V = MetadataSetV;

    open spec fn view(&self) -> MetadataSetV {
        MetadataSetV {
            headers: crate::metadata::thh_views(self.headers@),
            deletes: crate::metadata::thh_views(self.deletes@),
            updates: crate::metadata::thh_views(self.updates@),
        }
    }
}

/// Copies a vector of timed header hashes.
pub fn clone_thhs(v: &Vec<TimedHeaderHash>) -> (r: Vec<TimedHeaderHash>)
    ensures
        crate::metadata::thh_views(r@) == crate::metadata::thh_views(v@),
{
    let mut r: Vec<TimedHeaderHash> = Vec::new();
    let mut i: usize = 0;
    while i < v.len()
        invariant
            i <= v@.len(),
            r@.len() == i,
            forall|j: int| 0 <= j < i ==> (#[trigger] r@[j])@ == v@[j]@,
        decreases v@.len() - i,
    {
        r.push(v[i].clone());
        i += 1;
    }
    proof {
        assert(crate::metadata::thh_views(r@) =~= crate::metadata::thh_views(v@));
    }
    r
}

impl Clone for MetadataSet {
    fn clone(&self) -> (r: Self)
        ensures
            r@ == self@,
    {
        let r = MetadataSet {
            headers: clone_thhs(&self.headers),
            deletes: clone_thhs(&self.deletes),
            updates: clone_thhs(&self.updates),
        };
        proof {
            assert(r@ =~= self@);
        }
        r
    }
}

/// Mathematical value of a [`GetLinksResponse`].
#[verifier::ext_equal]
pub ghost struct GetLinksResponseV {
    pub link_adds: Seq<(CreateLinkV, Seq<u8>)>,
    pub link_removes: Seq<(DeleteLinkV, Seq<u8>)>,
}

/// The view of signed link-add pairs.
pub open spec fn link_add_views(s: Seq<(CreateLink, Vec<u8>)>) -> Seq<(CreateLinkV, Seq<u8>)> {
    Seq::new(s.len(), |i: int| (s[i].0@, s[i].1@))
}

/// The view of signed link-remove pairs.
pub open spec fn link_remove_views(s: Seq<(DeleteLink, Vec<u8>)>) -> Seq<(DeleteLinkV, Seq<u8>)> {
    Seq::new(s.len(), |i: int| (s[i].0@, s[i].1@))
}

/// One authority's answer to a link request: the link-add headers under
/// the key and the link-removes it knows against them, each with its
/// signature.
pub struct GetLinksResponse {
    /// The link-add headers under the key.
    pub link_adds: Vec<(CreateLink, Vec<u8>)>,
    /// The link-removes known against them.
    pub link_removes: Vec<(DeleteLink, Vec<u8>)>,
}

impl View for GetLinksResponse {
    type V = GetLinksResponseV;

    open spec fn view(&self) -> GetLinksResponseV {
        GetLinksResponseV {
            link_adds: link_add_views(self.link_adds@),
            link_removes: link_remove_views(self.link_removes@),
        }
    }
}

impl Clone for GetLinksResponse {
    fn clone(&self) -> (r: Self)
        ensures
            r@ == self@,
    {
        let mut link_adds: Vec<(CreateLink, Vec<u8>)> = Vec::new();
        let mut i: usize = 0;
        while i < self.link_adds.len()
            invariant
                i <= self.link_adds@.len(),
                link_adds@.len() == i,
                forall|j: int|
                    0 <= j < i ==> (#[trigger] link_adds@[j]).0@ == self.link_adds@[j].0@
                        && link_adds@[j].1@ == self.link_adds@[j].1@,
            decreases self.link_adds@.len() - i,
        {
            link_adds.push(
                (self.link_adds[i].0.clone(), crate::hash::clone_bytes(&self.link_adds[i].1)),
            );
            i += 1;
        }
        let mut link_removes: Vec<(DeleteLink, Vec<u8>)> = Vec::new();
        let mut k: usize = 0;
        while k < self.link_removes.len()
            invariant
                k <= self.link_removes@.len(),
                link_removes@.len() == k,
                forall|j: int|
                    0 <= j < k ==> (#[trigger] link_removes@[j]).0@ == self.link_removes@[j].0@
                        && link_removes@[j].1@ == self.link_removes@[j].1@,
            decreases self.link_removes@.len() - k,
        {
            link_removes.push(
                (
                    self.link_removes[k].0.clone(),
                    crate::hash::clone_bytes(&self.link_removes[k].1),
                ),
            );
            k += 1;
        }
        let r = GetLinksResponse { link_adds, link_removes };
        proof {
            assert(link_add_views(r.link_adds@) =~= link_add_views(self.link_adds@));
            assert(link_remove_views(r.link_removes@) =~= link_remove_views(self.link_removes@));
            assert(r@ =~= self@);
        }
        r
    }
}

/// The remote-authority port. One logical request per call; every answer
/// is a list because several authorities may reply. The model functions
/// say what the port would answer in its current state: calls consume no
/// scripted data, so answers are stable across calls and only the call
/// count moves.
pub trait Network: Sized {
    /// How many requests this port has carried.
    spec fn call_count(&self) -> nat;

    /// Whether an element request for the address would succeed.
    spec fn get_ok(&self, hash: HashV) -> bool;

    /// The element responses a request for the address would gather.
    spec fn elements_for(&self, hash: HashV) -> Seq<GetElementResponseV>;

    /// Whether a metadata request for the address would succeed.
    spec fn meta_ok(&self, hash: HashV) -> bool;

    /// The metadata responses a request for the address would gather.
    spec fn meta_for(&self, hash: HashV) -> Seq<MetadataSetV>;

    /// Whether a link request for the key would succeed.
    spec fn links_ok(&self, key: LinkMetaKeyV) -> bool;

    /// The link responses a request for the key would gather.
    spec fn links_for(&self, key: LinkMetaKeyV) -> Seq<GetLinksResponseV>;

    /// Requests the element data for an address from remote authorities.
    fn get(&mut self, dht_hash: &HoloHash, options: &GetOptions) -> (r: TransportResult<
        Vec<GetElementResponse>,
    >)
        ensures
            final(self).call_count() == old(self).call_count() + 1,
            forall|h2: HashV| final(self).get_ok(h2) == old(self).get_ok(h2),
            forall|h2: HashV| final(self).elements_for(h2) == old(self).elements_for(h2),
            forall|h2: HashV| final(self).meta_ok(h2) == old(self).meta_ok(h2),
            forall|h2: HashV| final(self).meta_for(h2) == old(self).meta_for(h2),
            forall|k2: LinkMetaKeyV| final(self).links_ok(k2) == old(self).links_ok(k2),
            forall|k2: LinkMetaKeyV| final(self).links_for(k2) == old(self).links_for(k2),
            r is Ok <==> old(self).get_ok(dht_hash@),
            r matches Ok(v) ==> resp_views(v@) == old(self).elements_for(dht_hash@),
    ;

    /// Requests the raw metadata for an address from remote authorities.
    fn get_meta(&mut self, basis: &HoloHash, options: &GetMetaOptions) -> (r: TransportResult<
        Vec<MetadataSet>,
    >)
        ensures
            final(self).call_count() == old(self).call_count() + 1,
            forall|h2: HashV| final(self).get_ok(h2) == old(self).get_ok(h2),
            forall|h2: HashV| final(self).elements_for(h2) == old(self).elements_for(h2),
            forall|h2: HashV| final(self).meta_ok(h2) == old(self).meta_ok(h2),
            forall|h2: HashV| final(self).meta_for(h2) == old(self).meta_for(h2),
            forall|k2: LinkMetaKeyV| final(self).links_ok(k2) == old(self).links_ok(k2),
            forall|k2: LinkMetaKeyV| final(self).links_for(k2) == old(self).links_for(k2),
            r is Ok <==> old(self).meta_ok(basis@),
            r matches Ok(v) ==> meta_views(v@) == old(self).meta_for(basis@),
    ;

    /// Requests the links under a key from remote authorities.
    fn get_links(&mut self, key: &WireLinkMetaKey, options: &GetLinksOptions) -> (r:
        TransportResult<Vec<GetLinksResponse>>)
        ensures
            final(self).call_count() == old(self).call_count() + 1,
            forall|h2: HashV| final(self).get_ok(h2) == old(self).get_ok(h2),
            forall|h2: HashV| final(self).elements_for(h2) == old(self).elements_for(h2),
            forall|h2: HashV| final(self).meta_ok(h2) == old(self).meta_ok(h2),
            forall|h2: HashV| final(self).meta_for(h2) == old(self).meta_for(h2),
            forall|k2: LinkMetaKeyV| final(self).links_ok(k2) == old(self).links_ok(k2),
            forall|k2: LinkMetaKeyV| final(self).links_for(k2) == old(self).links_for(k2),
            r is Ok <==> old(self).links_ok(key@),
            r matches Ok(v) ==> links_views(v@) == old(self).links_for(key@),
    ;
}

/// The view of a vector of element responses.
pub open spec fn resp_views(s: Seq<GetElementResponse>) -> Seq<GetElementResponseV> {
    Seq::new(s.len(), |i: int| s[i]@)
}

/// The view of a vector of metadata responses.
pub open spec fn meta_views(s: Seq<MetadataSet>) -> Seq<MetadataSetV> {
    Seq::new(s.len(), |i: int| s[i]@)
}

/// The view of a vector of link responses.
pub open spec fn links_views(s: Seq<GetLinksResponse>) -> Seq<GetLinksResponseV> {
    Seq::new(s.len(), |i: int| s[i]@)
}

/// The scripted element responses for an address, among the first `j`
/// script lines.
pub open spec fn script_elements(
    s: Seq<(HashV, GetElementResponseV)>,
    h: HashV,
    j: int,
) -> Seq<GetElementResponseV>
    decreases j,
{
    if j <= 0 {
        Seq::empty()
    } else {
        let p = script_elements(s, h, j - 1);
        if s[j - 1].0 == h {
            p.push(s[j - 1].1)
        } else {
            p
        }
    }
}

/// The scripted metadata responses for an address, among the first `j`
/// script lines.
pub open spec fn script_meta(s: Seq<(HashV, MetadataSetV)>, h: HashV, j: int) -> Seq<MetadataSetV>
    decreases j,
{
    if j <= 0 {
        Seq::empty()
    } else {
        let p = script_meta(s, h, j - 1);
        if s[j - 1].0 == h {
            p.push(s[j - 1].1)
        } else {
            p
        }
    }
}

/// The scripted link responses for a key, among the first `j` script
/// lines.
pub open spec fn script_links(
    s: Seq<(LinkMetaKeyV, GetLinksResponseV)>,
    k: LinkMetaKeyV,
    j: int,
) -> Seq<GetLinksResponseV>
    decreases j,
{
    if j <= 0 {
        Seq::empty()
    } else {
        let p = script_links(s, k, j - 1);
        if s[j - 1].0 == k {
            p.push(s[j - 1].1)
        } else {
            p
        }
    }
}

/// The view of the element script.
pub open spec fn escript_views(s: Seq<(HoloHash, GetElementResponse)>) -> Seq<
    (HashV, GetElementResponseV),
> {
    Seq::new(s.len(), |i: int| (s[i].0@, s[i].1@))
}

/// The view of the metadata script.
pub open spec fn mscript_views(s: Seq<(HoloHash, MetadataSet)>) -> Seq<(HashV, MetadataSetV)> {
    Seq::new(s.len(), |i: int| (s[i].0@, s[i].1@))
}

/// The view of the link script.
pub open spec fn lscript_views(s: Seq<(LinkMetaKey, GetLinksResponse)>) -> Seq<
    (LinkMetaKeyV, GetLinksResponseV),
> {
    Seq::new(s.len(), |i: int| (s[i].0@, s[i].1@))
}

/// A network that answers every request from a fixed script: the
/// responses whose scripted address (or key) matches the request, in
/// script order. When `fail` is set, every request errs instead. Counts
/// the requests it carries.
pub struct ScriptedNetwork {
    /// Scripted answers to element requests.
    pub element_script: Vec<(HoloHash, GetElementResponse)>,
    /// Scripted answers to metadata requests.
    pub meta_script: Vec<(HoloHash, MetadataSet)>,
    /// Scripted answers to link requests.
    pub link_script: Vec<(LinkMetaKey, GetLinksResponse)>,
    /// When set, every request fails with a transport error.
    pub fail: bool,
    /// How many requests arrived; saturates at the type's maximum.
    pub hits: u64,
    /// Exact request count.
    pub calls: Ghost<nat>,
}

/// Whether two link keys are the same key.
pub fn key_same(a: &LinkMetaKey, b: &LinkMetaKey) -> (r: bool)
    ensures
        r == (a@ == b@),
{
    match (a, b) {
        (LinkMetaKey::Base(x), LinkMetaKey::Base(y)) => x.same(y),
        (LinkMetaKey::BaseZome(x, zx), LinkMetaKey::BaseZome(y, zy)) => x.same(y) && *zx == *zy,
        (LinkMetaKey::BaseZomeTag(x, zx, tx), LinkMetaKey::BaseZomeTag(y, zy, ty)) => x.same(y)
            && *zx == *zy && crate::hash::bytes_equal(&tx.0, &ty.0),
        (LinkMetaKey::Full(x, zx, tx, hx), LinkMetaKey::Full(y, zy, ty, hy)) => x.same(y) && *zx
            == *zy && crate::hash::bytes_equal(&tx.0, &ty.0) && hx.same(hy),
        _ => false,
    }
}

impl ScriptedNetwork {
    /// A network holding no data: every request succeeds with no
    /// responses.
    pub fn new() -> (r: ScriptedNetwork)
        ensures
            r.call_count() == 0,
            !r.fail,
            r.element_script@.len() == 0,
            r.meta_script@.len() == 0,
            r.link_script@.len() == 0,
            r.hits == 0,
    {
        ScriptedNetwork {
            element_script: Vec::new(),
            meta_script: Vec::new(),
            link_script: Vec::new(),
            fail: false,
            hits: 0,
            calls: Ghost(0),
        }
    }
}

impl Network for ScriptedNetwork {
    closed spec fn call_count(&self) -> nat {
        self.calls@
    }

    closed spec fn get_ok(&self, hash: HashV) -> bool {
        !self.fail
    }

    closed spec fn elements_for(&self, hash: HashV) -> Seq<GetElementResponseV> {
        script_elements(
            escript_views(self.element_script@),
            hash,
            self.element_script@.len() as int,
        )
    }

    closed spec fn meta_ok(&self, hash: HashV) -> bool {
        !self.fail
    }

    closed spec fn meta_for(&self, hash: HashV) -> Seq<MetadataSetV> {
        script_meta(mscript_views(self.meta_script@), hash, self.meta_script@.len() as int)
    }

    closed spec fn links_ok(&self, key: LinkMetaKeyV) -> bool {
        !self.fail
    }

    closed spec fn links_for(&self, key: LinkMetaKeyV) -> Seq<GetLinksResponseV> {
        script_links(lscript_views(self.link_script@), key, self.link_script@.len() as int)
    }

    fn get(&mut self, dht_hash: &HoloHash, options: &GetOptions) -> (r: TransportResult<
        Vec<GetElementResponse>,
    >) {
        proof {
            self.calls@ = self.calls@ + 1;
        }
        if self.hits < u64::MAX {
            self.hits = self.hits + 1;
        }
        if self.fail {
            return Err(TransportError::Other(String::new()));
        }
        let mut out: Vec<GetElementResponse> = Vec::new();
        let mut i: usize = 0;
        while i < self.element_script.len()
            invariant
                i <= self.element_script@.len(),
                resp_views(out@) == script_elements(
                    escript_views(self.element_script@),
                    dht_hash@,
                    i as int,
                ),
            decreases self.element_script@.len() - i,
        {
            let ghost before = resp_views(out@);
            if self.element_script[i].0.same(dht_hash) {
                out.push(self.element_script[i].1.clone());
                proof {
                    assert(resp_views(out@) =~= before.push(
                        escript_views(self.element_script@)[i as int].1,
                    ));
                }
            }
            i += 1;
        }
        Ok(out)
    }

    fn get_meta(&mut self, basis: &HoloHash, options: &GetMetaOptions) -> (r: TransportResult<
        Vec<MetadataSet>,
    >) {
        proof {
            self.calls@ = self.calls@ + 1;
        }
        if self.hits < u64::MAX {
            self.hits = self.hits + 1;
        }
        if self.fail {
            return Err(TransportError::Other(String::new()));
        }
        let mut out: Vec<MetadataSet> = Vec::new();
        let mut i: usize = 0;
        while i < self.meta_script.len()
            invariant
                i <= self.meta_script@.len(),
                meta_views(out@) == script_meta(
                    mscript_views(self.meta_script@),
                    basis@,
                    i as int,
                ),
            decreases self.meta_script@.len() - i,
        {
            let ghost before = meta_views(out@);
            if self.meta_script[i].0.same(basis) {
                out.push(self.meta_script[i].1.clone());
                proof {
                    assert(meta_views(out@) =~= before.push(
                        mscript_views(self.meta_script@)[i as int].1,
                    ));
                }
            }
            i += 1;
        }
        Ok(out)
    }

    fn get_links(&mut self, key: &WireLinkMetaKey, options: &GetLinksOptions) -> (r:
        TransportResult<Vec<GetLinksResponse>>) {
        proof {
            self.calls@ = self.calls@ + 1;
        }
        if self.hits < u64::MAX {
            self.hits = self.hits + 1;
        }
        if self.fail {
            return Err(TransportError::Other(String::new()));
        }
        let mut out: Vec<GetLinksResponse> = Vec::new();
        let mut i: usize = 0;
        while i < self.link_script.len()
            invariant
                i <= self.link_script@.len(),
                links_views(out@) == script_links(
                    lscript_views(self.link_script@),
                    key@,
                    i as int,
                ),
            decreases self.link_script@.len() - i,
        {
            let ghost before = links_views(out@);
            if key_same(&self.link_script[i].0, key) {
                out.push(self.link_script[i].1.clone());
                proof {
                    assert(links_views(out@) =~= before.push(
                        lscript_views(self.link_script@)[i as int].1,
                    ));
                }
            }
            i += 1;
        }
        Ok(out)
    }
}

} // verus!
