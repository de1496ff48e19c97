//! Headers: the signed, append-only records that carry CRUD semantics.
//!
//! A header either creates entry data, updates it, deletes it, adds a link,
//! or removes a link. Headers are never edited in place; liveness of data is
//! reconstructed from the full set of headers that reference it.

use crate::digest::{content_digest, i64_le, push_bytes, push_i64_le, push_u64_le, u64_le};
use crate::hash::{HashRole, HashV, HoloHash};
use crate::time::Timestamp;
use vstd::prelude::*;

verus! {

/// Whether entry data is published to the DHT or held privately.
#[derive(Clone, Copy, PartialEq, Eq, Structural, Debug)]
pub enum EntryVisibility {
    /// Published to the DHT.
    Public,
    /// Held on the authoring chain only.
    Private,
}

/// The application-defined type of an app entry.
#[derive(Clone, Copy, PartialEq, Eq, Structural, Debug)]
pub struct AppEntryType {
    /// Position of the entry definition within its zome.
    pub id: u8,
    /// The zome the definition lives in.
    pub zome_id: u8,
    /// Whether the entry's bytes are published.
    pub visibility: EntryVisibility,
}

/// The system- or application-level type of an entry, as recorded on the
/// header that committed it.
#[derive(Clone, Copy, PartialEq, Eq, Structural, Debug)]
pub enum EntryType {
    /// An agent public-key entry.
    AgentPubKey,
    /// An application entry.
    App(AppEntryType),
    /// A capability claim.
    CapClaim,
    /// A capability grant.
    CapGrant,
}

/// An application-chosen discriminator carried on a link.
pub struct LinkTag(pub Vec<u8>);

impl View for LinkTag {
    type V = Seq<u8>;

    open spec fn view(&self) -> Seq<u8> {
        self.0@
    }
}

impl Clone for LinkTag {
    fn clone(&self) -> (r: Self)
        ensures
            r@ == self@,
    {
        LinkTag(crate::hash::clone_bytes(&self.0))
    }
}

/// Mathematical value of a [`Create`] header.
#[verifier::ext_equal]
pub ghost struct CreateV {
    pub author: HashV,
    pub timestamp: Timestamp,
    pub entry_type: EntryType,
    pub entry_hash: HashV,
}

/// A header committing new entry data.
pub struct Create {
    /// The agent who authored the header.
    pub author: HoloHash,
    /// When the header was authored.
    pub timestamp: Timestamp,
    /// The committed entry's type.
    pub entry_type: EntryType,
    /// The committed entry's address.
    pub entry_hash: HoloHash,
}

impl View for Create {
    type V = CreateV;

    open spec fn view(&self) -> CreateV {
        CreateV {
            author: self.author@,
            timestamp: self.timestamp,
            entry_type: self.entry_type,
            entry_hash: self.entry_hash@,
        }
    }
}

impl Clone for Create {
    fn clone(&self) -> (r: Self)
        ensures
            r@ == self@,
    {
        let r = Create {
            author: self.author.clone(),
            timestamp: self.timestamp,
            entry_type: self.entry_type,
            entry_hash: self.entry_hash.clone(),
        };
        proof {
            assert(r@ =~= self@);
        }
        r
    }
}

/// Mathematical value of an [`Update`] header.
#[verifier::ext_equal]
pub ghost struct UpdateV {
    pub author: HashV,
    pub timestamp: Timestamp,
    pub original_header_address: HashV,
    pub original_entry_address: HashV,
    pub entry_type: EntryType,
    pub entry_hash: HashV,
}

/// A header replacing prior entry data with new data, without erasing it.
pub struct Update {
    /// The agent who authored the header.
    pub author: HoloHash,
    /// When the header was authored.
    pub timestamp: Timestamp,
    /// The header whose entry this update replaces.
    pub original_header_address: HoloHash,
    /// The entry this update replaces.
    pub original_entry_address: HoloHash,
    /// The replacement entry's type.
    pub entry_type: EntryType,
    /// The replacement entry's address.
    pub entry_hash: HoloHash,
}

impl View for Update {
    type V = UpdateV;

    open spec fn view(&self) -> UpdateV {
        UpdateV {
            author: self.author@,
            timestamp: self.timestamp,
            original_header_address: self.original_header_address@,
            original_entry_address: self.original_entry_address@,
            entry_type: self.entry_type,
            entry_hash: self.entry_hash@,
        }
    }
}

impl Clone for Update {
    fn clone(&self) -> (r: Self)
        ensures
            r@ == self@,
    {
        let r = Update {
            author: self.author.clone(),
            timestamp: self.timestamp,
            original_header_address: self.original_header_address.clone(),
            original_entry_address: self.original_entry_address.clone(),
            entry_type: self.entry_type,
            entry_hash: self.entry_hash.clone(),
        };
        proof {
            assert(r@ =~= self@);
        }
        r
    }
}

/// Mathematical value of a [`Delete`] header.
#[verifier::ext_equal]
pub ghost struct DeleteV {
    pub author: HashV,
    pub timestamp: Timestamp,
    pub deletes_address: HashV,
    pub deletes_entry_address: HashV,
}

/// A tombstone: marks a prior new-entry header and its entry as no longer
/// live, without erasing them.
pub struct Delete {
    /// The agent who authored the header.
    pub author: HoloHash,
    /// When the header was authored.
    pub timestamp: Timestamp,
    /// The new-entry header being deleted.
    pub deletes_address: HoloHash,
    /// The entry that header had committed.
    pub deletes_entry_address: HoloHash,
}

impl View for Delete {
    type V = DeleteV;

    open spec fn view(&self) -> DeleteV {
        DeleteV {
            author: self.author@,
            timestamp: self.timestamp,
            deletes_address: self.deletes_address@,
            deletes_entry_address: self.deletes_entry_address@,
        }
    }
}

impl Clone for Delete {
    fn clone(&self) -> (r: Self)
        ensures
            r@ == self@,
    {
        let r = Delete {
            author: self.author.clone(),
            timestamp: self.timestamp,
            deletes_address: self.deletes_address.clone(),
            deletes_entry_address: self.deletes_entry_address.clone(),
        };
        proof {
            assert(r@ =~= self@);
        }
        r
    }
}

/// Mathematical value of a [`CreateLink`] header.
#[verifier::ext_equal]
pub ghost struct CreateLinkV {
    pub author: HashV,
    pub timestamp: Timestamp,
    pub base_address: HashV,
    pub target_address: HashV,
    pub zome_id: u8,
    pub tag: Seq<u8>,
}

/// A header adding a link from a base entry to a target entry.
pub struct CreateLink {
    /// The agent who authored the header.
    pub author: HoloHash,
    /// When the header was authored.
    pub timestamp: Timestamp,
    /// The entry the link hangs off.
    pub base_address: HoloHash,
    /// The entry the link points to.
    pub target_address: HoloHash,
    /// The zome the link belongs to.
    pub zome_id: u8,
    /// The application-chosen tag.
    pub tag: LinkTag,
}

impl View for CreateLink {
    type V = CreateLinkV;

    open spec fn view(&self) -> CreateLinkV {
        CreateLinkV {
            author: self.author@,
            timestamp: self.timestamp,
            base_address: self.base_address@,
            target_address: self.target_address@,
            zome_id: self.zome_id,
            tag: self.tag@,
        }
    }
}

impl Clone for CreateLink {
    fn clone(&self) -> (r: Self)
        ensures
            r@ == self@,
    {
        let r = CreateLink {
            author: self.author.clone(),
            timestamp: self.timestamp,
            base_address: self.base_address.clone(),
            target_address: self.target_address.clone(),
            zome_id: self.zome_id,
            tag: self.tag.clone(),
        };
        proof {
            assert(r@ =~= self@);
        }
        r
    }
}

/// Mathematical value of a [`DeleteLink`] header.
#[verifier::ext_equal]
pub ghost struct DeleteLinkV {
    pub author: HashV,
    pub timestamp: Timestamp,
    pub base_address: HashV,
    pub link_add_address: HashV,
}

/// A tombstone for a link: marks a prior link-add header as removed.
pub struct DeleteLink {
    /// The agent who authored the header.
    pub author: HoloHash,
    /// When the header was authored.
    pub timestamp: Timestamp,
    /// The base entry of the removed link.
    pub base_address: HoloHash,
    /// The link-add header being removed.
    pub link_add_address: HoloHash,
}

impl View for DeleteLink {
    type V = DeleteLinkV;

    open spec fn view(&self) -> DeleteLinkV {
        DeleteLinkV {
            author: self.author@,
            timestamp: self.timestamp,
            base_address: self.base_address@,
            link_add_address: self.link_add_address@,
        }
    }
}

impl Clone for DeleteLink {
    fn clone(&self) -> (r: Self)
        ensures
            r@ == self@,
    {
        let r = DeleteLink {
            author: self.author.clone(),
            timestamp: self.timestamp,
            base_address: self.base_address.clone(),
            link_add_address: self.link_add_address.clone(),
        };
        proof {
            assert(r@ =~= self@);
        }
        r
    }
}

/// Mathematical value of a [`Header`].
#[verifier::ext_equal]
pub ghost enum HeaderV {
    Create(CreateV),
    Update(UpdateV),
    Delete(DeleteV),
    CreateLink(CreateLinkV),
    DeleteLink(DeleteLinkV),
}

/// A chain header: one append-only CRUD record.
pub enum Header {
    /// Commits new entry data.
    Create(Create),
    /// Replaces prior entry data.
    Update(Update),
    /// Tombstones a new-entry header.
    Delete(Delete),
    /// Adds a link.
    CreateLink(CreateLink),
    /// Removes a link.
    DeleteLink(DeleteLink),
}

impl View for Header {
    type V = HeaderV;

    open spec fn view(&self) -> HeaderV {
        match self {
            Header::Create(h) => HeaderV::Create(h@),
            Header::Update(h) => HeaderV::Update(h@),
            Header::Delete(h) => HeaderV::Delete(h@),
            Header::CreateLink(h) => HeaderV::CreateLink(h@),
            Header::DeleteLink(h) => HeaderV::DeleteLink(h@),
        }
    }
}

impl Clone for Header {
    fn clone(&self) -> (r: Self)
        ensures
            r@ == self@,
    {
        match self {
            Header::Create(h) => Header::Create(h.clone()),
            Header::Update(h) => Header::Update(h.clone()),
            Header::Delete(h) => Header::Delete(h.clone()),
            Header::CreateLink(h) => Header::CreateLink(h.clone()),
            Header::DeleteLink(h) => Header::DeleteLink(h.clone()),
        }
    }
}

impl HeaderV {
    /// A well-formed header carries full digests under the right roles.
    pub open spec fn wf(self) -> bool {
        match self {
            HeaderV::Create(h) => {
                &&& h.author.wf() && h.author.role == HashRole::Agent
                &&& h.entry_hash.wf() && h.entry_hash.role == HashRole::Entry
            },
            HeaderV::Update(h) => {
                &&& h.author.wf() && h.author.role == HashRole::Agent
                &&& h.original_header_address.wf() && h.original_header_address.role
                    == HashRole::Header
                &&& h.original_entry_address.wf() && h.original_entry_address.role
                    == HashRole::Entry
                &&& h.entry_hash.wf() && h.entry_hash.role == HashRole::Entry
            },
            HeaderV::Delete(h) => {
                &&& h.author.wf() && h.author.role == HashRole::Agent
                &&& h.deletes_address.wf() && h.deletes_address.role == HashRole::Header
                &&& h.deletes_entry_address.wf() && h.deletes_entry_address.role
                    == HashRole::Entry
            },
            HeaderV::CreateLink(h) => {
                &&& h.author.wf() && h.author.role == HashRole::Agent
                &&& h.base_address.wf() && h.base_address.role == HashRole::Entry
                &&& h.target_address.wf() && h.target_address.role == HashRole::Entry
            },
            HeaderV::DeleteLink(h) => {
                &&& h.author.wf() && h.author.role == HashRole::Agent
                &&& h.base_address.wf() && h.base_address.role == HashRole::Entry
                &&& h.link_add_address.wf() && h.link_add_address.role == HashRole::Header
            },
        }
    }

    /// The entry address and type a new-entry header commits, if any.
    pub open spec fn entry_data(self) -> Option<(HashV, EntryType)> {
        match self {
            HeaderV::Create(h) => Some((h.entry_hash, h.entry_type)),
            HeaderV::Update(h) => Some((h.entry_hash, h.entry_type)),
            _ => None,
        }
    }

    /// When the header was authored.
    pub open spec fn timestamp(self) -> Timestamp {
        match self {
            HeaderV::Create(h) => h.timestamp,
            HeaderV::Update(h) => h.timestamp,
            HeaderV::Delete(h) => h.timestamp,
            HeaderV::CreateLink(h) => h.timestamp,
            HeaderV::DeleteLink(h) => h.timestamp,
        }
    }
}

impl Header {
    /// The entry address a new-entry header commits, if any.
    pub fn entry_hash(&self) -> (r: Option<&HoloHash>)
        ensures
            match self@.entry_data() {
                Some(d) => r matches Some(h) && h@ == d.0,
                None => r is None,
            },
    {
        match self {
            Header::Create(h) => Some(&h.entry_hash),
            Header::Update(h) => Some(&h.entry_hash),
            _ => None,
        }
    }

    /// Whether this header is well-formed.
    pub fn wf_check(&self) -> (r: bool)
        ensures
            r == self@.wf(),
    {
        match self {
            Header::Create(h) => {
                h.author.is_wf() && h.author.has_role(HashRole::Agent) && h.entry_hash.is_wf()
                    && h.entry_hash.has_role(HashRole::Entry)
            },
            Header::Update(h) => {
                h.author.is_wf() && h.author.has_role(HashRole::Agent)
                    && h.original_header_address.is_wf() && h.original_header_address.has_role(
                    HashRole::Header,
                ) && h.original_entry_address.is_wf() && h.original_entry_address.has_role(
                    HashRole::Entry,
                ) && h.entry_hash.is_wf() && h.entry_hash.has_role(HashRole::Entry)
            },
            Header::Delete(h) => {
                h.author.is_wf() && h.author.has_role(HashRole::Agent) && h.deletes_address.is_wf()
                    && h.deletes_address.has_role(HashRole::Header)
                    && h.deletes_entry_address.is_wf() && h.deletes_entry_address.has_role(
                    HashRole::Entry,
                )
            },
            Header::CreateLink(h) => {
                h.author.is_wf() && h.author.has_role(HashRole::Agent) && h.base_address.is_wf()
                    && h.base_address.has_role(HashRole::Entry) && h.target_address.is_wf()
                    && h.target_address.has_role(HashRole::Entry)
            },
            Header::DeleteLink(h) => {
                h.author.is_wf() && h.author.has_role(HashRole::Agent) && h.base_address.is_wf()
                    && h.base_address.has_role(HashRole::Entry) && h.link_add_address.is_wf()
                    && h.link_add_address.has_role(HashRole::Header)
            },
        }
    }

    /// When the header was authored.
    pub fn timestamp(&self) -> (r: Timestamp)
        ensures
            r == self@.timestamp(),
    {
        match self {
            Header::Create(h) => h.timestamp,
            Header::Update(h) => h.timestamp,
            Header::Delete(h) => h.timestamp,
            Header::CreateLink(h) => h.timestamp,
            Header::DeleteLink(h) => h.timestamp,
        }
    }
}

/// Canonical bytes of a timestamp.
pub open spec fn ts_bytes(t: Timestamp) -> Seq<u8> {
    i64_le(t.secs) + u64_le(t.nanos as u64)
}

/// Appends the canonical bytes of a timestamp.
pub fn push_ts(dst: &mut Vec<u8>, t: Timestamp)
    ensures
        final(dst)@ == old(dst)@ + ts_bytes(t),
{
    let ghost orig = dst@;
    push_i64_le(dst, t.secs);
    push_u64_le(dst, t.nanos as u64);
    proof {
        assert(dst@ =~= orig + ts_bytes(t));
    }
}

/// Canonical bytes of an entry type.
pub open spec fn entry_type_bytes(t: EntryType) -> Seq<u8> {
    match t {
        EntryType::AgentPubKey => seq![0u8],
        EntryType::App(a) => seq![
            1u8,
            a.id,
            a.zome_id,
            if a.visibility == EntryVisibility::Public {
                0u8
            } else {
                1u8
            },
        ],
        EntryType::CapClaim => seq![2u8],
        EntryType::CapGrant => seq![3u8],
    }
}

/// Appends the canonical bytes of an entry type.
pub fn push_entry_type(dst: &mut Vec<u8>, t: EntryType)
    ensures
        final(dst)@ == old(dst)@ + entry_type_bytes(t),
{
    let ghost orig = dst@;
    match t {
        EntryType::AgentPubKey => {
            dst.push(0u8);
        },
        EntryType::App(a) => {
            dst.push(1u8);
            dst.push(a.id);
            dst.push(a.zome_id);
            let vis: u8 = match a.visibility {
                EntryVisibility::Public => 0u8,
                EntryVisibility::Private => 1u8,
            };
            dst.push(vis);
        },
        EntryType::CapClaim => {
            dst.push(2u8);
        },
        EntryType::CapGrant => {
            dst.push(3u8);
        },
    }
    proof {
        assert(dst@ =~= orig + entry_type_bytes(t));
    }
}

/// Canonical serialization of a header: a variant tag followed by the
/// canonical bytes of each field. Deterministic, so equal headers always
/// serialize alike.
pub open spec fn header_bytes(h: HeaderV) -> Seq<u8> {
    match h {
        HeaderV::Create(c) => seq![0u8] + ts_bytes(c.timestamp) + c.author.digest
            + entry_type_bytes(c.entry_type) + c.entry_hash.digest,
        HeaderV::Update(u) => seq![1u8] + ts_bytes(u.timestamp) + u.author.digest
            + u.original_header_address.digest + u.original_entry_address.digest
            + entry_type_bytes(u.entry_type) + u.entry_hash.digest,
        HeaderV::Delete(d) => seq![2u8] + ts_bytes(d.timestamp) + d.author.digest
            + d.deletes_address.digest + d.deletes_entry_address.digest,
        HeaderV::CreateLink(l) => seq![3u8] + ts_bytes(l.timestamp) + l.author.digest
            + l.base_address.digest + l.target_address.digest + seq![l.zome_id] + l.tag,
        HeaderV::DeleteLink(l) => seq![4u8] + ts_bytes(l.timestamp) + l.author.digest
            + l.base_address.digest + l.link_add_address.digest,
    }
}

/// Serializes a header canonically.
#[verifier::rlimit(50)]
pub fn serialize_header(h: &Header) -> (r: Vec<u8>)
    ensures
        r@ == header_bytes(h@),
{
    let mut out: Vec<u8> = Vec::new();
    match h {
        Header::Create(c) => {
            out.push(0u8);
            push_ts(&mut out, c.timestamp);
            push_bytes(&mut out, c.author.digest().as_slice());
            push_entry_type(&mut out, c.entry_type);
            push_bytes(&mut out, c.entry_hash.digest().as_slice());
            proof {
                assert(out@ =~= header_bytes(h@));
            }
        },
        Header::Update(u) => {
            out.push(1u8);
            push_ts(&mut out, u.timestamp);
            push_bytes(&mut out, u.author.digest().as_slice());
            push_bytes(&mut out, u.original_header_address.digest().as_slice());
            push_bytes(&mut out, u.original_entry_address.digest().as_slice());
            push_entry_type(&mut out, u.entry_type);
            push_bytes(&mut out, u.entry_hash.digest().as_slice());
            proof {
                assert(out@ =~= header_bytes(h@));
            }
        },
        Header::Delete(d) => {
            out.push(2u8);
            push_ts(&mut out, d.timestamp);
            push_bytes(&mut out, d.author.digest().as_slice());
            push_bytes(&mut out, d.deletes_address.digest().as_slice());
            push_bytes(&mut out, d.deletes_entry_address.digest().as_slice());
            proof {
                assert(out@ =~= header_bytes(h@));
            }
        },
        Header::CreateLink(l) => {
            out.push(3u8);
            push_ts(&mut out, l.timestamp);
            push_bytes(&mut out, l.author.digest().as_slice());
            push_bytes(&mut out, l.base_address.digest().as_slice());
            push_bytes(&mut out, l.target_address.digest().as_slice());
            out.push(l.zome_id);
            push_bytes(&mut out, l.tag.0.as_slice());
            proof {
                assert(out@ =~= header_bytes(h@));
            }
        },
        Header::DeleteLink(l) => {
            out.push(4u8);
            push_ts(&mut out, l.timestamp);
            push_bytes(&mut out, l.author.digest().as_slice());
            push_bytes(&mut out, l.base_address.digest().as_slice());
            push_bytes(&mut out, l.link_add_address.digest().as_slice());
            proof {
                assert(out@ =~= header_bytes(h@));
            }
        },
    }
    out
}

/// The address of a header: the content digest of its canonical
/// serialization, tagged with the header role.
pub open spec fn header_hash_of(h: HeaderV) -> HashV {
    HashV { role: HashRole::Header, digest: content_digest(header_bytes(h)) }
}

/// Hashes a header to its address.
pub fn hash_header(h: &Header) -> (r: HoloHash)
    ensures
        r@ == header_hash_of(h@),
        r@.wf(),
{
    let bytes = serialize_header(h);
    let d = crate::digest::digest36(&bytes);
    HoloHash::from_raw_36(HashRole::Header, d)
}

} // verus!
