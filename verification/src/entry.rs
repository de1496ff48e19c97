//! The unit of chain data and its hashing rule.
//!
//! An [`Entry`] is either an agent's public key, application bytes, a
//! capability claim, or a capability grant. Every entry except an agent key
//! hashes to the content digest of its canonical serialization; an agent
//! entry instead hashes to the key's own 36 bytes, so an agent entry's
//! address equals the corresponding agent key re-tagged.

use crate::digest::{content_digest, push_bytes, push_u64_le, u64_le};
use crate::hash::{HashRole, HashV, HoloHash};
use vstd::prelude::*;
use vstd::string::*;
use vstd::utf8::encode_utf8;

verus! {

/// Entries larger than this number of bytes cannot be created.
pub const ENTRY_SIZE_LIMIT: usize = 16 * 1000 * 1000;

/// Why an entry could not be built.
#[derive(Clone, Copy, PartialEq, Eq, Structural, Debug)]
pub enum EntryError {
    /// The application bytes exceed [`ENTRY_SIZE_LIMIT`]; carries the
    /// offending size.
    EntryTooLarge(usize),
}

/// Options for a get request made from application code, carried through
/// to the network layer unchanged.
#[derive(Clone, Copy, PartialEq, Eq, Structural, Debug)]
pub struct GetOptions;

/// Application entry data, size-limited at construction.
pub struct AppEntryBytes {
    bytes: Vec<u8>,
}

impl View for AppEntryBytes {
    type V = Seq<u8>;

    closed spec fn view(&self) -> Seq<u8> {
        self.bytes@
    }
}

impl Clone for AppEntryBytes {
    fn clone(&self) -> (r: Self)
        ensures
            r@ == self@,
    {
        AppEntryBytes { bytes: crate::hash::clone_bytes(&self.bytes) }
    }
}

impl AppEntryBytes {
    /// Wraps application bytes, rejecting oversized payloads.
    pub fn from_bytes(bytes: Vec<u8>) -> (r: Result<AppEntryBytes, EntryError>)
        ensures
            match r {
                Ok(b) => b@ == bytes@ && bytes@.len() <= ENTRY_SIZE_LIMIT,
                Err(EntryError::EntryTooLarge(n)) => n == bytes@.len() && bytes@.len()
                    > ENTRY_SIZE_LIMIT,
            },
    {
        if bytes.len() > ENTRY_SIZE_LIMIT {
            Err(EntryError::EntryTooLarge(bytes.len()))
        } else {
            Ok(AppEntryBytes { bytes })
        }
    }

    /// The wrapped bytes.
    pub fn bytes(&self) -> (r: &Vec<u8>)
        ensures
            r@ == self@,
    {
        &self.bytes
    }
}

/// Mathematical value of a capability claim.
#[verifier::ext_equal]
pub ghost struct CapClaimV {
    pub tag: Seq<char>,
    pub grantor: HashV,
    pub secret: Seq<u8>,
}

/// A committed record of a capability granted by another agent.
pub struct CapClaim {
    /// A name the claimant chose for the claim.
    pub tag: String,
    /// The agent who granted the capability.
    pub grantor: HoloHash,
    /// The secret that proves the grant.
    pub secret: Vec<u8>,
}

impl View for CapClaim {
    type V = CapClaimV;

    open spec fn view(&self) -> CapClaimV {
        CapClaimV { tag: self.tag@, grantor: self.grantor@, secret: self.secret@ }
    }
}

impl Clone for CapClaim {
    fn clone(&self) -> (r: Self)
        ensures
            r@ == self@,
    {
        let r = CapClaim {
            tag: self.tag.clone(),
            grantor: self.grantor.clone(),
            secret: crate::hash::clone_bytes(&self.secret),
        };
        proof {
            assert(r@ =~= self@);
        }
        r
    }
}

/// Mathematical value of a zome-call capability grant.
#[verifier::ext_equal]
pub ghost struct CapGrantV {
    pub tag: Seq<char>,
    pub secret: Seq<u8>,
}

/// The committed form of an application-defined capability grant.
pub struct ZomeCallCapGrant {
    /// A name the grantor chose for the grant.
    pub tag: String,
    /// The secret a claimant must present.
    pub secret: Vec<u8>,
}

impl View for ZomeCallCapGrant {
    type V = CapGrantV;

    open spec fn view(&self) -> CapGrantV {
        CapGrantV { tag: self.tag@, secret: self.secret@ }
    }
}

impl Clone for ZomeCallCapGrant {
    fn clone(&self) -> (r: Self)
        ensures
            r@ == self@,
    {
        let r = ZomeCallCapGrant {
            tag: self.tag.clone(),
            secret: crate::hash::clone_bytes(&self.secret),
        };
        proof {
            assert(r@ =~= self@);
        }
        r
    }
}

/// The capability-grant entry type written to a source chain.
pub type CapGrantEntry = ZomeCallCapGrant;

/// The capability-claim entry type written to a source chain.
pub type CapClaimEntry = CapClaim;

/// A capability as seen by authorization checks. The chain author's own
/// authority is implied by the agent entry rather than committed separately.
pub enum CapGrant {
    /// The implicit, all-powerful grant every agent has over its own chain.
    ChainAuthor(HoloHash),
    /// A committed grant extended to remote agents.
    RemoteAgent(ZomeCallCapGrant),
}

/// Mathematical value of a [`CapGrant`].
#[verifier::ext_equal]
pub ghost enum CapGrantViewV {
    ChainAuthor(HashV),
    RemoteAgent(CapGrantV),
}

impl View for CapGrant {
    type V = CapGrantViewV;

    open spec fn view(&self) -> CapGrantViewV {
        match self {
            CapGrant::ChainAuthor(k) => CapGrantViewV::ChainAuthor(k@),
            CapGrant::RemoteAgent(g) => CapGrantViewV::RemoteAgent(g@),
        }
    }
}

/// Mathematical value of an [`Entry`].
#[verifier::ext_equal]
pub ghost enum EntryV {
    Agent(HashV),
    App(Seq<u8>),
    CapClaim(CapClaimV),
    CapGrant(CapGrantV),
}

impl EntryV {
    /// Shape of a well-formed entry: hashes carry full digests under the
    /// right role, and application bytes respect the size limit.
    pub open spec fn wf(self) -> bool {
        match self {
            EntryV::Agent(k) => k.wf() && k.role == HashRole::Agent,
            EntryV::App(b) => b.len() <= ENTRY_SIZE_LIMIT,
            EntryV::CapClaim(c) => c.grantor.wf() && c.grantor.role == HashRole::Agent,
            EntryV::CapGrant(g) => true,
        }
    }
}

/// Structure holding the entry portion of a chain element.
pub enum Entry {
    /// The agent system entry, which grants authoring capability for this
    /// agent; its payload is the agent's public key.
    Agent(HoloHash),
    /// Application entry data for entries that are not system entries.
    App(AppEntryBytes),
    /// The capability-claim system entry, committing a granted permission
    /// for later use.
    CapClaim(CapClaimEntry),
    /// The capability-grant system entry, granting an application-defined
    /// capability.
    CapGrant(CapGrantEntry),
}

impl View for Entry {
    type V = EntryV;

    open spec fn view(&self) -> EntryV {
        match self {
            Entry::Agent(k) => EntryV::Agent(k@),
            Entry::App(b) => EntryV::App(b@),
            Entry::CapClaim(c) => EntryV::CapClaim(c@),
            Entry::CapGrant(g) => EntryV::CapGrant(g@),
        }
    }
}

impl Clone for Entry {
    fn clone(&self) -> (r: Self)
        ensures
            r@ == self@,
    {
        match self {
            Entry::Agent(k) => Entry::Agent(k.clone()),
            Entry::App(b) => Entry::App(b.clone()),
            Entry::CapClaim(c) => Entry::CapClaim(c.clone()),
            Entry::CapGrant(g) => Entry::CapGrant(g.clone()),
        }
    }
}

impl Entry {
    /// If this entry represents a capability grant, returns it. An agent
    /// entry stands for the chain author's implicit grant.
    pub fn as_cap_grant(&self) -> (r: Option<CapGrant>)
        ensures
            match self@ {
                EntryV::Agent(k) => r matches Some(g) && g@ == CapGrantViewV::ChainAuthor(k),
                EntryV::CapGrant(gv) => r matches Some(g) && g@ == CapGrantViewV::RemoteAgent(gv),
                _ => r is None,
            },
    {
        match self {
            Entry::Agent(key) => Some(CapGrant::ChainAuthor(key.clone())),
            Entry::CapGrant(data) => Some(CapGrant::RemoteAgent(data.clone())),
            _ => None,
        }
    }

    /// If this entry represents a capability claim, returns it.
    pub fn as_cap_claim(&self) -> (r: Option<&CapClaim>)
        ensures
            match self@ {
                EntryV::CapClaim(c) => r matches Some(claim) && claim@ == c,
                _ => r is None,
            },
    {
        match self {
            Entry::CapClaim(claim) => Some(claim),
            _ => None,
        }
    }

    /// Whether this entry is well-formed.
    pub fn wf_check(&self) -> (r: bool)
        ensures
            r == self@.wf(),
    {
        match self {
            Entry::Agent(k) => k.is_wf() && k.has_role(HashRole::Agent),
            Entry::App(b) => b.bytes().len() <= ENTRY_SIZE_LIMIT,
            Entry::CapClaim(c) => c.grantor.is_wf() && c.grantor.has_role(HashRole::Agent),
            Entry::CapGrant(_) => true,
        }
    }

    /// Creates an application entry from serialized bytes, rejecting
    /// oversized payloads.
    pub fn app(sb: Vec<u8>) -> (r: Result<Entry, EntryError>)
        ensures
            match r {
                Ok(e) => e@ == EntryV::App(sb@) && sb@.len() <= ENTRY_SIZE_LIMIT,
                Err(EntryError::EntryTooLarge(n)) => n == sb@.len() && sb@.len()
                    > ENTRY_SIZE_LIMIT,
            },
    {
        match AppEntryBytes::from_bytes(sb) {
            Ok(b) => Ok(Entry::App(b)),
            Err(e) => Err(e),
        }
    }
}

/// Canonical serialization of an entry: a variant tag, then the payload
/// fields. Where two variable-length fields meet, the first carries a
/// length prefix, so distinct entries never share a serialization.
/// Deterministic, so equal entries always serialize alike.
pub open spec fn entry_bytes(e: EntryV) -> Seq<u8> {
    match e {
        EntryV::Agent(k) => seq![0u8] + k.digest,
        EntryV::App(b) => seq![1u8] + b,
        EntryV::CapClaim(c) => seq![2u8] + u64_le(c.secret.len() as u64) + c.secret
            + c.grantor.digest + encode_utf8(c.tag),
        EntryV::CapGrant(g) => seq![3u8] + u64_le(g.secret.len() as u64) + g.secret + encode_utf8(
            g.tag,
        ),
    }
}

/// The bytes a value hands to the hasher: either content to digest, or an
/// already-final 36-byte form.
pub enum HashableContentBytes {
    /// Hash these bytes to obtain the address.
    Content(Vec<u8>),
    /// Use these 36 bytes directly as the address digest.
    Prehashed36(Vec<u8>),
}

/// The address of an entry. An agent entry's address is the agent key's own
/// digest re-tagged as an entry hash; every other entry hashes its canonical
/// serialization.
pub open spec fn entry_hash_of(e: EntryV) -> HashV {
    match e {
        EntryV::Agent(k) => HashV { role: HashRole::Entry, digest: k.digest },
        _ => HashV { role: HashRole::Entry, digest: content_digest(entry_bytes(e)) },
    }
}

impl Entry {
    /// What this entry hands to the hasher: an agent entry is pre-hashed to
    /// the key's 36 bytes, every other entry hashes its serialization.
    pub fn hashable_content(&self) -> (r: HashableContentBytes)
        ensures
            match self@ {
                EntryV::Agent(k) => r matches HashableContentBytes::Prehashed36(b) && b@
                    == k.digest,
                _ => r matches HashableContentBytes::Content(b) && b@ == entry_bytes(self@),
            },
    {
        match self {
            Entry::Agent(agent_pubkey) => HashableContentBytes::Prehashed36(
                crate::hash::clone_bytes(agent_pubkey.digest()),
            ),
            _ => HashableContentBytes::Content(serialize_entry(self)),
        }
    }
}

/// Serializes an entry canonically.
#[verifier::rlimit(50)]
pub fn serialize_entry(e: &Entry) -> (r: Vec<u8>)
    ensures
        r@ == entry_bytes(e@),
{
    let mut out: Vec<u8> = Vec::new();
    match e {
        Entry::Agent(k) => {
            out.push(0u8);
            push_bytes(&mut out, k.digest().as_slice());
            proof {
                assert(out@ =~= entry_bytes(e@));
            }
        },
        Entry::App(b) => {
            out.push(1u8);
            push_bytes(&mut out, b.bytes().as_slice());
            proof {
                assert(out@ =~= entry_bytes(e@));
            }
        },
        Entry::CapClaim(c) => {
            out.push(2u8);
            push_u64_le(&mut out, c.secret.len() as u64);
            push_bytes(&mut out, c.secret.as_slice());
            push_bytes(&mut out, c.grantor.digest().as_slice());
            push_bytes(&mut out, c.tag.as_str().as_bytes());
            proof {
                assert(out@ =~= entry_bytes(e@));
            }
        },
        Entry::CapGrant(g) => {
            out.push(3u8);
            push_u64_le(&mut out, g.secret.len() as u64);
            push_bytes(&mut out, g.secret.as_slice());
            push_bytes(&mut out, g.tag.as_str().as_bytes());
            proof {
                assert(out@ =~= entry_bytes(e@));
            }
        },
    }
    out
}

/// Hashes an entry to its address.
pub fn hash_entry(e: &Entry) -> (r: HoloHash)
    requires
        e@.wf(),
    ensures
        r@ == entry_hash_of(e@),
        r@.wf(),
{
    match e.hashable_content() {
        HashableContentBytes::Prehashed36(b) => {
            HoloHash::from_raw_36(HashRole::Entry, b)
        },
        HashableContentBytes::Content(b) => {
            let d = crate::digest::digest36(&b);
            HoloHash::from_raw_36(HashRole::Entry, d)
        },
    }
}

} // verus!
