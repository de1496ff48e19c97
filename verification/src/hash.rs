//! Role-tagged content addresses.
//!
//! A [`HoloHash`] pairs a fixed-size digest with a [`HashRole`]: the role a
//! value plays on the DHT (an agent key, an entry, a header, ...). Two hashes
//! are equal only when both the digest and the role agree, so identical bytes
//! under different roles are distinct addresses. The serialized form is a
//! fixed three-byte role prefix followed by the digest, and decoding rejects
//! bytes whose prefix does not match the expected role.

use vstd::prelude::*;

verus! {

/// Number of digest bytes in every address (a 32-byte core plus a 4-byte
/// location suffix, always handled as one opaque 36-byte unit here).
pub const HASH_DIGEST_LEN: usize = 36;

/// Number of bytes in the self-describing serialized form: the 3-byte role
/// prefix followed by the digest.
pub const HASH_ENCODED_LEN: usize = 39;

/// The role a content address plays on the DHT.
#[derive(Clone, Copy, PartialEq, Eq, Structural, Debug)]
pub enum HashRole {
    /// An agent's public key, used directly as an address.
    Agent,
    /// The hash of an entry's canonical content.
    Entry,
    /// The hash of a DNA definition.
    Dna,
    /// The hash of a DHT operation.
    DhtOp,
    /// The hash of a header.
    Header,
    /// A network identifier.
    NetId,
    /// The hash of a WASM bundle.
    Wasm,
}

/// The three-byte prefix that makes a serialized hash self-describing.
/// A pure function of the role, never derived from the digest.
pub open spec fn role_prefix(role: HashRole) -> Seq<u8> {
    match role {
        HashRole::Agent => seq![0x84u8, 0x20u8, 0x24u8],
        HashRole::Entry => seq![0x84u8, 0x21u8, 0x24u8],
        HashRole::Dna => seq![0x84u8, 0x2du8, 0x24u8],
        HashRole::DhtOp => seq![0x84u8, 0x24u8, 0x24u8],
        HashRole::Header => seq![0x84u8, 0x29u8, 0x24u8],
        HashRole::NetId => seq![0x84u8, 0x22u8, 0x24u8],
        HashRole::Wasm => seq![0x84u8, 0x2au8, 0x24u8],
    }
}

/// Distinct roles have distinct prefixes, so a serialized hash names its role
/// unambiguously.
pub proof fn lemma_role_prefix_injective(a: HashRole, b: HashRole)
    ensures
        role_prefix(a) == role_prefix(b) ==> a == b,
{
    if a != b {
        assert(role_prefix(a)[1] != role_prefix(b)[1]);
    }
}

/// The serialized bytes of the prefix for a role.
pub fn prefix_bytes(role: HashRole) -> (r: Vec<u8>)
    ensures
        r@ == role_prefix(role),
{
    let r: Vec<u8> = match role {
        HashRole::Agent => vec![0x84u8, 0x20u8, 0x24u8],
        HashRole::Entry => vec![0x84u8, 0x21u8, 0x24u8],
        HashRole::Dna => vec![0x84u8, 0x2du8, 0x24u8],
        HashRole::DhtOp => vec![0x84u8, 0x24u8, 0x24u8],
        HashRole::Header => vec![0x84u8, 0x29u8, 0x24u8],
        HashRole::NetId => vec![0x84u8, 0x22u8, 0x24u8],
        HashRole::Wasm => vec![0x84u8, 0x2au8, 0x24u8],
    };
    proof {
        assert(r@ =~= role_prefix(role));
    }
    r
}

/// Mathematical value of a [`HoloHash`]: the role and the digest bytes.
#[verifier::ext_equal]
pub ghost struct HashV {
    pub role: HashRole,
    pub digest: Seq<u8>,
}

impl HashV {
    /// Every address carries exactly [`HASH_DIGEST_LEN`] digest bytes.
    pub open spec fn wf(self) -> bool {
        self.digest.len() == HASH_DIGEST_LEN
    }

    /// The self-describing serialized form: role prefix, then digest.
    pub open spec fn encoded(self) -> Seq<u8> {
        role_prefix(self.role) + self.digest
    }
}

/// A role-tagged content address. Immutable once constructed; the digest is
/// never reinterpreted under another role except through the explicit
/// conversions defined below.
#[derive(Debug)]
pub struct HoloHash {
    role: HashRole,
    digest: Vec<u8>,
}

impl View for HoloHash {
    type V = HashV;

    closed spec fn view(&self) -> HashV {
        HashV { role: self.role, digest: self.digest@ }
    }
}

/// Why a serialized hash was rejected.
#[derive(Clone, Copy, PartialEq, Eq, Structural, Debug)]
pub enum HashDecodeError {
    /// The input was not exactly [`HASH_ENCODED_LEN`] bytes.
    WrongLength,
    /// The three-byte prefix does not name the expected role.
    WrongPrefix,
}

impl Clone for HoloHash {
    fn clone(&self) -> (r: Self)
        ensures
            r@ == self@,
    {
        let mut digest: Vec<u8> = Vec::new();
        let mut i: usize = 0;
        while i < self.digest.len()
            invariant
                i <= self.digest.len(),
                digest@ =~= self.digest@.subrange(0, i as int),
            decreases self.digest.len() - i,
        {
            digest.push(self.digest[i]);
            i += 1;
        }
        proof {
            assert(digest@ =~= self.digest@);
        }
        HoloHash { role: self.role, digest }
    }
}

impl HoloHash {
    /// Builds an address from a raw 36-byte digest under the given role.
    pub fn from_raw_36(role: HashRole, digest: Vec<u8>) -> (r: HoloHash)
        requires
            digest@.len() == HASH_DIGEST_LEN,
        ensures
            r@ == (HashV { role, digest: digest@ }),
            r@.wf(),
    {
        HoloHash { role, digest }
    }

    /// The role this address is tagged with.
    pub fn role(&self) -> (r: HashRole)
        ensures
            r == self@.role,
    {
        self.role
    }

    /// The raw digest bytes.
    pub fn digest(&self) -> (r: &Vec<u8>)
        ensures
            r@ == self@.digest,
    {
        &self.digest
    }

    /// Whether this address carries a full digest.
    pub fn is_wf(&self) -> (r: bool)
        ensures
            r == self@.wf(),
    {
        self.digest.len() == HASH_DIGEST_LEN
    }

    /// Whether this address is tagged with the given role.
    pub fn has_role(&self, role: HashRole) -> (r: bool)
        ensures
            r == (self@.role == role),
    {
        match (self.role, role) {
            (HashRole::Agent, HashRole::Agent) => true,
            (HashRole::Entry, HashRole::Entry) => true,
            (HashRole::Dna, HashRole::Dna) => true,
            (HashRole::DhtOp, HashRole::DhtOp) => true,
            (HashRole::Header, HashRole::Header) => true,
            (HashRole::NetId, HashRole::NetId) => true,
            (HashRole::Wasm, HashRole::Wasm) => true,
            _ => false,
        }
    }

    /// Structure-preserving equality: same role and same digest bytes.
    pub fn same(&self, other: &HoloHash) -> (r: bool)
        ensures
            r == (self@ == other@),
    {
        let roles_eq = match (self.role, other.role) {
            (HashRole::Agent, HashRole::Agent) => true,
            (HashRole::Entry, HashRole::Entry) => true,
            (HashRole::Dna, HashRole::Dna) => true,
            (HashRole::DhtOp, HashRole::DhtOp) => true,
            (HashRole::Header, HashRole::Header) => true,
            (HashRole::NetId, HashRole::NetId) => true,
            (HashRole::Wasm, HashRole::Wasm) => true,
            _ => false,
        };
        if !roles_eq {
            return false;
        }
        let bytes_eq = bytes_equal(&self.digest, &other.digest);
        proof {
            if self@.digest == other@.digest && self@.role == other@.role {
                assert(self@ =~= other@);
            }
        }
        bytes_eq
    }

    /// Serializes the address: role prefix followed by the digest.
    pub fn encode(&self) -> (r: Vec<u8>)
        ensures
            r@ == self@.encoded(),
    {
        let mut r = prefix_bytes(self.role);
        let mut i: usize = 0;
        while i < self.digest.len()
            invariant
                i <= self.digest.len(),
                r@ =~= role_prefix(self@.role) + self.digest@.subrange(0, i as int),
            decreases self.digest.len() - i,
        {
            r.push(self.digest[i]);
            i += 1;
        }
        proof {
            assert(r@ =~= self@.encoded());
        }
        r
    }

    /// Deserializes an address of the expected role. Bytes whose prefix names
    /// any other role (or whose length is wrong) are rejected, never silently
    /// reinterpreted.
    pub fn decode(bytes: &Vec<u8>, expected: HashRole) -> (r: Result<HoloHash, HashDecodeError>)
        ensures
            match r {
                Ok(h) => {
                    &&& h@.wf()
                    &&& h@.role == expected
                    &&& bytes@ == h@.encoded()
                },
                Err(HashDecodeError::WrongLength) => bytes@.len() != HASH_ENCODED_LEN,
                Err(HashDecodeError::WrongPrefix) => {
                    &&& bytes@.len() == HASH_ENCODED_LEN
                    &&& bytes@.subrange(0, 3) != role_prefix(expected)
                },
            },
    {
        if bytes.len() != HASH_ENCODED_LEN {
            return Err(HashDecodeError::WrongLength);
        }
        let prefix = prefix_bytes(expected);
        if !(bytes[0] == prefix[0] && bytes[1] == prefix[1] && bytes[2] == prefix[2]) {
            proof {
                assert(bytes@.subrange(0, 3) != role_prefix(expected)) by {
                    if bytes@.subrange(0, 3) == role_prefix(expected) {
                        assert(bytes@.subrange(0, 3)[0] == bytes@[0]);
                        assert(bytes@.subrange(0, 3)[1] == bytes@[1]);
                        assert(bytes@.subrange(0, 3)[2] == bytes@[2]);
                    }
                }
            }
            return Err(HashDecodeError::WrongPrefix);
        }
        let mut digest: Vec<u8> = Vec::new();
        let mut i: usize = 3;
        while i < bytes.len()
            invariant
                3 <= i <= bytes.len(),
                bytes@.len() == HASH_ENCODED_LEN,
                digest@ =~= bytes@.subrange(3, i as int),
            decreases bytes.len() - i,
        {
            digest.push(bytes[i]);
            i += 1;
        }
        let h = HoloHash { role: expected, digest };
        proof {
            assert(h@.encoded() =~= bytes@) by {
                assert(bytes@.subrange(0, 3) =~= role_prefix(expected));
                assert(h@.digest =~= bytes@.subrange(3, HASH_ENCODED_LEN as int));
            }
        }
        Ok(h)
    }

    /// Re-tags an agent key as the address of its agent entry, without
    /// rehashing. The two domains share byte-identical addresses.
    pub fn agent_to_entry(self) -> (r: HoloHash)
        requires
            self@.role == HashRole::Agent,
        ensures
            r@ == (HashV { role: HashRole::Entry, digest: self@.digest }),
    {
        HoloHash { role: HashRole::Entry, digest: self.digest }
    }

    /// Re-tags an agent-entry address back to the agent key, without
    /// rehashing.
    pub fn entry_to_agent(self) -> (r: HoloHash)
        requires
            self@.role == HashRole::Entry,
        ensures
            r@ == (HashV { role: HashRole::Agent, digest: self@.digest }),
    {
        HoloHash { role: HashRole::Agent, digest: self.digest }
    }
}

/// Byte-vector equality by content.
pub fn bytes_equal(a: &Vec<u8>, b: &Vec<u8>) -> (r: bool)
    ensures
        r == (a@ == b@),
{
    if a.len() != b.len() {
        return false;
    }
    let mut i: usize = 0;
    while i < a.len()
        invariant
            i <= a.len(),
            a@.len() == b@.len(),
            forall|j: int| 0 <= j < i ==> a@[j] == b@[j],
        decreases a.len() - i,
    {
        if a[i] != b[i] {
            return false;
        }
        i += 1;
    }
    proof {
        assert(a@ =~= b@);
    }
    true
}

/// Copies a byte vector.
pub fn clone_bytes(v: &Vec<u8>) -> (r: Vec<u8>)
    ensures
        r@ == v@,
{
    let mut r: Vec<u8> = Vec::new();
    let mut i: usize = 0;
    while i < v.len()
        invariant
            i <= v.len(),
            r@ =~= v@.subrange(0, i as int),
        decreases v.len() - i,
    {
        r.push(v[i]);
        i += 1;
    }
    proof {
        assert(r@ =~= v@);
    }
    r
}

/// Round trip: decoding a serialized address under its own role returns the
/// address unchanged.
pub proof fn lemma_encode_decode_round_trip(h: HashV, bytes: Seq<u8>, r: HashV)
    requires
        h.wf(),
        bytes == h.encoded(),
        r.wf(),
        r.role == h.role,
        bytes == r.encoded(),
    ensures
        r == h,
{
    assert(h.digest =~= r.digest) by {
        assert forall|i: int| 0 <= i < HASH_DIGEST_LEN implies h.digest[i] == r.digest[i] by {
            assert(h.encoded()[3 + i] == h.digest[i]);
            assert(r.encoded()[3 + i] == r.digest[i]);
        }
    }
    assert(h =~= r);
}

} // verus!
