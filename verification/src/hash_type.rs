//! Marker types for the primitive hash roles.
//!
//! Each primitive role has a statically known three-byte prefix and a
//! display name. The markers tie the static, type-level view of a role to
//! the dynamic [`HashRole`] tag carried by a [`crate::hash::HoloHash`].

use crate::hash::{role_prefix, HashRole};
use vstd::prelude::*;

verus! {

/// A primitive hash type: one whose three-byte prefix is statically known.
/// In contrast, a composite address (one that may be an entry or a header)
/// carries its role dynamically.
pub trait PrimitiveHashType: Sized {
    /// The dynamic role this marker stands for.
    spec fn spec_role() -> HashRole;

    /// The display name of this hash type.
    spec fn spec_name() -> Seq<char>;

    /// Constructor.
    fn new() -> Self;

    /// The 3-byte prefix, statically known for primitive hash types.
    fn static_prefix() -> (r: Vec<u8>)
        ensures
            r@ == role_prefix(Self::spec_role()),
    ;

    /// A display-worthy name for this hash type.
    fn hash_name(self) -> (r: &'static str)
        ensures
            r@ == Self::spec_name(),
    ;
}

/// Marker for agent public keys.
#[derive(Debug, Copy, Clone, PartialEq, Eq, Structural)]
pub struct Agent;

/// Marker for entry hashes.
#[derive(Debug, Copy, Clone, PartialEq, Eq, Structural)]
pub struct Entry;

/// Marker for DNA hashes.
#[derive(Debug, Copy, Clone, PartialEq, Eq, Structural)]
pub struct Dna;

/// Marker for DHT-operation hashes.
#[derive(Debug, Copy, Clone, PartialEq, Eq, Structural)]
pub struct DhtOp;

/// Marker for header hashes.
#[derive(Debug, Copy, Clone, PartialEq, Eq, Structural)]
pub struct Header;

/// Marker for network identifiers.
#[derive(Debug, Copy, Clone, PartialEq, Eq, Structural)]
pub struct NetId;

/// Marker for WASM bundle hashes.
#[derive(Debug, Copy, Clone, PartialEq, Eq, Structural)]
pub struct Wasm;

impl PrimitiveHashType for Agent {
    open spec fn spec_role() -> HashRole {
        HashRole::Agent
    }

    open spec fn spec_name() -> Seq<char> {
        "AgentPubKey"@
    }

    fn new() -> Self {
        Agent
    }

    fn static_prefix() -> (r: Vec<u8>) {
        crate::hash::prefix_bytes(HashRole::Agent)
    }

    fn hash_name(self) -> (r: &'static str) {
        "AgentPubKey"
    }
}

impl PrimitiveHashType for Entry {
    open spec fn spec_role() -> HashRole {
        HashRole::Entry
    }

    open spec fn spec_name() -> Seq<char> {
        "EntryHash"@
    }

    fn new() -> Self {
        Entry
    }

    fn static_prefix() -> (r: Vec<u8>) {
        crate::hash::prefix_bytes(HashRole::Entry)
    }

    fn hash_name(self) -> (r: &'static str) {
        "EntryHash"
    }
}

impl PrimitiveHashType for Dna {
    open spec fn spec_role() -> HashRole {
        HashRole::Dna
    }

    open spec fn spec_name() -> Seq<char> {
        "DnaHash"@
    }

    fn new() -> Self {
        Dna
    }

    fn static_prefix() -> (r: Vec<u8>) {
        crate::hash::prefix_bytes(HashRole::Dna)
    }

    fn hash_name(self) -> (r: &'static str) {
        "DnaHash"
    }
}

impl PrimitiveHashType for DhtOp {
    open spec fn spec_role() -> HashRole {
        HashRole::DhtOp
    }

    open spec fn spec_name() -> Seq<char> {
        "DhtOpHash"@
    }

    fn new() -> Self {
        DhtOp
    }

    fn static_prefix() -> (r: Vec<u8>) {
        crate::hash::prefix_bytes(HashRole::DhtOp)
    }

    fn hash_name(self) -> (r: &'static str) {
        "DhtOpHash"
    }
}

impl PrimitiveHashType for Header {
    open spec fn spec_role() -> HashRole {
        HashRole::Header
    }

    open spec fn spec_name() -> Seq<char> {
        "HeaderHash"@
    }

    fn new() -> Self {
        Header
    }

    fn static_prefix() -> (r: Vec<u8>) {
        crate::hash::prefix_bytes(HashRole::Header)
    }

    fn hash_name(self) -> (r: &'static str) {
        "HeaderHash"
    }
}

impl PrimitiveHashType for NetId {
    open spec fn spec_role() -> HashRole {
        HashRole::NetId
    }

    open spec fn spec_name() -> Seq<char> {
        "NetIdHash"@
    }

    fn new() -> Self {
        NetId
    }

    fn static_prefix() -> (r: Vec<u8>) {
        crate::hash::prefix_bytes(HashRole::NetId)
    }

    fn hash_name(self) -> (r: &'static str) {
        "NetIdHash"
    }
}

impl PrimitiveHashType for Wasm {
    open spec fn spec_role() -> HashRole {
        HashRole::Wasm
    }

    open spec fn spec_name() -> Seq<char> {
        "WasmHash"@
    }

    fn new() -> Self {
        Wasm
    }

    fn static_prefix() -> (r: Vec<u8>) {
        crate::hash::prefix_bytes(HashRole::Wasm)
    }

    fn hash_name(self) -> (r: &'static str) {
        "WasmHash"
    }
}

} // verus!
