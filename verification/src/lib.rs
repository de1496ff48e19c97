//! A DHT content-retrieval and metadata-resolution library.
//!
//! Data on the DHT is addressed by role-tagged content hashes. Reads go
//! through the [`cascade::Cascade`], which consults an authoritative local
//! vault, a transient local cache, and a network of remote authorities, and
//! reconciles append-only CRUD metadata (headers, deletes, updates, links)
//! into the currently valid answer for an address.

pub mod cascade;
pub mod details;
pub mod digest;
pub mod element;
pub mod element_buf;
pub mod entry;
pub mod error;
pub mod event;
pub mod hash;
pub mod hash_type;
pub mod header;
pub mod laws;
pub mod metadata;
pub mod msg;
pub mod net;
pub mod time;
pub mod validate;
