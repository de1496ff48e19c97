//! Small application entry types: a post and a message.
//!
//! Each wraps a string and commits as an application entry whose bytes are
//! a one-byte kind tag followed by the string's UTF-8 bytes, so a post and
//! a message with the same text commit to different addresses.

use crate::entry::{Entry, EntryError, EntryV};
use vstd::prelude::*;

verus! {

/// A post written by an agent.
pub struct Post(pub String);

impl View for Post {
    type V = Seq<char>;

    open spec fn view(&self) -> Seq<char> {
        self.0@
    }
}

impl Clone for Post {
    fn clone(&self) -> (r: Self)
        ensures
            r@ == self@,
    {
        Post(self.0.clone())
    }
}

/// A message sent by an agent.
pub struct Msg(pub String);

impl View for Msg {
    type V = Seq<char>;

    open spec fn view(&self) -> Seq<char> {
        self.0@
    }
}

impl Clone for Msg {
    fn clone(&self) -> (r: Self)
        ensures
            r@ == self@,
    {
        Msg(self.0.clone())
    }
}

/// The committed bytes of a post: a kind tag, then the text's UTF-8
/// bytes.
pub open spec fn post_bytes(s: Seq<char>) -> Seq<u8> {
    seq![0u8] + vstd::utf8::encode_utf8(s)
}

/// The committed bytes of a message: a kind tag, then the text's UTF-8
/// bytes.
pub open spec fn msg_bytes(s: Seq<char>) -> Seq<u8> {
    seq![1u8] + vstd::utf8::encode_utf8(s)
}

impl Post {
    /// Serializes the post as an application entry; rejects oversized
    /// text.
    pub fn to_entry(&self) -> (r: Result<Entry, EntryError>)
        ensures
            match r {
                Ok(e) => e@ == EntryV::App(post_bytes(self@)) && post_bytes(self@).len()
                    <= crate::entry::ENTRY_SIZE_LIMIT,
                Err(EntryError::EntryTooLarge(n)) => n == post_bytes(self@).len() && post_bytes(
                    self@,
                ).len() > crate::entry::ENTRY_SIZE_LIMIT,
            },
    {
        let mut bytes: Vec<u8> = Vec::new();
        bytes.push(0u8);
        crate::digest::push_bytes(&mut bytes, self.0.as_str().as_bytes());
        proof {
            assert(bytes@ =~= post_bytes(self@));
        }
        Entry::app(bytes)
    }
}

impl Msg {
    /// Serializes the message as an application entry; rejects oversized
    /// text.
    pub fn to_entry(&self) -> (r: Result<Entry, EntryError>)
        ensures
            match r {
                Ok(e) => e@ == EntryV::App(msg_bytes(self@)) && msg_bytes(self@).len()
                    <= crate::entry::ENTRY_SIZE_LIMIT,
                Err(EntryError::EntryTooLarge(n)) => n == msg_bytes(self@).len() && msg_bytes(
                    self@,
                ).len() > crate::entry::ENTRY_SIZE_LIMIT,
            },
    {
        let mut bytes: Vec<u8> = Vec::new();
        bytes.push(1u8);
        crate::digest::push_bytes(&mut bytes, self.0.as_str().as_bytes());
        proof {
            assert(bytes@ =~= msg_bytes(self@));
        }
        Entry::app(bytes)
    }
}

} // verus!
