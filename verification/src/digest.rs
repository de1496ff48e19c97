//! The content digest behind content addressing.
//!
//! Every address except an agent key is the digest of a value's canonical
//! byte serialization. The digest is a pure, deterministic fold of the input
//! bytes into a fixed-width state, so equal content always yields the same
//! address.

use crate::hash::HASH_DIGEST_LEN;
use vstd::prelude::*;

verus! {

/// One mixing step: adds a byte into a state byte, wrapping.
pub open spec fn mix(a: u8, b: u8) -> u8 {
    ((a as int + b as int) % 256) as u8
}

/// The all-zero initial digest state.
pub open spec fn digest_init() -> Seq<u8> {
    Seq::new(HASH_DIGEST_LEN as nat, |i: int| 0u8)
}

/// The digest state after folding in the first `n` input bytes.
pub open spec fn digest_state(s: Seq<u8>, n: int) -> Seq<u8>
    decreases n,
{
    if n <= 0 {
        digest_init()
    } else {
        let prev = digest_state(s, n - 1);
        let j = (n - 1) % (HASH_DIGEST_LEN as int);
        prev.update(j, mix(prev[j], s[n - 1]))
    }
}

/// The digest of a byte string: the state after folding in all of it.
pub open spec fn content_digest(s: Seq<u8>) -> Seq<u8> {
    digest_state(s, s.len() as int)
}

/// The digest state always has the fixed digest width.
pub proof fn lemma_digest_state_len(s: Seq<u8>, n: int)
    ensures
        digest_state(s, n).len() == HASH_DIGEST_LEN,
    decreases n,
{
    if n > 0 {
        lemma_digest_state_len(s, n - 1);
    }
}

/// The digest of a byte string has the fixed digest width.
pub proof fn lemma_content_digest_len(s: Seq<u8>)
    ensures
        content_digest(s).len() == HASH_DIGEST_LEN,
{
    lemma_digest_state_len(s, s.len() as int);
}

/// Computes the content digest of a byte string.
pub fn digest36(bytes: &Vec<u8>) -> (r: Vec<u8>)
    ensures
        r@ == content_digest(bytes@),
        r@.len() == HASH_DIGEST_LEN,
{
    let mut state: Vec<u8> = Vec::new();
    let mut k: usize = 0;
    while k < HASH_DIGEST_LEN
        invariant
            k <= HASH_DIGEST_LEN,
            state@ =~= digest_init().subrange(0, k as int),
        decreases HASH_DIGEST_LEN - k,
    {
        state.push(0u8);
        k += 1;
    }
    proof {
        assert(state@ =~= digest_init());
        lemma_digest_state_len(bytes@, 0);
    }
    let mut i: usize = 0;
    while i < bytes.len()
        invariant
            i <= bytes.len(),
            state@ == digest_state(bytes@, i as int),
            state@.len() == HASH_DIGEST_LEN,
        decreases bytes.len() - i,
    {
        let j: usize = i % HASH_DIGEST_LEN;
        let sum: u16 = state[j] as u16 + bytes[i] as u16;
        let mixed: u8 = (sum % 256) as u8;
        state[j] = mixed;
        proof {
            lemma_digest_state_len(bytes@, i as int);
            assert(state@ == digest_state(bytes@, i + 1)) by {
                assert(digest_state(bytes@, i + 1) == digest_state(bytes@, i as int).update(
                    (i as int) % (HASH_DIGEST_LEN as int),
                    mix(digest_state(bytes@, i as int)[(i as int) % (HASH_DIGEST_LEN as int)], bytes@[i as int]),
                ));
            }
        }
        i += 1;
    }
    proof {
        lemma_content_digest_len(bytes@);
    }
    state
}

/// Little-endian bytes of a 64-bit value.
pub open spec fn u64_le(x: u64) -> Seq<u8> {
    seq![
        (x % 256) as u8,
        ((x / 256) % 256) as u8,
        ((x / 65536) % 256) as u8,
        ((x / 16777216) % 256) as u8,
        ((x / 4294967296) % 256) as u8,
        ((x / 1099511627776) % 256) as u8,
        ((x / 281474976710656) % 256) as u8,
        ((x / 72057594037927936) % 256) as u8,
    ]
}

/// Sign byte plus magnitude bytes of a signed 64-bit value.
pub open spec fn i64_le(x: i64) -> Seq<u8> {
    if x >= 0 {
        seq![0u8] + u64_le(x as u64)
    } else {
        seq![1u8] + u64_le((-1 - x as int) as u64)
    }
}

/// Appends the little-endian bytes of a 64-bit value.
pub fn push_u64_le(dst: &mut Vec<u8>, x: u64)
    ensures
        final(dst)@ == old(dst)@ + u64_le(x),
{
    let ghost orig = dst@;
    dst.push((x % 256) as u8);
    dst.push(((x / 256) % 256) as u8);
    dst.push(((x / 65536) % 256) as u8);
    dst.push(((x / 16777216) % 256) as u8);
    dst.push(((x / 4294967296) % 256) as u8);
    dst.push(((x / 1099511627776) % 256) as u8);
    dst.push(((x / 281474976710656) % 256) as u8);
    dst.push(((x / 72057594037927936) % 256) as u8);
    proof {
        assert(dst@ =~= orig + u64_le(x));
    }
}

/// Appends the sign-and-magnitude bytes of a signed 64-bit value.
pub fn push_i64_le(dst: &mut Vec<u8>, x: i64)
    ensures
        final(dst)@ == old(dst)@ + i64_le(x),
{
    let ghost orig = dst@;
    if x >= 0 {
        dst.push(0u8);
        push_u64_le(dst, x as u64);
        proof {
            assert(dst@ =~= orig + i64_le(x));
        }
    } else {
        dst.push(1u8);
        let m: i64 = -1 - x;
        push_u64_le(dst, m as u64);
        proof {
            assert(dst@ =~= orig + i64_le(x));
        }
    }
}

/// Appends a byte slice.
pub fn push_bytes(dst: &mut Vec<u8>, src: &[u8])
    ensures
        final(dst)@ == old(dst)@ + src@,
{
    let mut i: usize = 0;
    while i < src.len()
        invariant
            i <= src@.len(),
            dst@ =~= old(dst)@ + src@.subrange(0, i as int),
        decreases src@.len() - i,
    {
        let b: u8 = src[i];
        dst.push(b);
        i += 1;
    }
    proof {
        assert(dst@ =~= old(dst)@ + src@);
    }
}

} // verus!
