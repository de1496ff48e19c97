//! Timestamps and the timed-header ordering key.
//!
//! A [`TimedHeaderHash`] pairs a header hash with the time its header was
//! authored. Sets of concurrent headers are ordered ascending by timestamp,
//! with ties broken by the header-hash bytes; "oldest" means minimal under
//! this order.

use crate::hash::{HashV, HoloHash};
use vstd::prelude::*;

verus! {

/// A point in time: seconds since the epoch plus a nanosecond offset.
#[derive(Clone, Copy, PartialEq, Eq, Structural, Debug)]
pub struct Timestamp {
    /// Whole seconds since the epoch.
    pub secs: i64,
    /// Nanoseconds within the second.
    pub nanos: u32,
}

/// Non-strict order on timestamps: by seconds, then nanoseconds.
pub open spec fn ts_le(a: Timestamp, b: Timestamp) -> bool {
    a.secs < b.secs || (a.secs == b.secs && a.nanos <= b.nanos)
}

/// Lexicographic order on byte strings, with a proper prefix ordered first.
pub open spec fn lex_le(a: Seq<u8>, b: Seq<u8>) -> bool
    decreases a.len(),
{
    if a.len() == 0 {
        true
    } else if b.len() == 0 {
        false
    } else if a[0] < b[0] {
        true
    } else if a[0] > b[0] {
        false
    } else {
        lex_le(a.skip(1), b.skip(1))
    }
}

/// The lexicographic order is total.
pub proof fn lemma_lex_le_total(a: Seq<u8>, b: Seq<u8>)
    ensures
        lex_le(a, b) || lex_le(b, a),
    decreases a.len(),
{
    if a.len() != 0 && b.len() != 0 && a[0] == b[0] {
        lemma_lex_le_total(a.skip(1), b.skip(1));
    }
}

/// The lexicographic order is antisymmetric.
pub proof fn lemma_lex_le_antisymmetric(a: Seq<u8>, b: Seq<u8>)
    requires
        lex_le(a, b),
        lex_le(b, a),
    ensures
        a == b,
    decreases a.len(),
{
    if a.len() == 0 {
        assert(b.len() == 0);
        assert(a =~= b);
    } else {
        assert(b.len() != 0);
        assert(a[0] == b[0]);
        lemma_lex_le_antisymmetric(a.skip(1), b.skip(1));
        assert(a =~= b) by {
            assert(a.skip(1) =~= b.skip(1));
            assert(forall|i: int| 1 <= i < a.len() ==> a[i] == a.skip(1)[i - 1]);
        }
    }
}

/// The lexicographic order is transitive.
pub proof fn lemma_lex_le_transitive(a: Seq<u8>, b: Seq<u8>, c: Seq<u8>)
    requires
        lex_le(a, b),
        lex_le(b, c),
    ensures
        lex_le(a, c),
    decreases a.len(),
{
    if a.len() != 0 && b.len() != 0 && c.len() != 0 && a[0] == b[0] && b[0] == c[0] {
        lemma_lex_le_transitive(a.skip(1), b.skip(1), c.skip(1));
    }
}

/// If two byte strings agree on their first `i` bytes, their order is
/// decided by the remainders.
pub proof fn lemma_lex_le_skip(a: Seq<u8>, b: Seq<u8>, i: int)
    requires
        0 <= i <= a.len(),
        i <= b.len(),
        forall|j: int| 0 <= j < i ==> a[j] == b[j],
    ensures
        lex_le(a, b) == lex_le(a.skip(i), b.skip(i)),
    decreases i,
{
    if i > 0 {
        assert(a.len() != 0 && b.len() != 0 && a[0] == b[0]);
        assert(forall|j: int| 0 <= j < i - 1 ==> a.skip(1)[j] == b.skip(1)[j]);
        lemma_lex_le_skip(a.skip(1), b.skip(1), i - 1);
        assert(a.skip(1).skip(i - 1) =~= a.skip(i));
        assert(b.skip(1).skip(i - 1) =~= b.skip(i));
    } else {
        assert(a.skip(0) =~= a);
        assert(b.skip(0) =~= b);
    }
}

/// Compares byte vectors lexicographically.
pub fn lex_le_bytes(a: &Vec<u8>, b: &Vec<u8>) -> (r: bool)
    ensures
        r == lex_le(a@, b@),
{
    let n = if a.len() < b.len() {
        a.len()
    } else {
        b.len()
    };
    let mut i: usize = 0;
    while i < n
        invariant
            i <= n,
            n == if a@.len() < b@.len() {
                a@.len() as int
            } else {
                b@.len() as int
            },
            forall|j: int| 0 <= j < i ==> a@[j] == b@[j],
        decreases n - i,
    {
        if a[i] < b[i] {
            proof {
                lemma_lex_le_skip(a@, b@, i as int);
            }
            return true;
        }
        if a[i] > b[i] {
            proof {
                lemma_lex_le_skip(a@, b@, i as int);
            }
            return false;
        }
        i += 1;
    }
    proof {
        lemma_lex_le_skip(a@, b@, n as int);
    }
    a.len() <= b.len()
}

/// Mathematical value of a [`TimedHeaderHash`].
#[verifier::ext_equal]
pub ghost struct ThhV {
    /// When the header was authored.
    pub timestamp: Timestamp,
    /// The header's address.
    pub header_hash: HashV,
}

/// Non-strict order on timed header hashes: ascending timestamp, ties broken
/// by ascending header-hash bytes.
pub open spec fn thh_le(a: ThhV, b: ThhV) -> bool {
    if a.timestamp == b.timestamp {
        lex_le(a.header_hash.digest, b.header_hash.digest)
    } else {
        ts_le(a.timestamp, b.timestamp)
    }
}

/// The timed-header order is total.
pub proof fn lemma_thh_le_total(a: ThhV, b: ThhV)
    ensures
        thh_le(a, b) || thh_le(b, a),
{
    if a.timestamp == b.timestamp {
        lemma_lex_le_total(a.header_hash.digest, b.header_hash.digest);
    }
}

/// The timed-header order is transitive.
pub proof fn lemma_thh_le_transitive(a: ThhV, b: ThhV, c: ThhV)
    requires
        thh_le(a, b),
        thh_le(b, c),
    ensures
        thh_le(a, c),
{
    if a.timestamp == b.timestamp && b.timestamp == c.timestamp {
        lemma_lex_le_transitive(
            a.header_hash.digest,
            b.header_hash.digest,
            c.header_hash.digest,
        );
    }
}

/// Two timed header hashes below each other share timestamp and digest.
pub proof fn lemma_thh_le_antisymmetric(a: ThhV, b: ThhV)
    requires
        thh_le(a, b),
        thh_le(b, a),
        a.header_hash.role == b.header_hash.role,
    ensures
        a == b,
{
    if a.timestamp == b.timestamp {
        lemma_lex_le_antisymmetric(a.header_hash.digest, b.header_hash.digest);
        assert(a =~= b);
    } else {
        assert(ts_le(a.timestamp, b.timestamp) && ts_le(b.timestamp, a.timestamp));
        assert(a.timestamp == b.timestamp);
    }
}

/// Whether a run of timed header hashes is ordered ascending.
pub open spec fn thhs_sorted(s: Seq<ThhV>) -> bool {
    forall|i: int, j: int| 0 <= i < j < s.len() ==> thh_le(#[trigger] s[i], #[trigger] s[j])
}

/// Places a timed header hash before the first entry it does not exceed.
pub open spec fn insert_thh(s: Seq<ThhV>, x: ThhV) -> Seq<ThhV>
    decreases s.len(),
{
    if s.len() == 0 {
        seq![x]
    } else if thh_le(x, s[0]) {
        seq![x] + s
    } else {
        seq![s[0]] + insert_thh(s.skip(1), x)
    }
}

/// The ascending ordering of the first `j` candidates, by repeated
/// insertion.
pub open spec fn sort_thhs(s: Seq<ThhV>, j: int) -> Seq<ThhV>
    decreases j,
{
    if j <= 0 {
        Seq::empty()
    } else {
        insert_thh(sort_thhs(s, j - 1), s[j - 1])
    }
}

/// Insertion keeps a run ordered and adds exactly the inserted value.
pub proof fn lemma_insert_thh_props(s: Seq<ThhV>, x: ThhV)
    requires
        thhs_sorted(s),
    ensures
        thhs_sorted(insert_thh(s, x)),
        insert_thh(s, x).len() == s.len() + 1,
        forall|t: ThhV| #[trigger] insert_thh(s, x).contains(t) <==> s.contains(t) || t == x,
    decreases s.len(),
{
    let r = insert_thh(s, x);
    if s.len() == 0 {
        assert(r =~= seq![x]);
        assert(r.contains(x)) by {
            assert(r[0] == x);
        }
        assert forall|t: ThhV| #[trigger] r.contains(t) implies s.contains(t) || t == x by {
            let i = choose|i: int| 0 <= i < r.len() && r[i] == t;
        }
    } else if thh_le(x, s[0]) {
        assert(r == seq![x] + s);
        assert forall|i: int, j: int| 0 <= i < j < r.len() implies thh_le(
            #[trigger] r[i],
            #[trigger] r[j],
        ) by {
            if i == 0 {
                if j > 1 {
                    assert(thh_le(s[0], s[j - 1]));
                    lemma_thh_le_transitive(x, s[0], s[j - 1]);
                }
            } else {
                assert(thh_le(s[i - 1], s[j - 1]));
            }
        }
        assert forall|t: ThhV| #[trigger] r.contains(t) implies s.contains(t) || t == x by {
            let i = choose|i: int| 0 <= i < r.len() && r[i] == t;
            if i > 0 {
                assert(s[i - 1] == t);
            }
        }
        assert forall|t: ThhV| s.contains(t) || t == x implies #[trigger] r.contains(t) by {
            if s.contains(t) {
                let i = choose|i: int| 0 <= i < s.len() && s[i] == t;
                assert(r[i + 1] == t);
            } else {
                assert(r[0] == x);
            }
        }
    } else {
        assert(forall|i: int, j: int|
            0 <= i < j < s.skip(1).len() ==> thh_le(
                #[trigger] s.skip(1)[i],
                #[trigger] s.skip(1)[j],
            ));
        lemma_insert_thh_props(s.skip(1), x);
        let inner = insert_thh(s.skip(1), x);
        assert(r == seq![s[0]] + inner);
        assert forall|i: int, j: int| 0 <= i < j < r.len() implies thh_le(
            #[trigger] r[i],
            #[trigger] r[j],
        ) by {
            if i == 0 {
                assert(inner.contains(r[j])) by {
                    assert(inner[j - 1] == r[j]);
                }
                if r[j] == x {
                    lemma_thh_le_total(x, s[0]);
                } else {
                    assert(s.skip(1).contains(r[j]));
                    let k = choose|k: int| 0 <= k < s.skip(1).len() && s.skip(1)[k] == r[j];
                    assert(s[k + 1] == r[j]);
                }
            } else {
                assert(thh_le(inner[i - 1], inner[j - 1]));
            }
        }
        assert forall|t: ThhV| #[trigger] r.contains(t) implies s.contains(t) || t == x by {
            let i = choose|i: int| 0 <= i < r.len() && r[i] == t;
            if i == 0 {
                assert(s[0] == t);
            } else {
                assert(inner.contains(r[i])) by {
                    assert(inner[i - 1] == r[i]);
                }
                if t != x {
                    assert(s.skip(1).contains(t));
                    let k = choose|k: int| 0 <= k < s.skip(1).len() && s.skip(1)[k] == t;
                    assert(s[k + 1] == t);
                }
            }
        }
        assert forall|t: ThhV| s.contains(t) || t == x implies #[trigger] r.contains(t) by {
            if t == x || s.skip(1).contains(t) {
                assert(inner.contains(t));
                let k = choose|k: int| 0 <= k < inner.len() && inner[k] == t;
                assert(r[k + 1] == t);
            } else {
                let i = choose|i: int| 0 <= i < s.len() && s[i] == t;
                if i == 0 {
                    assert(r[0] == t);
                } else {
                    assert(s.skip(1)[i - 1] == t);
                }
            }
        }
    }
}

/// Sorting yields an ordered run holding exactly the candidates.
pub proof fn lemma_sort_thhs_props(s: Seq<ThhV>, j: int)
    requires
        0 <= j <= s.len(),
    ensures
        thhs_sorted(sort_thhs(s, j)),
        sort_thhs(s, j).len() == j,
        forall|t: ThhV| #[trigger] sort_thhs(s, j).contains(t) <==> exists|k: int|
            0 <= k < j && s[k] == t,
    decreases j,
{
    if j > 0 {
        lemma_sort_thhs_props(s, j - 1);
        lemma_insert_thh_props(sort_thhs(s, j - 1), s[j - 1]);
        assert forall|t: ThhV| #[trigger] sort_thhs(s, j).contains(t) implies exists|k: int|
            0 <= k < j && s[k] == t by {
            if sort_thhs(s, j - 1).contains(t) {
            } else {
                assert(s[j - 1] == t);
            }
        }
        assert forall|t: ThhV| (exists|k: int| 0 <= k < j && s[k] == t) implies #[trigger] sort_thhs(
            s,
            j,
        ).contains(t) by {
            let k = choose|k: int| 0 <= k < j && s[k] == t;
        }
    }
}

/// Insertion at the first position whose entry the value does not
/// exceed: what the recursive insertion computes.
pub proof fn lemma_insert_thh_at(s: Seq<ThhV>, x: ThhV, p: int)
    requires
        0 <= p <= s.len(),
        forall|k: int| 0 <= k < p ==> !thh_le(x, #[trigger] s[k]),
        p < s.len() ==> thh_le(x, s[p]),
    ensures
        insert_thh(s, x) == s.subrange(0, p) + seq![x] + s.skip(p),
    decreases p,
{
    if p == 0 {
        if s.len() == 0 {
            assert(insert_thh(s, x) =~= s.subrange(0, 0) + seq![x] + s.skip(0));
        } else {
            assert(insert_thh(s, x) =~= s.subrange(0, 0) + seq![x] + s.skip(0));
        }
    } else {
        assert(!thh_le(x, s[0]));
        assert(forall|k: int| 0 <= k < p - 1 ==> !thh_le(x, #[trigger] s.skip(1)[k]));
        assert(p - 1 < s.skip(1).len() ==> thh_le(x, s.skip(1)[p - 1]));
        lemma_insert_thh_at(s.skip(1), x, p - 1);
        assert(insert_thh(s, x) =~= s.subrange(0, p) + seq![x] + s.skip(p)) by {
            assert(insert_thh(s, x) == seq![s[0]] + (s.skip(1).subrange(0, p - 1) + seq![x]
                + s.skip(1).skip(p - 1)));
            assert(s.skip(1).skip(p - 1) =~= s.skip(p));
            assert(s.skip(1).subrange(0, p - 1) =~= s.subrange(1, p));
        }
    }
}

/// An ordering key for headers: authoring time plus the header's address.
pub struct TimedHeaderHash {
    /// When the header was authored.
    pub timestamp: Timestamp,
    /// The header's address.
    pub header_hash: HoloHash,
}

impl View for TimedHeaderHash {
    type V = ThhV;

    open spec fn view(&self) -> ThhV {
        ThhV { timestamp: self.timestamp, header_hash: self.header_hash@ }
    }
}

impl Clone for TimedHeaderHash {
    fn clone(&self) -> (r: Self)
        ensures
            r@ == self@,
    {
        let r = TimedHeaderHash { timestamp: self.timestamp, header_hash: self.header_hash.clone() };
        proof {
            assert(r@ =~= self@);
        }
        r
    }
}

impl TimedHeaderHash {
    /// Structure-preserving equality.
    pub fn same(&self, other: &TimedHeaderHash) -> (r: bool)
        ensures
            r == (self@ == other@),
    {
        let ts_eq = self.timestamp.secs == other.timestamp.secs
            && self.timestamp.nanos == other.timestamp.nanos;
        if !ts_eq {
            proof {
                assert(self@ != other@);
            }
            return false;
        }
        let r = self.header_hash.same(&other.header_hash);
        proof {
            if r {
                assert(self@ =~= other@);
            }
        }
        r
    }

    /// Whether `self` is ordered at or before `other`.
    pub fn le(&self, other: &TimedHeaderHash) -> (r: bool)
        ensures
            r == thh_le(self@, other@),
    {
        let ts_eq = self.timestamp.secs == other.timestamp.secs
            && self.timestamp.nanos == other.timestamp.nanos;
        if ts_eq {
            lex_le_bytes(self.header_hash.digest(), other.header_hash.digest())
        } else {
            self.timestamp.secs < other.timestamp.secs
                || (self.timestamp.secs == other.timestamp.secs
                    && self.timestamp.nanos <= other.timestamp.nanos)
        }
    }
}

} // verus!
