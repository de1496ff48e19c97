//! The element store: content-addressed storage of signed headers and
//! entries.
//!
//! Two instances exist per cascade: the authoritative vault and the
//! network-fed cache. Writes are idempotent — storing a value already held
//! under its address changes nothing — so replaying network responses never
//! changes what is held.

use crate::element::{
    shh_views, Element, EntryHashed, EntryHashedV, SignedHeaderHashed, SignedHeaderHashedV,
};
use crate::hash::{HashV, HoloHash};
use vstd::prelude::*;

verus! {

/// Mathematical value of an [`ElementBuf`].
#[verifier::ext_equal]
pub ghost struct ElementBufV {
    /// The signed headers held, addressed by header hash.
    pub headers: Seq<SignedHeaderHashedV>,
    /// The entries held, addressed by entry hash.
    pub entries: Seq<EntryHashedV>,
}

/// The first held header at the given address, if any.
pub open spec fn find_header(s: Seq<SignedHeaderHashedV>, h: HashV) -> Option<SignedHeaderHashedV>
    decreases s.len(),
{
    if s.len() == 0 {
        None
    } else if s[0].hash == h {
        Some(s[0])
    } else {
        find_header(s.skip(1), h)
    }
}

/// The first held entry at the given address, if any.
pub open spec fn find_entry(s: Seq<EntryHashedV>, h: HashV) -> Option<EntryHashedV>
    decreases s.len(),
{
    if s.len() == 0 {
        None
    } else if s[0].hash == h {
        Some(s[0])
    } else {
        find_entry(s.skip(1), h)
    }
}

/// Adds a header unless one is already held at its address.
pub open spec fn put_header(s: Seq<SignedHeaderHashedV>, x: SignedHeaderHashedV) -> Seq<
    SignedHeaderHashedV,
> {
    if find_header(s, x.hash) is Some {
        s
    } else {
        s.push(x)
    }
}

/// Adds an entry unless one is already held at its address.
pub open spec fn put_entry(s: Seq<EntryHashedV>, x: EntryHashedV) -> Seq<EntryHashedV> {
    if find_entry(s, x.hash) is Some {
        s
    } else {
        s.push(x)
    }
}

/// One store write: the header, and the entry when it came along.
pub open spec fn buf_put(b: ElementBufV, shh: SignedHeaderHashedV, e: Option<EntryHashedV>) -> ElementBufV {
    ElementBufV {
        headers: put_header(b.headers, shh),
        entries: match e {
            Some(x) => put_entry(b.entries, x),
            None => b.entries,
        },
    }
}

impl ElementBufV {
    /// Everything held is well-formed.
    pub open spec fn wf(self) -> bool {
        &&& forall|i: int| 0 <= i < self.headers.len() ==> (#[trigger] self.headers[i]).wf()
        &&& forall|i: int| 0 <= i < self.entries.len() ==> (#[trigger] self.entries[i]).wf()
    }
}

/// A found header is held at the queried address, and is well-formed when
/// everything held is.
pub proof fn lemma_find_header_found(s: Seq<SignedHeaderHashedV>, h: HashV)
    requires
        find_header(s, h) is Some,
    ensures
        find_header(s, h) matches Some(x) ==> x.hash == h && s.contains(x),
    decreases s.len(),
{
    if s.len() != 0 && s[0].hash != h {
        lemma_find_header_found(s.skip(1), h);
        let x = find_header(s.skip(1), h).unwrap();
        assert(s.skip(1).contains(x));
        let i = choose|i: int| 0 <= i < s.skip(1).len() && s.skip(1)[i] == x;
        assert(s[i + 1] == x);
    }
}

/// A found entry is held at the queried address, and is well-formed when
/// everything held is.
pub proof fn lemma_find_entry_found(s: Seq<EntryHashedV>, h: HashV)
    requires
        find_entry(s, h) is Some,
    ensures
        find_entry(s, h) matches Some(x) ==> x.hash == h && s.contains(x),
    decreases s.len(),
{
    if s.len() != 0 && s[0].hash != h {
        lemma_find_entry_found(s.skip(1), h);
        let x = find_entry(s.skip(1), h).unwrap();
        assert(s.skip(1).contains(x));
        let i = choose|i: int| 0 <= i < s.skip(1).len() && s.skip(1)[i] == x;
        assert(s[i + 1] == x);
    }
}

/// The element held at a header address: the signed header plus the entry
/// it commits, when that entry is also held.
pub open spec fn buf_get_element(b: ElementBufV, h: HashV) -> Option<crate::element::ElementV> {
    match find_header(b.headers, h) {
        None => None,
        Some(shh) => Some(
            crate::element::ElementV {
                header: shh.header,
                hash: shh.hash,
                signature: shh.signature,
                entry: match shh.header.entry_data() {
                    Some(d) => match find_entry(b.entries, d.0) {
                        Some(e) => Some(e.entry),
                        None => None,
                    },
                    None => None,
                },
            },
        ),
    }
}

/// Content-addressed storage of elements: signed headers and entries.
pub struct ElementBuf {
    headers: Vec<SignedHeaderHashed>,
    entries: Vec<EntryHashed>,
}

/// The view of a vector of hashed entries.
pub open spec fn entry_hashed_views(s: Seq<EntryHashed>) -> Seq<EntryHashedV> {
    Seq::new(s.len(), |i: int| s[i]@)
}

impl View for ElementBuf {
    type V = ElementBufV;

    closed spec fn view(&self) -> ElementBufV {
        ElementBufV {
            headers: shh_views(self.headers@),
            entries: entry_hashed_views(self.entries@),
        }
    }
}

impl ElementBuf {
    /// An empty element store.
    pub fn new() -> (r: ElementBuf)
        ensures
            r@ == (ElementBufV { headers: Seq::empty(), entries: Seq::empty() }),
            r@.wf(),
    {
        let r = ElementBuf { headers: Vec::new(), entries: Vec::new() };
        proof {
            assert(r@ =~= (ElementBufV { headers: Seq::empty(), entries: Seq::empty() }));
        }
        r
    }

    /// The signed header held at an address, if any.
    pub fn get_header(&self, hash: &HoloHash) -> (r: Option<SignedHeaderHashed>)
        ensures
            match find_header(self@.headers, hash@) {
                Some(x) => r matches Some(o) && o@ == x,
                None => r is None,
            },
    {
        let mut i: usize = 0;
        proof {
            assert(self@.headers.skip(0) =~= self@.headers);
        }
        while i < self.headers.len()
            invariant
                i <= self.headers@.len(),
                find_header(self@.headers, hash@) == find_header(
                    self@.headers.skip(i as int),
                    hash@,
                ),
            decreases self.headers@.len() - i,
        {
            proof {
                assert(self@.headers.skip(i as int)[0] == self@.headers[i as int]);
            }
            if self.headers[i].header_address().same(hash) {
                return Some(self.headers[i].clone());
            }
            proof {
                assert(self@.headers.skip(i as int).skip(1) =~= self@.headers.skip(i + 1));
            }
            i += 1;
        }
        proof {
            assert(self@.headers.skip(i as int).len() == 0);
        }
        None
    }

    /// The entry held at an address, if any.
    pub fn get_entry(&self, hash: &HoloHash) -> (r: Option<EntryHashed>)
        ensures
            match find_entry(self@.entries, hash@) {
                Some(x) => r matches Some(o) && o@ == x,
                None => r is None,
            },
    {
        let mut i: usize = 0;
        proof {
            assert(self@.entries.skip(0) =~= self@.entries);
        }
        while i < self.entries.len()
            invariant
                i <= self.entries@.len(),
                find_entry(self@.entries, hash@) == find_entry(
                    self@.entries.skip(i as int),
                    hash@,
                ),
            decreases self.entries@.len() - i,
        {
            proof {
                assert(self@.entries.skip(i as int)[0] == self@.entries[i as int]);
            }
            if self.entries[i].as_hash().same(hash) {
                return Some(self.entries[i].clone());
            }
            proof {
                assert(self@.entries.skip(i as int).skip(1) =~= self@.entries.skip(i + 1));
            }
            i += 1;
        }
        proof {
            assert(self@.entries.skip(i as int).len() == 0);
        }
        None
    }

    /// The element held at a header address: the signed header plus the
    /// entry it commits, when that entry is also held.
    pub fn get_element(&self, hash: &HoloHash) -> (r: Option<Element>)
        ensures
            match buf_get_element(self@, hash@) {
                Some(x) => r matches Some(el) && el@ == x,
                None => r is None,
            },
    {
        let shh = match self.get_header(hash) {
            Some(shh) => shh,
            None => {
                return None;
            },
        };
        let entry = match shh.header().entry_hash() {
            Some(eh) => match self.get_entry(eh) {
                Some(e) => Some(e.into_content()),
                None => None,
            },
            None => None,
        };
        let el = Element::new(shh, entry);
        proof {
            assert(el@ =~= buf_get_element(self@, hash@).unwrap());
        }
        Some(el)
    }

    /// Stores a signed header and, when handed along, its entry. Idempotent:
    /// a value already held under its address is left as it is.
    pub fn put(&mut self, shh: SignedHeaderHashed, entry: Option<EntryHashed>)
        requires
            shh@.wf(),
            entry matches Some(e) ==> e@.wf(),
        ensures
            final(self)@ == buf_put(old(self)@, shh@, match entry {
                Some(e) => Some(e@),
                None => None::<EntryHashedV>,
            }),
    {
        let ghost old_headers = self@.headers;
        if self.get_header(shh.header_address()).is_none() {
            self.headers.push(shh);
            proof {
                assert(shh_views(self.headers@) =~= old_headers.push(shh@));
            }
        }
        match entry {
            Some(e) => {
                let ghost old_entries = entry_hashed_views(self.entries@);
                if self.get_entry(e.as_hash()).is_none() {
                    self.entries.push(e);
                    proof {
                        assert(entry_hashed_views(self.entries@) =~= old_entries.push(e@));
                    }
                }
            },
            None => {},
        }
        proof {
            assert(self@ =~= buf_put(old(self)@, shh@, match entry {
                Some(e) => Some(e@),
                None => None::<EntryHashedV>,
            }));
        }
    }

}

/// The store after writing every header of a group prefix with the shared
/// entry.
pub open spec fn put_group_fold(
    b: ElementBufV,
    hs: Seq<SignedHeaderHashedV>,
    e: EntryHashedV,
    j: int,
) -> ElementBufV
    decreases j,
{
    if j <= 0 {
        b
    } else {
        buf_put(put_group_fold(b, hs, e, j - 1), hs[j - 1], Some(e))
    }
}

/// Writing preserves store well-formedness.
pub proof fn lemma_buf_put_wf(b: ElementBufV, shh: SignedHeaderHashedV, e: Option<EntryHashedV>)
    requires
        b.wf(),
        shh.wf(),
        e matches Some(x) ==> x.wf(),
    ensures
        buf_put(b, shh, e).wf(),
{
}

/// A found entry, when found, sits at the queried address.
pub proof fn lemma_find_entry_found_if(s: Seq<EntryHashedV>, h: HashV)
    ensures
        find_entry(s, h) matches Some(x) ==> x.hash == h && s.contains(x),
{
    if find_entry(s, h) is Some {
        lemma_find_entry_found(s, h);
    }
}

/// A held element, when held, sits at the queried address and is
/// well-formed when the store is.
pub proof fn lemma_buf_get_element_wf_if(b: ElementBufV, h: HashV)
    ensures
        buf_get_element(b, h) matches Some(el) ==> el.hash == h && (b.wf() ==> el.wf()),
{
    if buf_get_element(b, h) is Some {
        lemma_find_header_found(b.headers, h);
        if b.wf() {
            lemma_buf_get_element_wf(b, h);
        }
    }
}

/// A held element is well-formed when the store is.
pub proof fn lemma_buf_get_element_wf(b: ElementBufV, h: HashV)
    requires
        b.wf(),
        buf_get_element(b, h) is Some,
    ensures
        buf_get_element(b, h) matches Some(el) ==> el.wf() && el.hash == h,
{
    lemma_find_header_found(b.headers, h);
    let shh = find_header(b.headers, h).unwrap();
    let i = choose|i: int| 0 <= i < b.headers.len() && b.headers[i] == shh;
    match shh.header.entry_data() {
        Some(d) => {
            if find_entry(b.entries, d.0) is Some {
                lemma_find_entry_found(b.entries, d.0);
                let e = find_entry(b.entries, d.0).unwrap();
                let k = choose|k: int| 0 <= k < b.entries.len() && b.entries[k] == e;
            }
        },
        None => {},
    }
}

} // verus!
