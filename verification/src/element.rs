//! Elements: signed, hash-addressed envelopes around headers and entries.
//!
//! An [`Element`] is a signed header plus the entry it committed, when that
//! entry is held locally and the header kind carries entry data. An
//! [`ElementGroup`] bundles several concurrent new-entry headers that share
//! one entry into a single addressable unit.

use crate::entry::{entry_hash_of, Entry, EntryV};
use crate::hash::{HashV, HoloHash};
use crate::header::{header_hash_of, Header, HeaderV};
use vstd::prelude::*;

verus! {

/// Mathematical value of a [`SignedHeader`].
#[verifier::ext_equal]
pub ghost struct SignedHeaderV {
    pub header: HeaderV,
    pub signature: Seq<u8>,
}

/// A header together with its author's signature, as it travels on the
/// wire. Signature validation happens before data reaches this library; the
/// bytes are carried through untouched.
pub struct SignedHeader {
    /// The header.
    pub header: Header,
    /// The author's signature over the header.
    pub signature: Vec<u8>,
}

impl View for SignedHeader {
    type V = SignedHeaderV;

    open spec fn view(&self) -> SignedHeaderV {
        SignedHeaderV { header: self.header@, signature: self.signature@ }
    }
}

impl Clone for SignedHeader {
    fn clone(&self) -> (r: Self)
        ensures
            r@ == self@,
    {
        let r = SignedHeader {
            header: self.header.clone(),
            signature: crate::hash::clone_bytes(&self.signature),
        };
        proof {
            assert(r@ =~= self@);
        }
        r
    }
}

/// Mathematical value of a [`HeaderHashed`].
#[verifier::ext_equal]
pub ghost struct HeaderHashedV {
    pub header: HeaderV,
    pub hash: HashV,
}

impl HeaderHashedV {
    /// The carried address is the header's content address.
    pub open spec fn wf(self) -> bool {
        self.hash == header_hash_of(self.header) && self.header.wf()
    }
}

/// A header paired with its address, computed once at construction.
pub struct HeaderHashed {
    header: Header,
    hash: HoloHash,
}

impl View for HeaderHashed {
    type V = HeaderHashedV;

    closed spec fn view(&self) -> HeaderHashedV {
        HeaderHashedV { header: self.header@, hash: self.hash@ }
    }
}

impl Clone for HeaderHashed {
    fn clone(&self) -> (r: Self)
        ensures
            r@ == self@,
    {
        let r = HeaderHashed { header: self.header.clone(), hash: self.hash.clone() };
        proof {
            assert(r@ =~= self@);
        }
        r
    }
}

impl HeaderHashed {
    /// Hashes a header and pairs it with its address.
    pub fn from_content(header: Header) -> (r: HeaderHashed)
        requires
            header@.wf(),
        ensures
            r@.header == header@,
            r@.wf(),
    {
        let hash = crate::header::hash_header(&header);
        HeaderHashed { header, hash }
    }

    /// The header.
    pub fn header(&self) -> (r: &Header)
        ensures
            r@ == self@.header,
    {
        &self.header
    }

    /// The header's address.
    pub fn as_hash(&self) -> (r: &HoloHash)
        ensures
            r@ == self@.hash,
    {
        &self.hash
    }

    /// Unwraps the header, dropping the carried address.
    pub fn into_content(self) -> (r: Header)
        ensures
            r@ == self@.header,
    {
        self.header
    }
}

/// Mathematical value of a [`SignedHeaderHashed`].
#[verifier::ext_equal]
pub ghost struct SignedHeaderHashedV {
    pub header: HeaderV,
    pub hash: HashV,
    pub signature: Seq<u8>,
}

impl SignedHeaderHashedV {
    /// The carried address is the header's content address.
    pub open spec fn wf(self) -> bool {
        self.hash == header_hash_of(self.header) && self.header.wf()
    }
}

/// A signed header paired with its address.
pub struct SignedHeaderHashed {
    hashed: HeaderHashed,
    signature: Vec<u8>,
}

impl View for SignedHeaderHashed {
    type V = SignedHeaderHashedV;

    closed spec fn view(&self) -> SignedHeaderHashedV {
        SignedHeaderHashedV {
            header: self.hashed@.header,
            hash: self.hashed@.hash,
            signature: self.signature@,
        }
    }
}

impl Clone for SignedHeaderHashed {
    fn clone(&self) -> (r: Self)
        ensures
            r@ == self@,
    {
        let r = SignedHeaderHashed {
            hashed: self.hashed.clone(),
            signature: crate::hash::clone_bytes(&self.signature),
        };
        proof {
            assert(r@ =~= self@);
        }
        r
    }
}

impl SignedHeaderHashed {
    /// Hashes the header of a signed header and pairs both with the
    /// address.
    pub fn from_content_sync(sh: SignedHeader) -> (r: SignedHeaderHashed)
        requires
            sh@.header.wf(),
        ensures
            r@.header == sh@.header,
            r@.signature == sh@.signature,
            r@.wf(),
    {
        let SignedHeader { header, signature } = sh;
        SignedHeaderHashed { hashed: HeaderHashed::from_content(header), signature }
    }

    /// The header.
    pub fn header(&self) -> (r: &Header)
        ensures
            r@ == self@.header,
    {
        self.hashed.header()
    }

    /// The header's address.
    pub fn header_address(&self) -> (r: &HoloHash)
        ensures
            r@ == self@.hash,
    {
        self.hashed.as_hash()
    }

    /// The signature bytes.
    pub fn signature(&self) -> (r: &Vec<u8>)
        ensures
            r@ == self@.signature,
    {
        &self.signature
    }

    /// Splits into the hashed header and the signature.
    pub fn into_header_and_signature(self) -> (r: (HeaderHashed, Vec<u8>))
        ensures
            r.0@.header == self@.header,
            r.0@.hash == self@.hash,
            r.1@ == self@.signature,
    {
        (self.hashed, self.signature)
    }
}

/// Mathematical value of an [`Element`].
#[verifier::ext_equal]
pub ghost struct ElementV {
    pub header: HeaderV,
    pub hash: HashV,
    pub signature: Seq<u8>,
    pub entry: Option<EntryV>,
}

impl ElementV {
    /// A well-formed element: the address matches the header, and an entry
    /// is present only under a new-entry header whose entry address matches
    /// the entry's own hash.
    pub open spec fn wf(self) -> bool {
        &&& self.hash == header_hash_of(self.header)
        &&& self.header.wf()
        &&& match self.entry {
            Some(e) => {
                &&& e.wf()
                &&& self.header.entry_data() matches Some(d) && d.0 == entry_hash_of(e)
            },
            None => true,
        }
    }
}

/// A signed header plus the committed entry, when held. The atomic unit of
/// chain data handed back to callers.
pub struct Element {
    signed_header: SignedHeaderHashed,
    entry: Option<Entry>,
}

impl View for Element {
    type V = ElementV;

    closed spec fn view(&self) -> ElementV {
        ElementV {
            header: self.signed_header@.header,
            hash: self.signed_header@.hash,
            signature: self.signed_header@.signature,
            entry: match self.entry {
                Some(e) => Some(e@),
                None => None,
            },
        }
    }
}

impl Clone for Element {
    fn clone(&self) -> (r: Self)
        ensures
            r@ == self@,
    {
        let entry = match &self.entry {
            Some(e) => Some(e.clone()),
            None => None,
        };
        let r = Element { signed_header: self.signed_header.clone(), entry };
        proof {
            assert(r@ =~= self@);
        }
        r
    }
}

impl Element {
    /// Pairs a signed header with the entry it committed, if held.
    pub fn new(signed_header: SignedHeaderHashed, entry: Option<Entry>) -> (r: Element)
        ensures
            r@.header == signed_header@.header,
            r@.hash == signed_header@.hash,
            r@.signature == signed_header@.signature,
            r@.entry == match entry {
                Some(e) => Some(e@),
                None => None::<EntryV>,
            },
    {
        Element { signed_header, entry }
    }

    /// The address of this element's header.
    pub fn header_address(&self) -> (r: &HoloHash)
        ensures
            r@ == self@.hash,
    {
        self.signed_header.header_address()
    }

    /// The header.
    pub fn header(&self) -> (r: &Header)
        ensures
            r@ == self@.header,
    {
        self.signed_header.header()
    }

    /// The committed entry, when held.
    pub fn entry(&self) -> (r: Option<&Entry>)
        ensures
            match self@.entry {
                Some(e) => r matches Some(x) && x@ == e,
                None => r is None,
            },
    {
        match &self.entry {
            Some(e) => Some(e),
            None => None,
        }
    }

    /// Splits into the signed header and the entry.
    pub fn into_inner(self) -> (r: (SignedHeaderHashed, Option<Entry>))
        ensures
            r.0@.header == self@.header,
            r.0@.hash == self@.hash,
            r.0@.signature == self@.signature,
            match self@.entry {
                Some(e) => r.1 matches Some(x) && x@ == e,
                None => r.1 is None,
            },
    {
        (self.signed_header, self.entry)
    }
}

/// Whether a header commits entry data at the given entry address.
pub open spec fn header_commits_entry(h: HeaderV, entry_hash: HashV) -> bool {
    h.wf() && (h.entry_data() matches Some(d) && d.0 == entry_hash)
}

/// Whether a sequence of hashed signed headers contains one at the given
/// address.
pub open spec fn group_has_hash(headers: Seq<SignedHeaderHashedV>, hash: HashV) -> bool {
    exists|i: int| 0 <= i < headers.len() && headers[i].hash == hash
}

/// Mathematical value of an [`ElementGroup`].
#[verifier::ext_equal]
pub ghost struct ElementGroupV {
    pub headers: Seq<SignedHeaderHashedV>,
    pub entry: EntryHashedV,
}

impl ElementGroupV {
    /// A well-formed group: one hashed entry, and distinct new-entry
    /// headers that all commit exactly that entry.
    pub open spec fn wf(self) -> bool {
        &&& self.entry.wf()
        &&& forall|i: int| 0 <= i < self.headers.len() ==> (#[trigger] self.headers[i]).wf()
            && header_commits_entry(self.headers[i].header, self.entry.hash)
        &&& forall|i: int, j: int| 0 <= i < j < self.headers.len() ==> (#[trigger] self.headers[i]).hash != (
        #[trigger] self.headers[j]).hash
    }
}

/// The hashed-and-signed value a kept wire header contributes to a group.
pub open spec fn shh_of_wire(sh: SignedHeaderV) -> SignedHeaderHashedV {
    SignedHeaderHashedV {
        header: sh.header,
        hash: header_hash_of(sh.header),
        signature: sh.signature,
    }
}

/// The headers a group assembles from a wire prefix of length `j`: kept are
/// the well-formed new-entry headers for the entry at `eh`, deduplicated by
/// header hash, in arrival order.
pub open spec fn group_fold(live: Seq<SignedHeaderV>, j: int, eh: HashV) -> Seq<
    SignedHeaderHashedV,
>
    decreases j,
{
    if j <= 0 {
        Seq::empty()
    } else {
        let prev = group_fold(live, j - 1, eh);
        let sh = live[j - 1];
        if header_commits_entry(sh.header, eh) && !group_has_hash(
            prev,
            header_hash_of(sh.header),
        ) {
            prev.push(shh_of_wire(sh))
        } else {
            prev
        }
    }
}

/// Every header a group keeps is well-formed, commits the group's entry,
/// and appears under a distinct hash.
pub proof fn lemma_group_fold_wf(live: Seq<SignedHeaderV>, j: int, eh: HashV)
    ensures
        forall|i: int|
            0 <= i < group_fold(live, j, eh).len() ==> (#[trigger] group_fold(live, j, eh)[i]).wf()
                && header_commits_entry(group_fold(live, j, eh)[i].header, eh),
        forall|i1: int, i2: int|
            0 <= i1 < i2 < group_fold(live, j, eh).len() ==> group_fold(live, j, eh)[i1].hash
                != group_fold(live, j, eh)[i2].hash,
    decreases j,
{
    if j > 0 {
        lemma_group_fold_wf(live, j - 1, eh);
    }
}

/// Every well-formed wire header for the entry is represented in the group.
pub proof fn lemma_group_fold_complete(live: Seq<SignedHeaderV>, j: int, eh: HashV, k: int)
    requires
        0 <= k < j,
        header_commits_entry(live[k].header, eh),
    ensures
        group_has_hash(group_fold(live, j, eh), header_hash_of(live[k].header)),
    decreases j,
{
    if k == j - 1 {
        if !group_has_hash(group_fold(live, j - 1, eh), header_hash_of(live[k].header)) {
            assert(group_fold(live, j, eh)[group_fold(live, j - 1, eh).len() as int]
                == shh_of_wire(live[k]));
        }
    } else {
        lemma_group_fold_complete(live, j - 1, eh, k);
        let prev = group_fold(live, j - 1, eh);
        let cur = group_fold(live, j, eh);
        let h = header_hash_of(live[k].header);
        let i = choose|i: int| 0 <= i < prev.len() && prev[i].hash == h;
        assert(cur[i].hash == h);
    }
}

/// Every header a group keeps came from the wire.
pub proof fn lemma_group_fold_sound(live: Seq<SignedHeaderV>, j: int, eh: HashV)
    ensures
        forall|i: int|
            0 <= i < group_fold(live, j, eh).len() ==> exists|k: int|
                0 <= k < j && #[trigger] group_fold(live, j, eh)[i] == shh_of_wire(live[k]),
    decreases j,
{
    if j > 0 {
        lemma_group_fold_sound(live, j - 1, eh);
        let prev = group_fold(live, j - 1, eh);
        let cur = group_fold(live, j, eh);
        assert forall|i: int| 0 <= i < cur.len() implies exists|k: int|
            0 <= k < j && #[trigger] cur[i] == shh_of_wire(live[k]) by {
            if i < prev.len() {
                let k = choose|k: int| 0 <= k < j - 1 && prev[i] == shh_of_wire(live[k]);
                assert(cur[i] == shh_of_wire(live[k]));
            } else {
                assert(cur[i] == shh_of_wire(live[j - 1]));
            }
        }
    }
}

/// The view of a vector of signed, hashed headers.
pub open spec fn shh_views(s: Seq<SignedHeaderHashed>) -> Seq<SignedHeaderHashedV> {
    Seq::new(s.len(), |i: int| s[i]@)
}

/// The view of a vector of wire headers.
pub open spec fn sh_views(s: Seq<SignedHeader>) -> Seq<SignedHeaderV> {
    Seq::new(s.len(), |i: int| s[i]@)
}

/// Whether a vector of hashed signed headers contains the given address.
pub fn contains_header_hash(headers: &Vec<SignedHeaderHashed>, h: &HoloHash) -> (r: bool)
    ensures
        r == group_has_hash(shh_views(headers@), h@),
{
    let mut i: usize = 0;
    while i < headers.len()
        invariant
            i <= headers@.len(),
            forall|i2: int| 0 <= i2 < i ==> (#[trigger] headers@[i2])@.hash != h@,
        decreases headers@.len() - i,
    {
        if headers[i].header_address().same(h) {
            proof {
                assert(shh_views(headers@)[i as int].hash == h@);
            }
            return true;
        }
        i += 1;
    }
    proof {
        if group_has_hash(shh_views(headers@), h@) {
            let i2 = choose|i2: int|
                0 <= i2 < shh_views(headers@).len() && shh_views(headers@)[i2].hash == h@;
            assert(headers@[i2]@.hash == h@);
        }
    }
    false
}

/// Several concurrent new-entry headers sharing one entry, assembled from
/// wire data into a single addressable unit and deduplicated by header
/// hash.
pub struct ElementGroup {
    headers: Vec<SignedHeaderHashed>,
    entry: EntryHashed,
}

impl View for ElementGroup {
    type V = ElementGroupV;

    closed spec fn view(&self) -> ElementGroupV {
        ElementGroupV { headers: shh_views(self.headers@), entry: self.entry@ }
    }
}

impl ElementGroup {
    /// Assembles a group from headers and an entry received on the wire.
    /// Hashes the entry and every header locally; wire headers that are not
    /// well-formed new-entry headers for exactly this entry are dropped,
    /// and duplicates (by header hash) are kept once.
    pub fn from_wire_elements(live_headers: Vec<SignedHeader>, entry: Entry) -> (r: ElementGroup)
        requires
            entry@.wf(),
        ensures
            r@.entry.entry == entry@,
            r@.entry.hash == entry_hash_of(entry@),
            r@.entry.wf(),
            r@.headers == group_fold(
                sh_views(live_headers@),
                live_headers@.len() as int,
                entry_hash_of(entry@),
            ),
            r@.wf(),
    {
        let entry_hashed = EntryHashed::from_content(entry);
        let ghost live = sh_views(live_headers@);
        let ghost eh = entry_hashed@.hash;
        let mut headers: Vec<SignedHeaderHashed> = Vec::new();
        let mut j: usize = 0;
        while j < live_headers.len()
            invariant
                j <= live_headers@.len(),
                entry_hashed@.wf(),
                live == sh_views(live_headers@),
                eh == entry_hashed@.hash,
                shh_views(headers@) == group_fold(live, j as int, eh),
            decreases live_headers@.len() - j,
        {
            let ghost before = shh_views(headers@);
            let sh = &live_headers[j];
            let keep = sh.header.wf_check() && match sh.header.entry_hash() {
                Some(h) => h.same(entry_hashed.as_hash()),
                None => false,
            };
            proof {
                assert(keep == header_commits_entry(live[j as int].header, eh));
            }
            if keep {
                if !contains_header_hash(&headers, &crate::header::hash_header(&sh.header)) {
                    let shh = SignedHeaderHashed::from_content_sync(sh.clone());
                    headers.push(shh);
                    proof {
                        assert(shh_views(headers@) =~= before.push(shh_of_wire(live[j as int])));
                    }
                }
            }
            proof {
                assert(shh_views(headers@) =~= group_fold(live, j + 1, eh));
            }
            j += 1;
        }
        let r = ElementGroup { headers, entry: entry_hashed };
        proof {
            lemma_group_fold_wf(live, live.len() as int, eh);
            assert(r@.wf());
        }
        r
    }

    /// The address of the shared entry.
    pub fn entry_hash(&self) -> (r: &HoloHash)
        ensures
            r@ == self@.entry.hash,
    {
        self.entry.as_hash()
    }

    /// The hashed entry.
    pub fn entry_hashed(&self) -> (r: &EntryHashed)
        ensures
            r@ == self@.entry,
    {
        &self.entry
    }

    /// The headers of the group.
    pub fn headers(&self) -> (r: &Vec<SignedHeaderHashed>)
        ensures
            r@.len() == self@.headers.len(),
            forall|i: int| 0 <= i < r@.len() ==> (#[trigger] r@[i])@ == self@.headers[i],
    {
        &self.headers
    }

    /// Splits the group into its headers and its entry.
    pub fn into_inner(self) -> (r: (Vec<SignedHeaderHashed>, EntryHashed))
        ensures
            r.0@.len() == self@.headers.len(),
            forall|i: int| 0 <= i < r.0@.len() ==> (#[trigger] r.0@[i])@ == self@.headers[i],
            r.1@ == self@.entry,
    {
        (self.headers, self.entry)
    }
}

/// Mathematical value of an [`EntryHashed`].
#[verifier::ext_equal]
pub ghost struct EntryHashedV {
    pub entry: EntryV,
    pub hash: HashV,
}

impl EntryHashedV {
    /// The carried address is the entry's content address.
    pub open spec fn wf(self) -> bool {
        self.hash == entry_hash_of(self.entry) && self.entry.wf()
    }
}

/// An entry paired with its address, computed once at construction.
pub struct EntryHashed {
    entry: Entry,
    hash: HoloHash,
}

impl View for EntryHashed {
    type V = EntryHashedV;

    closed spec fn view(&self) -> EntryHashedV {
        EntryHashedV { entry: self.entry@, hash: self.hash@ }
    }
}

impl Clone for EntryHashed {
    fn clone(&self) -> (r: Self)
        ensures
            r@ == self@,
    {
        let r = EntryHashed { entry: self.entry.clone(), hash: self.hash.clone() };
        proof {
            assert(r@ =~= self@);
        }
        r
    }
}

impl EntryHashed {
    /// Hashes an entry and pairs it with its address.
    pub fn from_content(entry: Entry) -> (r: EntryHashed)
        requires
            entry@.wf(),
        ensures
            r@.entry == entry@,
            r@.wf(),
    {
        let hash = crate::entry::hash_entry(&entry);
        EntryHashed { entry, hash }
    }

    /// The entry's address.
    pub fn as_hash(&self) -> (r: &HoloHash)
        ensures
            r@ == self@.hash,
    {
        &self.hash
    }

    /// The entry.
    pub fn entry(&self) -> (r: &Entry)
        ensures
            r@ == self@.entry,
    {
        &self.entry
    }

    /// Unwraps the entry, dropping the carried address.
    pub fn into_content(self) -> (r: Entry)
        ensures
            r@ == self@.entry,
    {
        self.entry
    }
}

} // verus!
