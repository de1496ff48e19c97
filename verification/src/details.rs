//! The full CRUD view of an address, for callers who need every header,
//! delete and update rather than the single live answer.

use crate::element::{Element, ElementV};
use crate::entry::{Entry, EntryV};
use crate::header::{Delete, DeleteV, Header, HeaderV, Update, UpdateV};
use crate::metadata::EntryDhtStatus;
use vstd::prelude::*;

verus! {

/// Mathematical value of an [`EntryDetails`].
#[verifier::ext_equal]
pub ghost struct EntryDetailsV {
    pub entry: EntryV,
    pub headers: Seq<HeaderV>,
    pub deletes: Seq<DeleteV>,
    pub updates: Seq<UpdateV>,
    pub entry_dht_status: EntryDhtStatus,
}

/// The full CRUD view of an entry: its bytes, every locally resolvable
/// new-entry header, delete and update known against it, and its derived
/// status.
pub struct EntryDetails {
    /// The entry bytes.
    pub entry: Entry,
    /// The locally resolvable new-entry headers for the entry.
    pub headers: Vec<Header>,
    /// The locally resolvable deletes registered against the entry.
    pub deletes: Vec<Delete>,
    /// The locally resolvable updates registered against the entry.
    pub updates: Vec<Update>,
    /// The derived CRUD status.
    pub entry_dht_status: EntryDhtStatus,
}

/// The view of a vector of headers.
pub open spec fn header_views(s: Seq<Header>) -> Seq<HeaderV> {
    Seq::new(s.len(), |i: int| s[i]@)
}

/// The view of a vector of deletes.
pub open spec fn delete_views(s: Seq<Delete>) -> Seq<DeleteV> {
    Seq::new(s.len(), |i: int| s[i]@)
}

/// The view of a vector of updates.
pub open spec fn update_views(s: Seq<Update>) -> Seq<UpdateV> {
    Seq::new(s.len(), |i: int| s[i]@)
}

impl View for EntryDetails {
    type V = EntryDetailsV;

    open spec fn view(&self) -> EntryDetailsV {
        EntryDetailsV {
            entry: self.entry@,
            headers: header_views(self.headers@),
            deletes: delete_views(self.deletes@),
            updates: update_views(self.updates@),
            entry_dht_status: self.entry_dht_status,
        }
    }
}

/// Mathematical value of an [`ElementDetails`].
#[verifier::ext_equal]
pub ghost struct ElementDetailsV {
    pub element: ElementV,
    pub deletes: Seq<DeleteV>,
}

/// The full CRUD view of a header: its element and every locally
/// resolvable delete known against it.
pub struct ElementDetails {
    /// The element under the header.
    pub element: Element,
    /// The locally resolvable deletes registered against the header.
    pub deletes: Vec<Delete>,
}

impl View for ElementDetails {
    type V = ElementDetailsV;

    open spec fn view(&self) -> ElementDetailsV {
        ElementDetailsV { element: self.element@, deletes: delete_views(self.deletes@) }
    }
}

/// The full CRUD view of an address: entry-level or header-level,
/// depending on the role the address carries.
pub enum Details {
    /// The view of an entry address.
    Entry(EntryDetails),
    /// The view of a header address.
    Element(ElementDetails),
}

/// Mathematical value of a [`Details`].
#[verifier::ext_equal]
pub ghost enum DetailsV {
    Entry(EntryDetailsV),
    Element(ElementDetailsV),
}

impl View for Details {
    type V = DetailsV;

    open spec fn view(&self) -> DetailsV {
        match self {
            Details::Entry(d) => DetailsV::Entry(d@),
            Details::Element(d) => DetailsV::Element(d@),
        }
    }
}

} // verus!
