//! Requests the peer-to-peer layer hands to its embedder.
//!
//! The network actor cannot read stores or sign data itself; it emits
//! these events and the embedder answers them. Only the data shapes live
//! here — transport and dialing stay outside this library.

use crate::hash::{HashV, HoloHash};
use vstd::prelude::*;

verus! {

/// An arc of the DHT around a center location, measured in half-length.
#[derive(Clone, Copy, PartialEq, Eq, Structural, Debug)]
pub struct DhtArc {
    /// The center location of the arc.
    pub center_loc: u32,
    /// Half the arc's length.
    pub half_length: u32,
}

/// Gather a list of op addresses from the embedder that meet criteria.
pub struct FetchOpHashesForConstraintsEvt {
    /// The "space" context.
    pub space: HoloHash,
    /// The "agent" context.
    pub agent: HoloHash,
    /// The DHT arc to query.
    pub dht_arc: DhtArc,
    /// Only retrieve items received since this time (inclusive).
    pub since_utc_epoch_s: i64,
    /// Only retrieve items received until this time (exclusive).
    pub until_utc_epoch_s: i64,
}

/// Mathematical value of a [`FetchOpHashesForConstraintsEvt`].
#[verifier::ext_equal]
pub ghost struct FetchOpHashesForConstraintsEvtV {
    pub space: HashV,
    pub agent: HashV,
    pub dht_arc: DhtArc,
    pub since_utc_epoch_s: i64,
    pub until_utc_epoch_s: i64,
}

impl View for FetchOpHashesForConstraintsEvt {
    type V = FetchOpHashesForConstraintsEvtV;

    open spec fn view(&self) -> FetchOpHashesForConstraintsEvtV {
        FetchOpHashesForConstraintsEvtV {
            space: self.space@,
            agent: self.agent@,
            dht_arc: self.dht_arc,
            since_utc_epoch_s: self.since_utc_epoch_s,
            until_utc_epoch_s: self.until_utc_epoch_s,
        }
    }
}

/// Gather all op data for a list of op addresses from the embedder.
pub struct FetchOpHashDataEvt {
    /// The "space" context.
    pub space: HoloHash,
    /// The "agent" context.
    pub agent: HoloHash,
    /// The op addresses to fetch.
    pub op_hashes: Vec<HoloHash>,
}

/// Mathematical value of a [`FetchOpHashDataEvt`].
#[verifier::ext_equal]
pub ghost struct FetchOpHashDataEvtV {
    pub space: HashV,
    pub agent: HashV,
    pub op_hashes: Seq<HashV>,
}

impl View for FetchOpHashDataEvt {
    type V = FetchOpHashDataEvtV;

    open spec fn view(&self) -> FetchOpHashDataEvtV {
        FetchOpHashDataEvtV {
            space: self.space@,
            agent: self.agent@,
            op_hashes: Seq::new(self.op_hashes@.len(), |i: int| self.op_hashes@[i]@),
        }
    }
}

/// Request that the embedder sign some data on behalf of an agent.
pub struct SignNetworkDataEvt {
    /// The "space" context.
    pub space: HoloHash,
    /// The "agent" context.
    pub agent: HoloHash,
    /// The data to sign.
    pub data: Vec<u8>,
}

/// Mathematical value of a [`SignNetworkDataEvt`].
#[verifier::ext_equal]
pub ghost struct SignNetworkDataEvtV {
    pub space: HashV,
    pub agent: HashV,
    pub data: Seq<u8>,
}

impl View for SignNetworkDataEvt {
    type V = SignNetworkDataEvtV;

    open spec fn view(&self) -> SignNetworkDataEvtV {
        SignNetworkDataEvtV { space: self.space@, agent: self.agent@, data: self.data@ }
    }
}

} // verus!
