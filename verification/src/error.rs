//! Errors a cascade read can surface.

use crate::net::TransportError;
use vstd::prelude::*;

verus! {

/// Why a cascade read failed. "Not found" is never an error: it is a
/// successful `None` or empty result.
#[derive(Debug)]
pub enum CascadeError {
    /// The network could not be reached or answered outside the protocol.
    /// Always propagated, never treated as "not found".
    Transport(TransportError),
    /// A locally held header did not have the concrete type the read
    /// required (a delete where an update stood, or the like).
    Conversion,
}

/// Result type for cascade reads.
pub type CascadeResult<T> = Result<T, CascadeError>;

} // verus!
