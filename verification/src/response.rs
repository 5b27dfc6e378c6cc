//! The envelope the transport layer returns for failures and bare
//! confirmations.

use vstd::prelude::*;

verus! {

/// A response envelope with no data payload: a status marker
/// (`success` or `fail`) and a human-readable message.
#[derive(Debug, Clone)]
pub struct GenericResponse {
    pub status: String,
    pub message: String,
}

} // verus!
