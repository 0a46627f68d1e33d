//! Errors of the covenant library. Network failures belong to the caller
//! that drives the RPC collaborator; only encoding and derivation can fail
//! here.

use vstd::prelude::*;

verus! {

/// What can go wrong while building or spending a covenant.
#[derive(Clone, Copy, Debug, PartialEq, Eq, Structural)]
pub enum CtvError {
    /// A payload or script is too large for the encoding it must fit.
    Encoding,
    /// Taproot derivation failed: the script is not a leaf of the spend info,
    /// so creation and spend disagree on the script variant.
    Derivation,
}

} // verus!
