//! The ways in which acquiring a handle fails.

use vstd::prelude::*;

verus! {

/// Why a handle could not be had. `E` is the error of the connection to the
/// node, which is handed on as it came.
#[derive(Debug)]
pub enum DeployError<E> {
    /// The artifact records no deployment on the network with this
    /// identifier.
    NotFound(String),
    /// The arguments could not be encoded for the constructor.
    AbiMismatch(ethabi::Error),
    /// A request to the node failed.
    TransportFailure(E),
    /// The code still holds the placeholder of a library that was not
    /// linked in.
    UnresolvedLibraryPlaceholder,
}

} // verus!
