//! Identities that tell one ledger's resources from another's.

use vstd::prelude::*;

verus! {

/// The identity of a capability token or of a credential registry.
///
/// Identities are handed out by whoever hosts the ledgers, and two resources
/// are the same exactly when their identities are equal: a host that runs
/// several ledgers gives each of them identities of its own.
#[derive(Clone, Copy, PartialEq, Eq, Structural, Debug)]
pub struct Identity {
    pub value: u64,
}

} // verus!
