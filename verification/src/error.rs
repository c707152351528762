//! The ways an operation can be refused.

use vstd::prelude::*;

verus! {

/// Why an operation was refused. A refused operation changes nothing.
#[derive(Clone, Copy, PartialEq, Eq, Structural, Debug)]
pub enum LedgerError {
    /// The presented credential proof belongs to another registry.
    InvalidProof,
    /// A mint or an update was attempted without the registry's capability.
    Unauthorized,
    /// An update or a read named a credential the registry never issued.
    UnknownCredential,
    /// More was asked of a holding than it contains.
    InsufficientFunds,
}

} // verus!
