//! The authority under which credentials are minted and their data changed.

use vstd::prelude::*;
use crate::identity::Identity;

verus! {

/// The singleton authority of one ledger.
///
/// A token is made only by [`CapabilityVault::new`] and stays in the vault
/// that made it. It can be neither copied nor cloned, and code outside the
/// vault sees it only as a borrow that ends with one call of
/// [`CapabilityVault::authorize`].
#[derive(Debug)]
pub struct CapabilityToken {
    identity: Identity,
}

impl CapabilityToken {
    /// The identity that gates are set to.
    pub closed spec fn spec_identity(&self) -> Identity {
        self.identity
    }

    /// The identity that gates are set to.
    #[verifier::when_used_as_spec(spec_identity)]
    pub fn identity(&self) -> (identity: Identity)
        ensures
            identity == self.spec_identity(),
    {
        self.identity
    }
}

/// The keeper of a ledger's capability token.
#[derive(Debug)]
pub struct CapabilityVault {
    token: CapabilityToken,
}

impl CapabilityVault {
    /// The token that the vault keeps.
    pub closed spec fn token(&self) -> CapabilityToken {
        self.token
    }

    /// Mints the token of identity `identity` and locks it away.
    pub fn new(identity: Identity) -> (vault: CapabilityVault)
        ensures
            vault.token().identity() == identity,
    {
        CapabilityVault { token: CapabilityToken { identity } }
    }

    /// Runs `operation` on `subject` with a borrow of the token as proof of
    /// authority, and returns what it returns.
    ///
    /// The borrow ends when `operation` returns, so the proof is good for
    /// this one call and for nothing else. The operation runs on `subject` as
    /// it stands at the call, and what it leaves behind is what `subject`
    /// holds afterwards.
    pub fn authorize<S, R, F: FnOnce(&CapabilityToken, &mut S) -> R>(
        &self,
        subject: &mut S,
        operation: F,
    ) -> (outcome: R)
        requires
            forall|target: &mut S|
                *target == *old(subject) ==> operation.requires((&self.token(), target)),
        ensures
            exists|target: &mut S|
                *target == *old(subject) && *final(target) == *final(subject)
                    && operation.ensures((&self.token(), target), outcome),
    {
        operation(&self.token, subject)
    }
}

} // verus!
