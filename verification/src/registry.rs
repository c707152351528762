//! Credentials, the proofs of holding them, and the registry that keeps
//! their data.

use vstd::prelude::*;
use crate::amount::Amount;
use crate::capability::CapabilityToken;
use crate::error::LedgerError;
use crate::identity::Identity;
use crate::model::CredentialView;

verus! {

/// A membership credential.
///
/// A credential is made only by [`CredentialRegistry::mint`] and can be
/// neither copied nor cloned: whoever holds the value is the member. Its
/// registry and its id never change.
#[derive(Debug)]
pub struct Credential {
    registry: Identity,
    id: u128,
}

impl View for Credential {
    type V = CredentialView;

    closed spec fn view(&self) -> CredentialView {
        CredentialView { registry: self.registry, id: self.id as nat }
    }
}

impl Credential {
    /// The identity of the registry that issued the credential.
    pub fn registry(&self) -> (registry: Identity)
        ensures
            registry == self@.registry,
    {
        self.registry
    }

    /// The id of the credential within its registry.
    pub fn id(&self) -> (id: u128)
        ensures
            id == self@.id,
    {
        self.id
    }

    /// A proof of holding this credential, to present with an operation. The
    /// proof borrows the credential, which therefore stays where it is for
    /// as long as the proof is in use.
    pub fn create_proof(&self) -> (presented: CredentialProof<'_>)
        ensures
            presented@ == self@,
    {
        CredentialProof { credential: self }
    }
}

/// A proof of holding a credential, as a caller presents it. Nothing is
/// known of the credential behind it until the proof is validated.
#[derive(Debug)]
pub struct CredentialProof<'a> {
    credential: &'a Credential,
}

impl<'a> View for CredentialProof<'a> {
    type V = CredentialView;

    /// The credential behind the proof.
    closed spec fn view(&self) -> CredentialView {
        self.credential@
    }
}

impl<'a> CredentialProof<'a> {
    /// Checks the proof against the registry identity `schema`. A proof of a
    /// credential of that registry is returned as validated; any other is
    /// refused.
    pub fn validate(self, schema: Identity) -> (checked: Result<ValidatedProof<'a>, LedgerError>)
        ensures
            match checked {
                Ok(validated) => self@.registry == schema && validated@ == self@,
                Err(error) => self@.registry != schema && error == LedgerError::InvalidProof,
            },
    {
        if self.credential.registry == schema {
            Ok(ValidatedProof { credential: self.credential })
        } else {
            Err(LedgerError::InvalidProof)
        }
    }
}

/// A proof that was checked against a registry identity and found to be of
/// a credential of that registry.
#[derive(Debug)]
pub struct ValidatedProof<'a> {
    credential: &'a Credential,
}

impl<'a> View for ValidatedProof<'a> {
    type V = CredentialView;

    /// The credential behind the proof.
    closed spec fn view(&self) -> CredentialView {
        self.credential@
    }
}

impl<'a> ValidatedProof<'a> {
    /// The id of the credential behind the proof.
    pub fn id(&self) -> (id: u128)
        ensures
            id == self@.id,
    {
        self.credential.id
    }
}

/// The data that a registry keeps for one credential.
#[derive(Clone, Copy, PartialEq, Eq, Structural, Debug)]
pub struct MemberData {
    /// What the holder has staked and not withdrawn.
    pub amount_staked: Amount,
}

impl MemberData {
    /// The data of a new member: nothing staked.
    pub fn new() -> (data: MemberData)
        ensures
            data.amount_staked@ == 0,
    {
        MemberData { amount_staked: Amount::zero() }
    }

    /// The data after `amount` more was staked, or `None` where the sum
    /// cannot be represented.
    pub fn stake(self, amount: Amount) -> (next: Option<MemberData>)
        ensures
            match next {
                Some(data) => data.amount_staked@ == self.amount_staked@ + amount@,
                None => self.amount_staked@ + amount@ > u128::MAX,
            },
    {
        match self.amount_staked.checked_add(amount) {
            Some(amount_staked) => Some(MemberData { amount_staked }),
            None => None,
        }
    }

    /// The amount to pay out when the whole stake is withdrawn, and the data
    /// that is left: nothing staked.
    pub fn withdraw(self) -> (settled: (Amount, MemberData))
        ensures
            settled.0@ == self.amount_staked@,
            settled.1.amount_staked@ == 0,
    {
        (self.amount_staked, MemberData::new())
    }
}

/// The store of credential data of one ledger.
///
/// Anyone may read. Minting a credential and updating its data take a proof
/// of the capability that the registry is gated on.
#[derive(Debug)]
pub struct CredentialRegistry {
    schema: Identity,
    gate: Identity,
    records: Vec<MemberData>,
}

impl CredentialRegistry {
    /// The identity of the registry, which its credentials carry.
    pub closed spec fn spec_schema(&self) -> Identity {
        self.schema
    }

    /// The identity of the capability token that opens the registry.
    pub closed spec fn gate(&self) -> Identity {
        self.gate
    }

    /// The amount staked on each credential issued so far; a credential's id
    /// is its index.
    pub closed spec fn stakes(&self) -> Seq<nat> {
        Seq::new(self.records@.len(), |id: int| self.records@[id].amount_staked@)
    }

    /// Whether the registry has issued a credential with this id.
    pub open spec fn issued(&self, id: nat) -> bool {
        id < self.stakes().len()
    }

    /// A registry of identity `schema` with no credentials, gated on the
    /// capability token of identity `gate`.
    pub fn new(schema: Identity, gate: Identity) -> (registry: CredentialRegistry)
        ensures
            registry.schema() == schema,
            registry.gate() == gate,
            registry.stakes() == Seq::<nat>::empty(),
    {
        CredentialRegistry { schema, gate, records: Vec::new() }
    }

    /// The identity of the registry.
    #[verifier::when_used_as_spec(spec_schema)]
    pub fn schema(&self) -> (schema: Identity)
        ensures
            schema == self.spec_schema(),
    {
        self.schema
    }

    /// The data kept for credential `id`, if the registry has issued it.
    pub fn data(&self, id: u128) -> (found: Option<MemberData>)
        ensures
            match found {
                Some(data) => self.issued(id as nat) && data.amount_staked@ == self.stakes()[id as int],
                None => !self.issued(id as nat),
            },
    {
        if id < self.records.len() as u128 {
            Some(self.records[id as usize])
        } else {
            None
        }
    }

    /// Issues a credential with a new id and stores `data` for it.
    ///
    /// The new id is the number of credentials issued before, so no id is
    /// issued twice. Without the capability nothing is issued.
    pub fn mint(&mut self, authority: &CapabilityToken, data: MemberData) -> (minted: Result<
        Credential,
        LedgerError,
    >)
        ensures
            final(self).schema() == old(self).schema(),
            final(self).gate() == old(self).gate(),
            match minted {
                Ok(credential) => {
                    &&& authority.identity() == old(self).gate()
                    &&& credential@.registry == old(self).schema()
                    &&& credential@.id == old(self).stakes().len()
                    &&& final(self).stakes() == old(self).stakes().push(data.amount_staked@)
                },
                Err(error) => {
                    &&& authority.identity() != old(self).gate()
                    &&& error == LedgerError::Unauthorized
                    &&& *final(self) == *old(self)
                },
            },
    {
        if authority.identity() != self.gate {
            return Err(LedgerError::Unauthorized);
        }
        let id: u128 = self.records.len() as u128;
        self.records.push(data);
        assert(self.stakes() =~= old(self).stakes().push(data.amount_staked@));
        Ok(Credential { registry: self.schema, id })
    }

    /// Sets the amount staked on credential `id` to `value`.
    ///
    /// Without the capability, or for an id that was never issued, nothing
    /// changes.
    pub fn update(&mut self, authority: &CapabilityToken, id: u128, value: Amount) -> (updated:
        Result<(), LedgerError>)
        ensures
            final(self).schema() == old(self).schema(),
            final(self).gate() == old(self).gate(),
            match updated {
                Ok(()) => {
                    &&& authority.identity() == old(self).gate()
                    &&& old(self).issued(id as nat)
                    &&& final(self).stakes() == old(self).stakes().update(id as int, value@)
                },
                Err(error) => {
                    &&& *final(self) == *old(self)
                    &&& if authority.identity() != old(self).gate() {
                        error == LedgerError::Unauthorized
                    } else {
                        !old(self).issued(id as nat) && error == LedgerError::UnknownCredential
                    }
                },
            },
    {
        if authority.identity() != self.gate {
            return Err(LedgerError::Unauthorized);
        }
        if id >= self.records.len() as u128 {
            return Err(LedgerError::UnknownCredential);
        }
        self.records.set(id as usize, MemberData { amount_staked: value });
        assert(self.stakes() =~= old(self).stakes().update(id as int, value@));
        Ok(())
    }
}

} // verus!
