//! The staking ledger: membership, staking and withdrawal.

use vstd::prelude::*;
use crate::amount::Amount;
use crate::asset::AssetHandle;
use crate::asset::AssetPool;
use crate::capability::CapabilityToken;
use crate::capability::CapabilityVault;
use crate::error::LedgerError;
use crate::identity::Identity;
use crate::model::lemma_enroll_keeps_backing;
use crate::model::lemma_pool_covers_each_stake;
use crate::model::lemma_stake_keeps_backing;
use crate::model::lemma_withdraw_keeps_backing;
use crate::model::LedgerState;
use crate::registry::Credential;
use crate::registry::CredentialProof;
use crate::registry::CredentialRegistry;
use crate::registry::MemberData;

verus! {

/// A refused stake: the reason, and the asset that was offered, handed back
/// untouched.
#[derive(Debug)]
pub struct StakeRefusal {
    pub error: LedgerError,
    pub asset: AssetHandle,
}

/// A staking ledger.
///
/// The ledger owns a pool of the staked asset, a registry of the credentials
/// it has issued, and the capability token that alone opens the registry.
/// A caller reaches them only through the operations below, each of which
/// takes effect as a whole or not at all. No operation hands out the token,
/// the registry or the pool.
#[derive(Debug)]
pub struct Exercise1 {
    pool: AssetPool,
    vault: CapabilityVault,
    members: CredentialRegistry,
}

impl View for Exercise1 {
    type V = LedgerState;

    closed spec fn view(&self) -> LedgerState {
        LedgerState {
            capability: self.vault.token().identity(),
            schema: self.members.schema(),
            stakes: self.members.stakes(),
            balance: self.pool@,
        }
    }
}

impl Exercise1 {
    /// The ledger's registry is gated on the token in the ledger's vault.
    pub closed spec fn keyed(&self) -> bool {
        self.members.gate() == self.vault.token().identity()
    }

    /// The invariant of a ledger: it holds the key to its own registry, and
    /// its pool holds exactly what its credentials have staked.
    pub open spec fn wf(&self) -> bool {
        self.keyed() && self@.backed()
    }

    /// Sets up a ledger: mints the capability token of identity
    /// `capability`, creates the registry of identity `schema` gated on that
    /// token, and an empty pool.
    ///
    /// A credential is told from those of other ledgers by the identity of
    /// its registry alone, so each ledger is to be given identities that no
    /// other ledger has.
    pub fn instantiate_exercise(capability: Identity, schema: Identity) -> (ledger: Exercise1)
        ensures
            ledger.wf(),
            ledger@ == LedgerState::fresh(capability, schema),
    {
        Exercise1 {
            pool: AssetPool::new(),
            vault: CapabilityVault::new(capability),
            members: CredentialRegistry::new(schema, capability),
        }
    }

    /// The balance of the ledger's pool.
    pub fn pool_balance(&self) -> (balance: Amount)
        ensures
            balance@ == self@.balance,
    {
        self.pool.balance()
    }

    /// The amount staked on the presented credential: `InvalidProof` for a
    /// credential of another registry, `UnknownCredential` for an id this
    /// registry never issued.
    pub fn amount_staked(&self, member_proof: CredentialProof<'_>) -> (staked: Result<
        Amount,
        LedgerError,
    >)
        ensures
            match staked {
                Ok(amount) => {
                    &&& self@.recognises(member_proof@)
                    &&& amount@ == self@.staked(member_proof@.id)
                },
                Err(error) => {
                    &&& !self@.recognises(member_proof@)
                    &&& error == self@.refusal(member_proof@)
                },
            },
    {
        match self.member(member_proof) {
            Ok((_, member_data)) => Ok(member_data.amount_staked),
            Err(error) => Err(error),
        }
    }

    /// Admits a new member: mints a credential with nothing staked and hands
    /// it to the caller, who alone holds it from then on.
    ///
    /// The credential's id is one the ledger has not issued before.
    pub fn become_member(&mut self) -> (credential: Credential)
        requires
            old(self).wf(),
        ensures
            final(self).wf(),
            final(self)@ == old(self)@.enroll(),
            credential@.registry == old(self)@.schema,
            credential@.id == old(self)@.next_id(),
            !old(self)@.issued(credential@.id),
            final(self)@.issued(credential@.id),
    {
        let data = MemberData::new();
        let minted = self.vault.authorize(
            &mut self.members,
            |authority: &CapabilityToken, registry: &mut CredentialRegistry| -> (minted: Result<
                Credential,
                LedgerError,
            >)
                requires
                    authority.identity() == registry.gate(),
                ensures
                    final(registry).schema() == old(registry).schema(),
                    final(registry).gate() == old(registry).gate(),
                    final(registry).stakes() == old(registry).stakes().push(0),
                    minted matches Ok(credential) && credential@.registry == old(registry).schema()
                        && credential@.id == old(registry).stakes().len(),
                {
                    registry.mint(authority, data)
                }
        );
        proof {
            lemma_enroll_keeps_backing(old(self)@);
        }
        match minted {
            Ok(credential) => credential,
            Err(_) => unreached(),
        }
    }

    /// Stakes `asset` on the presented credential.
    ///
    /// Where the ledger recognises the credential, the asset goes into the
    /// pool and the amount staked on the credential rises by the asset's
    /// amount. Otherwise the ledger is left as it was and the asset is handed
    /// back with the reason: `InvalidProof` for a credential of another
    /// registry, `UnknownCredential` for an id this registry never issued.
    ///
    /// The pool must have room for the asset.
    pub fn stake_xrd(&mut self, asset: AssetHandle, member_proof: CredentialProof<'_>) -> (staked:
        Result<(), StakeRefusal>)
        requires
            old(self).wf(),
            old(self)@.balance + asset@ <= u128::MAX,
        ensures
            final(self).wf(),
            match staked {
                Ok(()) => {
                    &&& old(self)@.recognises(member_proof@)
                    &&& final(self)@ == old(self)@.stake(member_proof@.id, asset@)
                },
                Err(refusal) => {
                    &&& !old(self)@.recognises(member_proof@)
                    &&& refusal.error == old(self)@.refusal(member_proof@)
                    &&& refusal.asset@ == asset@
                    &&& *final(self) == *old(self)
                },
            },
    {
        let (id, member_data) = match self.member(member_proof) {
            Ok(found) => found,
            Err(error) => {
                return Err(StakeRefusal { error, asset });
            },
        };
        let amount = asset.amount();
        proof {
            lemma_pool_covers_each_stake(self@, id as nat);
            lemma_stake_keeps_backing(self@, id as nat, amount@);
        }
        self.pool.deposit(asset);
        let new_stake = match member_data.stake(amount) {
            Some(raised) => raised.amount_staked,
            None => unreached(),
        };
        self.set_stake(id, new_stake);
        Ok(())
    }

    /// Pays out the whole stake of the presented credential.
    ///
    /// Where the ledger recognises the credential, the amount staked on it is
    /// set to zero and exactly the amount that was staked leaves the pool in
    /// the returned handle; a credential with nothing staked gets an empty
    /// handle. Otherwise the ledger is left as it was: `InvalidProof` for a
    /// credential of another registry, `UnknownCredential` for an id this
    /// registry never issued.
    pub fn withdraw(&mut self, member_proof: CredentialProof<'_>) -> (paid: Result<
        AssetHandle,
        LedgerError,
    >)
        requires
            old(self).wf(),
        ensures
            final(self).wf(),
            match paid {
                Ok(asset) => {
                    &&& old(self)@.recognises(member_proof@)
                    &&& asset@ == old(self)@.staked(member_proof@.id)
                    &&& final(self)@ == old(self)@.withdraw(member_proof@.id)
                    &&& final(self)@.staked(member_proof@.id) == 0
                },
                Err(error) => {
                    &&& !old(self)@.recognises(member_proof@)
                    &&& error == old(self)@.refusal(member_proof@)
                    &&& *final(self) == *old(self)
                },
            },
    {
        let (id, member_data) = match self.member(member_proof) {
            Ok(found) => found,
            Err(error) => {
                return Err(error);
            },
        };
        let (amount_to_withdraw, settled) = member_data.withdraw();
        proof {
            lemma_pool_covers_each_stake(self@, id as nat);
            lemma_withdraw_keeps_backing(self@, id as nat);
        }
        self.set_stake(id, settled.amount_staked);
        match self.pool.withdraw(amount_to_withdraw) {
            Ok(asset) => Ok(asset),
            Err(_) => unreached(),
        }
    }

    /// Validates a presented proof against the ledger's registry and reads
    /// the data of the credential behind it.
    fn member(&self, member_proof: CredentialProof<'_>) -> (found: Result<
        (u128, MemberData),
        LedgerError,
    >)
        ensures
            match found {
                Ok((id, member_data)) => {
                    &&& self@.recognises(member_proof@)
                    &&& id == member_proof@.id
                    &&& member_data.amount_staked@ == self@.staked(member_proof@.id)
                },
                Err(error) => {
                    &&& !self@.recognises(member_proof@)
                    &&& error == self@.refusal(member_proof@)
                },
            },
    {
        let validated = match member_proof.validate(self.members.schema()) {
            Ok(validated) => validated,
            Err(error) => {
                return Err(error);
            },
        };
        let id = validated.id();
        match self.members.data(id) {
            Some(member_data) => Ok((id, member_data)),
            None => Err(LedgerError::UnknownCredential),
        }
    }

    /// Sets the amount staked on credential `id` to `value`, under the
    /// authority of the ledger's own token. With the key to the registry and
    /// an id that the registry has issued, the update cannot be refused.
    fn set_stake(&mut self, id: u128, value: Amount)
        requires
            old(self).keyed(),
            old(self)@.issued(id as nat),
        ensures
            final(self).keyed(),
            final(self)@ == (LedgerState {
                stakes: old(self)@.stakes.update(id as int, value@),
                ..old(self)@
            }),
    {
        let _ = self.vault.authorize(
            &mut self.members,
            |authority: &CapabilityToken, registry: &mut CredentialRegistry| -> (updated: Result<
                (),
                LedgerError,
            >)
                requires
                    authority.identity() == registry.gate(),
                    registry.issued(id as nat),
                ensures
                    updated is Ok,
                    final(registry).schema() == old(registry).schema(),
                    final(registry).gate() == old(registry).gate(),
                    final(registry).stakes() == old(registry).stakes().update(id as int, value@),
                {
                    registry.update(authority, id, value)
                }
        );
    }
}

} // verus!
