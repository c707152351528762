//! The mathematical model of a ledger, and the laws its operations obey.
//!
//! A ledger is modelled by the amount staked on each credential it has
//! issued, in the order of issue, together with the balance of its pool. The
//! executable operations are specified as transitions of this model.

use vstd::prelude::*;
use crate::error::LedgerError;
use crate::identity::Identity;

verus! {

/// What a credential is to the model: the registry that issued it and its id
/// within that registry.
pub struct CredentialView {
    pub registry: Identity,
    pub id: nat,
}

/// The state of a ledger between two operations.
pub struct LedgerState {
    /// Identity of the ledger's capability token.
    pub capability: Identity,
    /// Identity of the ledger's credential registry.
    pub schema: Identity,
    /// Amount staked on each credential; the credential's id is its index.
    pub stakes: Seq<nat>,
    /// Balance of the asset pool.
    pub balance: nat,
}

/// The sum of all amounts in `stakes`.
pub open spec fn total(stakes: Seq<nat>) -> nat
    decreases stakes.len(),
{
    if stakes.len() == 0 {
        0
    } else {
        total(stakes.drop_last()) + stakes.last()
    }
}

impl LedgerState {
    /// The ledger right after it was set up: no credential, an empty pool.
    pub open spec fn fresh(capability: Identity, schema: Identity) -> LedgerState {
        LedgerState { capability, schema, stakes: Seq::empty(), balance: 0 }
    }

    /// Whether the ledger has issued a credential with this id.
    pub open spec fn issued(self, id: nat) -> bool {
        id < self.stakes.len()
    }

    /// The id that the next credential will get.
    pub open spec fn next_id(self) -> nat {
        self.stakes.len()
    }

    /// The amount staked on credential `id`.
    pub open spec fn staked(self, id: nat) -> nat
        recommends
            self.issued(id),
    {
        self.stakes[id as int]
    }

    /// The sum of the amounts staked on all credentials.
    pub open spec fn total_staked(self) -> nat {
        total(self.stakes)
    }

    /// The part of the pool that is not owed to any credential but `id`.
    pub open spec fn portion(self, id: nat) -> int
        recommends
            self.issued(id),
    {
        self.balance - (self.total_staked() - self.staked(id))
    }

    /// The pool holds exactly what the credentials have staked.
    pub open spec fn backed(self) -> bool {
        self.balance == self.total_staked()
    }

    /// Whether a presented credential is one of this ledger's.
    pub open spec fn recognises(self, presented: CredentialView) -> bool {
        presented.registry == self.schema && self.issued(presented.id)
    }

    /// The error that answers a credential the ledger does not recognise.
    pub open spec fn refusal(self, presented: CredentialView) -> LedgerError
        recommends
            !self.recognises(presented),
    {
        if presented.registry != self.schema {
            LedgerError::InvalidProof
        } else {
            LedgerError::UnknownCredential
        }
    }

    /// The ledger after it issued one more credential, with nothing staked.
    pub open spec fn enroll(self) -> LedgerState {
        LedgerState { stakes: self.stakes.push(0), ..self }
    }

    /// The ledger after `amount` was staked on credential `id`.
    pub open spec fn stake(self, id: nat, amount: nat) -> LedgerState
        recommends
            self.issued(id),
    {
        LedgerState {
            stakes: self.stakes.update(id as int, self.staked(id) + amount),
            balance: self.balance + amount,
            ..self
        }
    }

    /// The ledger after the whole stake of credential `id` was paid out.
    pub open spec fn withdraw(self, id: nat) -> LedgerState
        recommends
            self.issued(id),
    {
        LedgerState {
            stakes: self.stakes.update(id as int, 0),
            balance: (self.balance - self.staked(id)) as nat,
            ..self
        }
    }

    /// The ledger after each of `amounts` was staked on credential `id`, in
    /// order.
    pub open spec fn stake_each(self, id: nat, amounts: Seq<nat>) -> LedgerState
        recommends
            self.issued(id),
        decreases amounts.len(),
    {
        if amounts.len() == 0 {
            self
        } else {
            self.stake_each(id, amounts.drop_last()).stake(id, amounts.last())
        }
    }

    /// The ledger after it issued `count` more credentials.
    pub open spec fn enroll_each(self, count: nat) -> LedgerState
        decreases count,
    {
        if count == 0 {
            self
        } else {
            self.enroll_each((count - 1) as nat).enroll()
        }
    }
}

/// Appending an amount raises the total by that amount.
pub proof fn lemma_total_push(stakes: Seq<nat>, amount: nat)
    ensures
        total(stakes.push(amount)) == total(stakes) + amount,
{
    assert(stakes.push(amount).drop_last() =~= stakes);
}

/// Replacing one amount changes the total by the difference.
pub proof fn lemma_total_update(stakes: Seq<nat>, id: int, amount: nat)
    requires
        0 <= id < stakes.len(),
    ensures
        total(stakes.update(id, amount)) + stakes[id] == total(stakes) + amount,
    decreases stakes.len(),
{
    let updated = stakes.update(id, amount);
    if id == stakes.len() - 1 {
        assert(updated.drop_last() =~= stakes.drop_last());
    } else {
        lemma_total_update(stakes.drop_last(), id, amount);
        assert(updated.drop_last() =~= stakes.drop_last().update(id, amount));
    }
}

/// No single amount exceeds the total.
pub proof fn lemma_total_bounds(stakes: Seq<nat>, id: int)
    requires
        0 <= id < stakes.len(),
    ensures
        stakes[id] <= total(stakes),
    decreases stakes.len(),
{
    if id < stakes.len() - 1 {
        lemma_total_bounds(stakes.drop_last(), id);
    }
}

/// A ledger that was just set up is backed: nothing is staked, and its pool
/// is empty.
pub proof fn lemma_fresh_is_backed(capability: Identity, schema: Identity)
    ensures
        LedgerState::fresh(capability, schema).backed(),
{
}

/// Issuing a credential keeps the pool equal to the sum of all stakes.
pub proof fn lemma_enroll_keeps_backing(state: LedgerState)
    requires
        state.backed(),
    ensures
        state.enroll().backed(),
{
    lemma_total_push(state.stakes, 0);
}

/// Staking keeps the pool equal to the sum of all stakes.
pub proof fn lemma_stake_keeps_backing(state: LedgerState, id: nat, amount: nat)
    requires
        state.backed(),
        state.issued(id),
    ensures
        state.stake(id, amount).backed(),
{
    lemma_total_update(state.stakes, id as int, state.staked(id) + amount);
}

/// A backed pool holds enough to pay any one stake out.
pub proof fn lemma_pool_covers_each_stake(state: LedgerState, id: nat)
    requires
        state.backed(),
        state.issued(id),
    ensures
        state.staked(id) <= state.balance,
{
    lemma_total_bounds(state.stakes, id as int);
}

/// Withdrawing keeps the pool equal to the sum of all stakes.
pub proof fn lemma_withdraw_keeps_backing(state: LedgerState, id: nat)
    requires
        state.backed(),
        state.issued(id),
    ensures
        state.withdraw(id).backed(),
{
    lemma_total_bounds(state.stakes, id as int);
    lemma_total_update(state.stakes, id as int, 0);
}

/// Amounts staked one after another on one credential, with no withdrawal
/// in between, add up: the credential's stake and the pool both grow by
/// their sum, and no other credential changes. In a backed ledger the part
/// of the pool that is owed to no other credential is then exactly the
/// credential's stake.
pub proof fn lemma_stakes_accumulate(state: LedgerState, id: nat, amounts: Seq<nat>)
    requires
        state.issued(id),
    ensures
        ({
            let after = state.stake_each(id, amounts);
            &&& after.capability == state.capability
            &&& after.schema == state.schema
            &&& after.stakes.len() == state.stakes.len()
            &&& after.staked(id) == state.staked(id) + total(amounts)
            &&& after.balance == state.balance + total(amounts)
            &&& forall|other: nat|
                state.issued(other) && other != id ==> after.staked(other) == state.staked(other)
            &&& state.backed() ==> after.backed() && after.portion(id) == after.staked(id)
        }),
    decreases amounts.len(),
{
    if amounts.len() > 0 {
        lemma_stakes_accumulate(state, id, amounts.drop_last());
        let before = state.stake_each(id, amounts.drop_last());
        if state.backed() {
            lemma_stake_keeps_backing(before, id, amounts.last());
        }
    }
}

/// Issuing `count` credentials lengthens the list of stakes by `count` and
/// changes nothing else.
pub proof fn lemma_enroll_each(state: LedgerState, count: nat)
    ensures
        ({
            let after = state.enroll_each(count);
            &&& after.capability == state.capability
            &&& after.schema == state.schema
            &&& after.balance == state.balance
            &&& after.next_id() == state.next_id() + count
            &&& forall|id: nat| state.issued(id) ==> after.issued(id) && after.staked(id) == state.staked(id)
            &&& state.backed() ==> after.backed()
        }),
    decreases count,
{
    if count > 0 {
        lemma_enroll_each(state, (count - 1) as nat);
        if state.backed() {
            lemma_enroll_keeps_backing(state.enroll_each((count - 1) as nat));
        }
    }
}

/// No id is issued twice: of the credentials that a ledger issues from any
/// state on, each gets an id that the ledger had not issued before, and any
/// two get different ids.
pub proof fn lemma_issued_ids_are_distinct(state: LedgerState, earlier: nat, later: nat)
    requires
        earlier < later,
    ensures
        !state.issued(state.enroll_each(earlier).next_id()),
        state.enroll_each(earlier).next_id() != state.enroll_each(later).next_id(),
{
    lemma_enroll_each(state, earlier);
    lemma_enroll_each(state, later);
}

} // verus!
