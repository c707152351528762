//! Move-only holdings of the staked asset, and the pool that gathers them.

use vstd::prelude::*;
use crate::amount::Amount;
use crate::error::LedgerError;

verus! {

/// A quantity of the asset in somebody's hands.
///
/// A handle can be neither copied nor cloned: the quantity it stands for
/// moves with it. Handles are merged and split, and the quantities of the
/// parts always add up to the quantity of the whole.
#[derive(Debug)]
pub struct AssetHandle {
    amount: Amount,
}

impl View for AssetHandle {
    type V = nat;

    /// The quantity held, in subunits.
    closed spec fn view(&self) -> nat {
        self.amount@
    }
}

impl AssetHandle {
    /// A handle on `amount` of the asset, as the host of the ledger hands it
    /// to a caller.
    pub fn new(amount: Amount) -> (handle: AssetHandle)
        ensures
            handle@ == amount@,
    {
        AssetHandle { amount }
    }

    /// The quantity held.
    pub fn amount(&self) -> (amount: Amount)
        ensures
            amount@ == self@,
    {
        self.amount
    }

    /// Takes all of `other` into this handle.
    pub fn merge(&mut self, other: AssetHandle)
        requires
            old(self)@ + other@ <= u128::MAX,
        ensures
            final(self)@ == old(self)@ + other@,
    {
        self.amount = Amount { subunits: self.amount.subunits + other.amount.subunits };
    }

    /// Parts `amount` from this handle into a handle of its own. Where the
    /// handle holds less than `amount`, nothing is parted.
    pub fn split(&mut self, amount: Amount) -> (parted: Result<AssetHandle, LedgerError>)
        ensures
            match parted {
                Ok(handle) => amount@ <= old(self)@ && handle@ == amount@ && final(self)@
                    == old(self)@ - amount@,
                Err(error) => amount@ > old(self)@ && error == LedgerError::InsufficientFunds
                    && *final(self) == *old(self),
            },
    {
        match self.amount.checked_sub(amount) {
            Some(rest) => {
                self.amount = rest;
                Ok(AssetHandle { amount })
            },
            None => Err(LedgerError::InsufficientFunds),
        }
    }
}

/// The pool in which a ledger keeps everything that is staked with it.
#[derive(Debug)]
pub struct AssetPool {
    holdings: AssetHandle,
}

impl View for AssetPool {
    type V = nat;

    /// The balance of the pool, in subunits: all that was deposited less all
    /// that was withdrawn.
    closed spec fn view(&self) -> nat {
        self.holdings@
    }
}

impl AssetPool {
    /// An empty pool.
    pub fn new() -> (pool: AssetPool)
        ensures
            pool@ == 0,
    {
        AssetPool { holdings: AssetHandle::new(Amount::zero()) }
    }

    /// The balance of the pool.
    pub fn balance(&self) -> (balance: Amount)
        ensures
            balance@ == self@,
    {
        self.holdings.amount()
    }

    /// Takes `asset` into the pool.
    pub fn deposit(&mut self, asset: AssetHandle)
        requires
            old(self)@ + asset@ <= u128::MAX,
        ensures
            final(self)@ == old(self)@ + asset@,
    {
        self.holdings.merge(asset);
    }

    /// Hands `amount` out of the pool. Where the pool holds less, nothing
    /// leaves it.
    pub fn withdraw(&mut self, amount: Amount) -> (paid: Result<AssetHandle, LedgerError>)
        ensures
            match paid {
                Ok(handle) => amount@ <= old(self)@ && handle@ == amount@ && final(self)@
                    == old(self)@ - amount@,
                Err(error) => amount@ > old(self)@ && error == LedgerError::InsufficientFunds
                    && *final(self) == *old(self),
            },
    {
        self.holdings.split(amount)
    }
}

} // verus!
