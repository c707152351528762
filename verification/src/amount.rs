//! Fixed-point quantities of the staked asset.

use vstd::prelude::*;

verus! {

/// Number of subunits in one whole unit of the asset: amounts carry 18
/// fractional decimal digits.
pub const SUBUNITS_PER_UNIT: u128 = 1_000_000_000_000_000_000;

/// A non-negative fixed-point quantity of the asset, held as a whole number
/// of subunits of 10^-18.
#[derive(Clone, Copy, PartialEq, Eq, Structural, Debug)]
pub struct Amount {
    pub subunits: u128,
}

impl View for Amount {
    type V = nat;

    /// The quantity as a count of subunits.
    open spec fn view(&self) -> nat {
        self.subunits as nat
    }
}

impl Amount {
    /// The empty quantity.
    pub fn zero() -> (amount: Amount)
        ensures
            amount@ == 0,
    {
        Amount { subunits: 0 }
    }

    /// The quantity of `units` whole units.
    pub fn from_whole(units: u64) -> (amount: Amount)
        ensures
            amount@ == units * SUBUNITS_PER_UNIT,
    {
        assert(units * SUBUNITS_PER_UNIT <= u128::MAX) by (nonlinear_arith)
            requires
                units <= u64::MAX,
                SUBUNITS_PER_UNIT == 1_000_000_000_000_000_000,
        ;
        let wide: u128 = units as u128;
        Amount { subunits: wide * SUBUNITS_PER_UNIT }
    }

    /// The sum of two quantities, or `None` where it cannot be represented.
    pub fn checked_add(self, other: Amount) -> (sum: Option<Amount>)
        ensures
            match sum {
                Some(total) => total@ == self@ + other@,
                None => self@ + other@ > u128::MAX,
            },
    {
        match self.subunits.checked_add(other.subunits) {
            Some(subunits) => Some(Amount { subunits }),
            None => None,
        }
    }

    /// The difference of two quantities, or `None` where `other` is the larger.
    pub fn checked_sub(self, other: Amount) -> (difference: Option<Amount>)
        ensures
            match difference {
                Some(rest) => rest@ == self@ - other@,
                None => other@ > self@,
            },
    {
        match self.subunits.checked_sub(other.subunits) {
            Some(subunits) => Some(Amount { subunits }),
            None => None,
        }
    }
}

} // verus!
