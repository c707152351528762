use staking_ledger::amount::SUBUNITS_PER_UNIT;
use staking_ledger::Amount;

#[test]
fn one_unit_is_ten_to_the_eighteen_subunits() {
    assert_eq!(SUBUNITS_PER_UNIT, 10u128.pow(18));
    assert_eq!(Amount::from_whole(1).subunits, 1_000_000_000_000_000_000);
    assert_eq!(Amount::from_whole(150).subunits, 150_000_000_000_000_000_000);
    assert_eq!(Amount::from_whole(0), Amount::zero());
}

#[test]
fn largest_whole_amount_fits() {
    let largest = Amount::from_whole(u64::MAX);
    assert_eq!(largest.subunits, 18_446_744_073_709_551_615_000_000_000_000_000_000);
}

#[test]
fn zero_is_zero() {
    assert_eq!(Amount::zero().subunits, 0);
    assert_ne!(Amount::zero(), Amount { subunits: 1 });
}

#[test]
fn checked_add_sums_or_gives_up() {
    let a = Amount { subunits: 100 };
    let b = Amount { subunits: 50 };
    assert_eq!(a.checked_add(b), Some(Amount { subunits: 150 }));
    assert_eq!(a.checked_add(Amount::zero()), Some(a));
    let top = Amount { subunits: u128::MAX };
    assert_eq!(top.checked_add(Amount::zero()), Some(top));
    assert_eq!(top.checked_add(Amount { subunits: 1 }), None);
    assert_eq!(Amount { subunits: u128::MAX - 100 }.checked_add(a), Some(top));
}

#[test]
fn checked_sub_subtracts_or_gives_up() {
    let a = Amount { subunits: 100 };
    let b = Amount { subunits: 50 };
    assert_eq!(a.checked_sub(b), Some(Amount { subunits: 50 }));
    assert_eq!(a.checked_sub(a), Some(Amount::zero()));
    assert_eq!(b.checked_sub(a), None);
    assert_eq!(Amount::zero().checked_sub(Amount { subunits: 1 }), None);
}
