use staking_ledger::Amount;
use staking_ledger::AssetHandle;
use staking_ledger::AssetPool;
use staking_ledger::CapabilityToken;
use staking_ledger::CapabilityVault;
use staking_ledger::Credential;
use staking_ledger::CredentialRegistry;
use staking_ledger::Identity;
use staking_ledger::LedgerError;
use staking_ledger::MemberData;

const KEY: Identity = Identity { value: 11 };
const OTHER_KEY: Identity = Identity { value: 12 };
const SCHEMA: Identity = Identity { value: 21 };
const OTHER_SCHEMA: Identity = Identity { value: 22 };

fn mint(vault: &CapabilityVault, registry: &mut CredentialRegistry) -> Result<Credential, LedgerError> {
    vault.authorize(registry, |authority: &CapabilityToken, registry: &mut CredentialRegistry| {
        registry.mint(authority, MemberData::new())
    })
}

fn update(
    vault: &CapabilityVault,
    registry: &mut CredentialRegistry,
    id: u128,
    subunits: u128,
) -> Result<(), LedgerError> {
    vault.authorize(registry, |authority: &CapabilityToken, registry: &mut CredentialRegistry| {
        registry.update(authority, id, Amount { subunits })
    })
}

#[test]
fn authorize_hands_the_token_to_the_operation() {
    let vault = CapabilityVault::new(KEY);
    let mut seen = Identity { value: 0 };
    let answer = vault.authorize(&mut seen, |authority: &CapabilityToken, seen: &mut Identity| {
        *seen = authority.identity();
        42u8
    });
    assert_eq!(answer, 42);
    assert_eq!(seen, KEY);
}

#[test]
fn mint_under_the_capability_issues_a_credential() {
    let vault = CapabilityVault::new(KEY);
    let mut registry = CredentialRegistry::new(SCHEMA, KEY);
    assert_eq!(registry.schema(), SCHEMA);
    assert_eq!(registry.data(0), None);

    let credential = mint(&vault, &mut registry).unwrap();
    assert_eq!(credential.registry(), SCHEMA);
    assert_eq!(credential.id(), 0);
    assert_eq!(registry.data(0), Some(MemberData { amount_staked: Amount::zero() }));
    assert_eq!(registry.data(1), None);

    let next = mint(&vault, &mut registry).unwrap();
    assert_eq!(next.id(), 1);
}

#[test]
fn mint_stores_the_given_data() {
    let vault = CapabilityVault::new(KEY);
    let mut registry = CredentialRegistry::new(SCHEMA, KEY);
    let data = MemberData { amount_staked: Amount { subunits: 77 } };
    let credential = vault
        .authorize(&mut registry, |authority: &CapabilityToken, registry: &mut CredentialRegistry| {
            registry.mint(authority, data)
        })
        .unwrap();
    assert_eq!(registry.data(credential.id()), Some(data));
}

#[test]
fn mint_without_the_capability_is_unauthorized() {
    let stranger = CapabilityVault::new(OTHER_KEY);
    let owner = CapabilityVault::new(KEY);
    let mut registry = CredentialRegistry::new(SCHEMA, KEY);
    assert_eq!(mint(&stranger, &mut registry).unwrap_err(), LedgerError::Unauthorized);
    assert_eq!(registry.data(0), None);
    assert_eq!(mint(&owner, &mut registry).unwrap().id(), 0);
}

#[test]
fn update_without_the_capability_is_unauthorized() {
    let stranger = CapabilityVault::new(OTHER_KEY);
    let owner = CapabilityVault::new(KEY);
    let mut registry = CredentialRegistry::new(SCHEMA, KEY);
    let credential = mint(&owner, &mut registry).unwrap();
    assert_eq!(update(&owner, &mut registry, credential.id(), 5), Ok(()));

    assert_eq!(update(&stranger, &mut registry, credential.id(), 9), Err(LedgerError::Unauthorized));
    assert_eq!(update(&stranger, &mut registry, 40, 9), Err(LedgerError::Unauthorized));
    assert_eq!(registry.data(credential.id()), Some(MemberData { amount_staked: Amount { subunits: 5 } }));
}

#[test]
fn update_of_an_unknown_credential_is_refused() {
    let owner = CapabilityVault::new(KEY);
    let mut registry = CredentialRegistry::new(SCHEMA, KEY);
    assert_eq!(update(&owner, &mut registry, 0, 9), Err(LedgerError::UnknownCredential));
    let credential = mint(&owner, &mut registry).unwrap();
    assert_eq!(update(&owner, &mut registry, credential.id() + 1, 9), Err(LedgerError::UnknownCredential));
    assert_eq!(update(&owner, &mut registry, u128::MAX, 9), Err(LedgerError::UnknownCredential));
    assert_eq!(registry.data(credential.id()), Some(MemberData::new()));
}

#[test]
fn update_changes_one_record_only() {
    let owner = CapabilityVault::new(KEY);
    let mut registry = CredentialRegistry::new(SCHEMA, KEY);
    let first = mint(&owner, &mut registry).unwrap();
    let second = mint(&owner, &mut registry).unwrap();
    let third = mint(&owner, &mut registry).unwrap();
    assert_eq!(update(&owner, &mut registry, second.id(), 31), Ok(()));
    assert_eq!(registry.data(first.id()).unwrap().amount_staked, Amount::zero());
    assert_eq!(registry.data(second.id()).unwrap().amount_staked, Amount { subunits: 31 });
    assert_eq!(registry.data(third.id()).unwrap().amount_staked, Amount::zero());
}

#[test]
fn proof_validates_against_its_own_registry_only() {
    let owner = CapabilityVault::new(KEY);
    let mut registry = CredentialRegistry::new(SCHEMA, KEY);
    let _first = mint(&owner, &mut registry).unwrap();
    let credential = mint(&owner, &mut registry).unwrap();

    let validated = credential.create_proof().validate(SCHEMA).unwrap();
    assert_eq!(validated.id(), 1);
    let refused = credential.create_proof().validate(OTHER_SCHEMA);
    assert_eq!(refused.unwrap_err(), LedgerError::InvalidProof);
}

#[test]
fn member_data_rules() {
    let fresh = MemberData::new();
    assert_eq!(fresh.amount_staked, Amount { subunits: 0 });

    let staked = fresh.stake(Amount { subunits: 40 }).unwrap();
    assert_eq!(staked.amount_staked, Amount { subunits: 40 });
    let more = staked.stake(Amount { subunits: 2 }).unwrap();
    assert_eq!(more.amount_staked, Amount { subunits: 42 });
    assert_eq!(more.stake(Amount { subunits: u128::MAX - 41 }), None);
    assert_eq!(
        more.stake(Amount { subunits: u128::MAX - 42 }),
        Some(MemberData { amount_staked: Amount { subunits: u128::MAX } })
    );

    let (payout, left) = more.withdraw();
    assert_eq!(payout, Amount { subunits: 42 });
    assert_eq!(left, MemberData::new());
}

#[test]
fn handles_merge_and_split() {
    let mut handle = AssetHandle::new(Amount { subunits: 10 });
    handle.merge(AssetHandle::new(Amount { subunits: 5 }));
    assert_eq!(handle.amount(), Amount { subunits: 15 });

    let part = handle.split(Amount { subunits: 4 }).unwrap();
    assert_eq!(part.amount(), Amount { subunits: 4 });
    assert_eq!(handle.amount(), Amount { subunits: 11 });

    let nothing = handle.split(Amount::zero()).unwrap();
    assert_eq!(nothing.amount(), Amount::zero());
    let everything = handle.split(Amount { subunits: 11 }).unwrap();
    assert_eq!(everything.amount(), Amount { subunits: 11 });
    assert_eq!(handle.amount(), Amount::zero());
}

#[test]
fn split_of_more_than_is_held_is_refused() {
    let mut handle = AssetHandle::new(Amount { subunits: 10 });
    assert_eq!(handle.split(Amount { subunits: 11 }).unwrap_err(), LedgerError::InsufficientFunds);
    assert_eq!(handle.amount(), Amount { subunits: 10 });
}

#[test]
fn pool_deposits_and_withdrawals() {
    let mut pool = AssetPool::new();
    assert_eq!(pool.balance(), Amount::zero());
    pool.deposit(AssetHandle::new(Amount::from_whole(3)));
    pool.deposit(AssetHandle::new(Amount::from_whole(2)));
    assert_eq!(pool.balance(), Amount::from_whole(5));

    let paid = pool.withdraw(Amount::from_whole(4)).unwrap();
    assert_eq!(paid.amount(), Amount::from_whole(4));
    assert_eq!(pool.balance(), Amount::from_whole(1));
}

#[test]
fn pool_withdrawal_beyond_the_balance_is_refused() {
    let mut pool = AssetPool::new();
    assert_eq!(pool.withdraw(Amount { subunits: 1 }).unwrap_err(), LedgerError::InsufficientFunds);
    pool.deposit(AssetHandle::new(Amount { subunits: 8 }));
    assert_eq!(pool.withdraw(Amount { subunits: 9 }).unwrap_err(), LedgerError::InsufficientFunds);
    assert_eq!(pool.balance(), Amount { subunits: 8 });
    assert_eq!(pool.withdraw(Amount { subunits: 8 }).unwrap().amount(), Amount { subunits: 8 });
    assert_eq!(pool.balance(), Amount::zero());
}
