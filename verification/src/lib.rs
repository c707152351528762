//! A membership-staking ledger.
//!
//! The ledger issues membership credentials, lets the holder of a credential
//! deposit a fungible asset into a shared pool, and keeps the amount each
//! holder has staked as data attached to the credential. Credentials are
//! minted, and their data changed, only under the authority of a capability
//! token that never leaves the ledger.
//!
//! Every executable function carries a contract over the mathematical model
//! in [`model`], and the laws that tie the operations together are proved
//! there.

pub mod amount;
pub mod asset;
pub mod capability;
pub mod error;
pub mod identity;
pub mod ledger;
pub mod model;
pub mod registry;

pub use crate::amount::Amount;
pub use crate::asset::AssetHandle;
pub use crate::asset::AssetPool;
pub use crate::capability::CapabilityToken;
pub use crate::capability::CapabilityVault;
pub use crate::error::LedgerError;
pub use crate::identity::Identity;
pub use crate::ledger::Exercise1;
pub use crate::ledger::StakeRefusal;
pub use crate::registry::Credential;
pub use crate::registry::CredentialProof;
pub use crate::registry::CredentialRegistry;
pub use crate::registry::MemberData;
pub use crate::registry::ValidatedProof;
