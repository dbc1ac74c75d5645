//! A two-phase credential issuance workflow: a holder asks an issuer for a
//! credential of some type and pays a fee; the issuer later fulfils the ask,
//! and the credential is recorded against the holder for good.
//!
//! The host (caller identity, attached value, block time, balance transfer)
//! stays outside: its values come in as arguments, and the fee transfer that
//! a request asks for goes out as a value for the host to carry out.
pub mod types;
pub mod request_ledger;
pub mod credential_ledger;
pub mod system;
pub mod laws;

pub use system::{CredentialSystem, FeeTransfer, MINIMUM_FEE};
pub use types::{AccountId, Balance, Credential, CredentialType, Error, RequestKey};
