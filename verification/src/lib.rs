//! Three permissioned, persistent registries for a remittance application,
//! written to run inside a host ledger environment: a KYC status registry, an
//! FX rate oracle, and a remittance ledger.
//!
//! Each registry owns its durable state exclusively and is initialized exactly
//! once with an admin principal. The host's capability-based authorization
//! primitive is injected as a witness value ([`auth::CallAuths`]): every
//! mutating operation checks the required principal against that witness
//! before touching any state, and returns an [`errors::Error`] with no side
//! effects when a guard fails.

pub mod auth;
pub mod errors;
pub mod kyc;
pub mod rates;
pub mod remit;
pub mod store;
