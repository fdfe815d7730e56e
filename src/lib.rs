//! A registry that binds user addresses to identity attributes attested by an
//! off-chain proof, with one-time nullifiers and paid repeat verifications.

pub mod types;
pub mod ledger;
pub mod registry;
pub mod laws;
