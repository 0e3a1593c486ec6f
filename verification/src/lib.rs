//! Verified core of an energy-distribution ledger: a registry of members each
//! entitled to a percentage share of a pool of generated energy, an
//! admin-gated generation counter, and a proportional claim computation.
//!
//! The host ledger platform (persistent storage, cryptographic authorization,
//! the fungible token ledger, and event emission) is an external collaborator:
//! the caller hands every externally supplied fact in as a plain value (the
//! set of identities that authorized the invocation, the ledger time, a token
//! balance) and performs the actions these functions decide on.

pub mod auth;
pub mod distribution;
pub mod errors;
pub mod multisig;
pub mod share;
pub mod token;
