use vstd::prelude::*;

verus! {

/// The error taxonomy shared by every entry point of the library.
///
/// Each entry point returns a structured `Result` carrying one of these
/// conditions instead of aborting, and its contract states exactly which
/// inputs produce which condition.
#[derive(Clone, Copy, Debug, PartialEq, Eq, Structural)]
pub enum DistributionError {
    /// A call was made before the one-time initialization.
    NotInitialized,
    /// A second initialization, or a second bulk registration, was attempted.
    AlreadyInitialized,
    /// The invocation was not authorized by the identity the call requires.
    Unauthorized,
    /// The named identity is not in the member registry.
    MemberNotFound,
    /// A burn was asked for more than the available balance.
    InsufficientEnergy,
    /// A percent allocation outside the allowed bounds, or a batch whose
    /// percents do not sum to exactly one hundred.
    InvalidPercent,
    /// A negative or non-positive energy amount.
    InvalidAmount,
}

} // verus!
