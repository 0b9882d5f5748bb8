//! Why an operation on the ledger was refused.

use vstd::prelude::*;

verus! {

/// The reason an operation aborted. An aborted operation changes nothing.
#[derive(Clone, Copy, Debug, PartialEq, Eq, Structural)]
pub enum SwapError {
    /// An owner-only operation was called by someone else.
    PermissionDenied,
    /// The ledger is open where it must be closed, or closed where it must be open.
    InvalidState,
    /// The address matches neither of the two token contracts.
    UnknownToken,
    /// The user has no balance record, or less than the amount asked for.
    InsufficientFunds,
    /// The transfer that a continuation waited for did not succeed.
    ExternalCallFailed,
    /// The pools were asked to close while already closed.
    AlreadyClosed,
    /// Both sides of the market were given the same token contract.
    DuplicateToken,
    /// A token address does not denote a deployed public contract.
    InvalidTokenAddress,
    /// A pool, a balance or the swap constant would exceed 64 bits.
    Overflow,
}

} // verus!
