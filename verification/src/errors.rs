//! Error taxonomy of the vesting engine and of the fungible-token interface
//! it collaborates with.

use vstd::prelude::*;

verus! {

/// Errors a fungible-token contract may report on a transfer.
///
/// The vesting engine only needs to pass these through; the funding-related
/// kinds are listed so callers can tell a funding problem from an engine
/// problem.
#[derive(Clone, Debug, PartialEq, Eq)]
pub enum PSP22Error {
    /// A token-specific error with its own message.
    Custom(String),
    /// The sender did not hold enough tokens.
    InsufficientBalance,
    /// The spender was not allowed enough of the holder's tokens.
    InsufficientAllowance,
}

/// Errors surfaced by the vesting operations.
#[derive(Clone, Debug, PartialEq, Eq)]
pub enum VestingError {
    /// A slot expected to exist was missing: store corruption, never a normal
    /// user-facing condition. The dense store of this crate cannot produce it.
    InvalidScheduleKey,
    /// The value attached to a native-coin `create_vest` call did not equal
    /// the declared vest amount exactly.
    InvalidAmountPaid,
    /// The host's native-coin transfer primitive reported failure.
    NativeTransferFailed,
    /// An error of the external fungible-token contract, passed through.
    PSP22Error(PSP22Error),
}

} // verus!
