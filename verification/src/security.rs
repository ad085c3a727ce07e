//! Event shapes of the pausable module.

use vstd::prelude::*;

use crate::types::AccountId;

verus! {

/// Emitted when the contract is paused.
#[derive(Clone, Copy, PartialEq, Eq, Debug)]
pub struct Paused {
    /// Who paused it.
    pub account: AccountId,
}

/// Emitted when the contract is unpaused.
#[derive(Clone, Copy, PartialEq, Eq, Debug)]
pub struct Unpaused {
    /// Who unpaused it.
    pub account: AccountId,
}

} // verus!
