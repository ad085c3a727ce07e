//! Event shapes of the fungible-token standard.

use vstd::prelude::*;

use crate::types::{AccountId, Balance};

verus! {

/// Emitted on a token transfer; a `None` endpoint marks a mint or a burn.
#[derive(Clone, Copy, PartialEq, Eq, Debug)]
pub struct Transfer {
    /// The account the tokens left, or `None` for a mint.
    pub from: Option<AccountId>,
    /// The account the tokens reached, or `None` for a burn.
    pub to: Option<AccountId>,
    /// How many tokens moved.
    pub amount: Balance,
}

/// Emitted when an allowance is set.
#[derive(Clone, Copy, PartialEq, Eq, Debug)]
pub struct Approval {
    /// The holder of the tokens.
    pub owner: AccountId,
    /// Who may spend them.
    pub spender: AccountId,
    /// How much the spender may spend.
    pub amount: Balance,
}

} // verus!
