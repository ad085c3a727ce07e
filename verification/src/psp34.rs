//! Token identifiers and event shapes of the non-fungible-token standard.

use vstd::prelude::*;

use crate::types::AccountId;

verus! {

/// A non-fungible token's identifier, in whichever width the collection
/// chose, or as raw bytes.
#[derive(Debug, PartialEq, Eq, PartialOrd, Ord, Clone)]
pub enum Id {
    /// An 8-bit identifier.
    U8(u8),
    /// A 16-bit identifier.
    U16(u16),
    /// A 32-bit identifier.
    U32(u32),
    /// A 64-bit identifier.
    U64(u64),
    /// A 128-bit identifier.
    U128(u128),
    /// An arbitrary byte identifier.
    Bytes(Vec<u8>),
}

impl Default for Id {
    /// The zero identifier in the narrowest width.
    fn default() -> (r: Id)
        ensures
            r == Id::U8(0u8),
    {
        Id::U8(0)
    }
}

/// Emitted on a token transfer; a `None` endpoint marks a mint or a burn.
#[derive(Clone, PartialEq, Eq, Debug)]
pub struct Transfer {
    /// The account the token left, or `None` for a mint.
    pub from: Option<AccountId>,
    /// The account the token reached, or `None` for a burn.
    pub to: Option<AccountId>,
    /// Which token moved.
    pub id: Id,
}

/// Emitted when an operator is approved or disapproved.
#[derive(Clone, PartialEq, Eq, Debug)]
pub struct Approval {
    /// The owner granting or revoking the approval.
    pub from: AccountId,
    /// The operator concerned.
    pub to: AccountId,
    /// The token concerned, or `None` for the whole collection.
    pub id: Option<Id>,
    /// Whether the operator is now approved.
    pub approved: bool,
}

} // verus!
