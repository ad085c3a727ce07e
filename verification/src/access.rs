//! Event shapes of the access-control and ownable modules. The authorization
//! logic itself lives with the host contract; these are the records it emits.

use vstd::prelude::*;

use crate::types::AccountId;

verus! {

/// A role identifier.
pub type RoleType = u32;

/// Emitted when the admin role of a role changes.
#[derive(Clone, Copy, PartialEq, Eq, Structural, Debug)]
pub struct RoleAdminChanged {
    /// The role whose admin role changed.
    pub role: RoleType,
    /// The previous admin role.
    pub previous: RoleType,
    /// The new admin role.
    pub new: RoleType,
}

/// Emitted when a role is granted.
#[derive(Clone, Copy, PartialEq, Eq, Debug)]
pub struct RoleGranted {
    /// The role granted.
    pub role: RoleType,
    /// Who received the role.
    pub grantee: Option<AccountId>,
    /// Who granted it.
    pub grantor: Option<AccountId>,
}

/// Emitted when a role is revoked.
#[derive(Clone, Copy, PartialEq, Eq, Debug)]
pub struct RoleRevoked {
    /// The role revoked.
    pub role: RoleType,
    /// Who lost the role.
    pub account: Option<AccountId>,
    /// Who revoked it.
    pub sender: AccountId,
}

/// Emitted when contract ownership moves.
#[derive(Clone, Copy, PartialEq, Eq, Debug)]
pub struct OwnershipTransferred {
    /// The new owner; `None` after a renounce.
    pub new: Option<AccountId>,
}

} // verus!
