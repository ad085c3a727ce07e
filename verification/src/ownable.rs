//! The ownable module: a single owner account whose holder alone may perform
//! restricted operations, transfer the ownership, or renounce it.

use vstd::prelude::*;

use crate::access::OwnershipTransferred;
use crate::types::{asset_eq, AccountId};

verus! {

/// Why an ownable operation was refused.
#[derive(Clone, Copy, PartialEq, Eq, Debug)]
pub enum OwnableError {
    /// The caller does not hold the ownership.
    CallerIsNotOwner,
}

/// The ownership record: the current owner, or `None` once renounced — or
/// before one was ever set.
pub struct Data {
    /// The current owner.
    pub owner: Option<AccountId>,
}

impl Data {
    /// A record with no owner set.
    pub fn new() -> (r: Data)
        ensures
            r.owner is None,
    {
        Data { owner: None }
    }

    /// The current owner.
    pub fn owner(&self) -> (r: Option<AccountId>)
        ensures
            r == self.owner,
    {
        self.owner
    }

    /// Overwrite the owner unconditionally; authorization is the caller's
    /// business, checked through [`Self::only_owner`] first.
    pub fn set_owner(&mut self, new_owner: &Option<AccountId>)
        ensures
            final(self).owner == *new_owner,
    {
        self.owner = *new_owner;
    }

    /// Allow only the current owner through.
    pub fn only_owner(&self, caller: AccountId) -> (r: Result<(), OwnableError>)
        ensures
            r == if self.owner == Some(caller) {
                Ok::<(), OwnableError>(())
            } else {
                Err::<(), OwnableError>(OwnableError::CallerIsNotOwner)
            },
    {
        if asset_eq(&self.owner, &Some(caller)) {
            Ok(())
        } else {
            Err(OwnableError::CallerIsNotOwner)
        }
    }

    /// Give the ownership up for good: only the owner may, and afterwards
    /// there is no owner. Reports the event to emit.
    pub fn renounce_ownership(&mut self, caller: AccountId) -> (r: Result<
        OwnershipTransferred,
        OwnableError,
    >)
        ensures
            old(self).owner == Some(caller) ==> r == Ok::<_, OwnableError>(
                OwnershipTransferred { new: None },
            ) && final(self).owner is None,
            old(self).owner != Some(caller) ==> r == Err::<OwnershipTransferred, _>(
                OwnableError::CallerIsNotOwner,
            ) && final(self).owner == old(self).owner,
    {
        match self.only_owner(caller) {
            Ok(_) => {},
            Err(e) => {
                return Err(e);
            },
        }
        self.set_owner(&None);
        Ok(OwnershipTransferred { new: None })
    }

    /// Hand the ownership to another account: only the owner may. Reports
    /// the event to emit.
    pub fn transfer_ownership(&mut self, caller: AccountId, new_owner: AccountId) -> (r: Result<
        OwnershipTransferred,
        OwnableError,
    >)
        ensures
            old(self).owner == Some(caller) ==> r == Ok::<_, OwnableError>(
                OwnershipTransferred { new: Some(new_owner) },
            ) && final(self).owner == Some(new_owner),
            old(self).owner != Some(caller) ==> r == Err::<OwnershipTransferred, _>(
                OwnableError::CallerIsNotOwner,
            ) && final(self).owner == old(self).owner,
    {
        match self.only_owner(caller) {
            Ok(_) => {},
            Err(e) => {
                return Err(e);
            },
        }
        self.set_owner(&Some(new_owner));
        Ok(OwnershipTransferred { new: Some(new_owner) })
    }
}

impl Default for Data {
    /// A record with no owner set.
    fn default() -> (r: Data)
        ensures
            r.owner is None,
    {
        Data::new()
    }
}

} // verus!
