use pendzl::access::OwnershipTransferred;
use pendzl::ownable::{Data, OwnableError};
use pendzl::types::AccountId;

fn acct(n: u8) -> AccountId {
    AccountId([n; 32])
}

#[test]
fn fresh_record_has_no_owner() {
    let data = Data::new();
    assert_eq!(data.owner(), None);
}

#[test]
fn only_owner_admits_exactly_the_owner() {
    let mut data = Data::new();
    let alice = acct(1);
    let bob = acct(2);
    assert_eq!(data.only_owner(alice), Err(OwnableError::CallerIsNotOwner));
    data.set_owner(&Some(alice));
    assert_eq!(data.only_owner(alice), Ok(()));
    assert_eq!(data.only_owner(bob), Err(OwnableError::CallerIsNotOwner));
}

#[test]
fn transfer_ownership_moves_the_owner() {
    let mut data = Data::new();
    let alice = acct(1);
    let bob = acct(2);
    data.set_owner(&Some(alice));
    let ev = data.transfer_ownership(alice, bob).unwrap();
    assert_eq!(ev, OwnershipTransferred { new: Some(bob) });
    assert_eq!(data.owner(), Some(bob));
    // The old owner is now a stranger.
    assert_eq!(
        data.transfer_ownership(alice, bob),
        Err(OwnableError::CallerIsNotOwner)
    );
}

#[test]
fn renounce_ownership_clears_the_owner() {
    let mut data = Data::new();
    let alice = acct(1);
    data.set_owner(&Some(alice));
    let ev = data.renounce_ownership(alice).unwrap();
    assert_eq!(ev, OwnershipTransferred { new: None });
    assert_eq!(data.owner(), None);
    // With no owner, nobody may renounce again.
    assert_eq!(
        data.renounce_ownership(alice),
        Err(OwnableError::CallerIsNotOwner)
    );
}
