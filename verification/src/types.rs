//! Ground types shared by every module: accounts, balances, timestamps.

use vstd::prelude::*;

verus! {

broadcast use vstd::array::group_array_axioms;

/// A chain account identifier: thirty-two raw bytes.
///
/// The engine never looks inside an account identifier; it only compares two
/// of them for equality, so the raw bytes are all it needs to hold.
#[derive(Clone, Copy, PartialEq, Eq, Hash, Debug)]
pub struct AccountId(pub [u8; 32]);

/// A token quantity, wide enough for any ledger balance.
pub type Balance = u128;

/// A logical time reading, monotonically non-decreasing across a deployment.
pub type Timestamp = u64;

/// Byte-for-byte equality of two account identifiers, usable in verified code.
pub fn account_eq(a: &AccountId, b: &AccountId) -> (r: bool)
    ensures
        r == (a == b),
{
    let mut i: usize = 0;
    while i < 32
        invariant
            i <= 32,
            forall|j: int| 0 <= j < i ==> a.0@[j] == b.0@[j],
        decreases 32 - i,
    {
        if a.0[i] != b.0[i] {
            return false;
        }
        i = i + 1;
    }
    proof {
        assert(a.0 =~= b.0);
    }
    true
}

/// Equality of two asset identifiers, where `None` stands for the native coin.
pub fn asset_eq(a: &Option<AccountId>, b: &Option<AccountId>) -> (r: bool)
    ensures
        r == (a == b),
{
    match (a, b) {
        (None, None) => true,
        (Some(x), Some(y)) => account_eq(x, y),
        _ => false,
    }
}

} // verus!
