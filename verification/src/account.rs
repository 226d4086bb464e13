use vstd::prelude::*;

verus! {

/// Per-client account state.
///
/// `available` are funds free to withdraw, `held` are funds frozen pending
/// dispute resolution, and `total` is maintained as their sum. Once `locked`
/// is set (by a chargeback) the account rejects all further operations.
/// All monetary fields are fixed-point integers with four fractional digits.
#[derive(Clone, Copy, Debug, PartialEq, Eq)]
pub struct Account {
    pub id: u16,
    pub available: u64,
    pub held: u64,
    pub total: u64,
    pub locked: bool,
}

impl Account {
    /// The balance invariant of a single account: `total` is exactly the sum
    /// of `available` and `held` (and `held` is never negative, which the
    /// unsigned representation already guarantees).
    pub open spec fn is_consistent(self) -> bool {
        &&& self.total == self.available + self.held
        &&& self.held >= 0
    }
}

} // verus!
