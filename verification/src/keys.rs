//! Account identities.

use vstd::prelude::*;

verus! {

/// Address of an account on the ledger: a campaign record, a contributor or
/// an owner.  Campaign addresses are derived deterministically from
/// `(owner, title)` by the storage collaborator; the core only compares them.
#[derive(Clone, Copy, PartialEq, Eq, Structural, Debug)]
pub struct Pubkey {
    pub value: u64,
}

impl Pubkey {
    pub fn new(value: u64) -> (r: Pubkey)
        ensures
            r.value == value,
    {
        Pubkey { value }
    }
}

} // verus!
