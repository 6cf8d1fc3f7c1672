//! Campaign records: one per live campaign.

use vstd::prelude::*;
use crate::keys::Pubkey;
use crate::MAX_TITLE_LEN;
use crate::MAX_DESCRIPTION_LEN;

verus! {

/// Per-campaign funding state.  The address `id` is derived by the storage
/// collaborator from `(owner, title)`, so re-creating a campaign with the
/// same owner and title collides with a live one.
pub struct Campaign {
    pub id: Pubkey,
    pub owner: Pubkey,
    pub title: String,
    pub description: String,
    pub deadline: i64,
    pub total_contribution: u64,
}

impl Campaign {
    /// Bounds fixed at creation and kept for the record's whole life.
    pub open spec fn wf(self) -> bool {
        self.title@.len() <= MAX_TITLE_LEN && self.description@.len() <= MAX_DESCRIPTION_LEN
    }
}

/// The record Create stores: the supplied fields verbatim, the accumulator
/// at zero.
pub open spec fn fresh_campaign(
    id: Pubkey,
    owner: Pubkey,
    title: String,
    description: String,
    deadline: i64,
) -> Campaign {
    Campaign { id, owner, title, description, deadline, total_contribution: 0 }
}

/// `c` after its accumulator has been raised to `total`.
pub open spec fn with_total(c: Campaign, total: u64) -> Campaign {
    Campaign { total_contribution: total, ..c }
}

/// No two records share an address.
pub open spec fn distinct_ids(s: Seq<Campaign>) -> bool {
    forall|i: int, j: int|
        #![trigger s[i].id, s[j].id]
        0 <= i < j < s.len() ==> s[i].id != s[j].id
}

/// Some record has address `id`.
pub open spec fn has_rec(s: Seq<Campaign>, id: Pubkey) -> bool {
    exists|i: int| 0 <= i < s.len() && #[trigger] s[i].id == id
}

/// An index of a record with address `id`, where one exists.
pub open spec fn rec_at(s: Seq<Campaign>, id: Pubkey) -> int {
    choose|i: int| 0 <= i < s.len() && #[trigger] s[i].id == id
}

/// With distinct addresses, the record at `i` is the record of its address.
pub proof fn lemma_rec_at(s: Seq<Campaign>, i: int)
    requires
        distinct_ids(s),
        0 <= i < s.len(),
    ensures
        has_rec(s, s[i].id),
        rec_at(s, s[i].id) == i,
{
    assert(has_rec(s, s[i].id));
    let j = rec_at(s, s[i].id);
    assert(0 <= j < s.len() && s[j].id == s[i].id);
    if i < j {
        assert(s[i].id != s[j].id);
    } else if j < i {
        assert(s[j].id != s[i].id);
    }
}

/// Index of the record with address `id`, where one exists.
pub fn record_index(v: &Vec<Campaign>, id: Pubkey) -> (r: Option<usize>)
    ensures
        match r {
            Some(i) => i < v@.len() && v@[i as int].id == id,
            None => !has_rec(v@, id),
        },
{
    let mut i: usize = 0;
    while i < v.len()
        invariant
            i <= v@.len(),
            forall|j: int| 0 <= j < i ==> #[trigger] v@[j].id != id,
        decreases v@.len() - i,
    {
        if v[i].id == id {
            return Some(i);
        }
        i += 1;
    }
    proof {
        if has_rec(v@, id) {
            let j = rec_at(v@, id);
            assert(0 <= j < v@.len() && v@[j].id == id);
        }
    }
    None
}

/// Mutable access to the record at `i`.
pub(crate) fn record_index_mut(v: &mut Vec<Campaign>, i: usize) -> (element: &mut Campaign)
    requires
        i < old(v).len(),
    ensures
        *element == old(v)@[i as int],
        final(v)@ == old(v)@.update(i as int, *final(element)),
{
    &mut v[i]
}

} // verus!
