//! The singleton registry: a bounded, insertion-ordered index of the
//! addresses of all live campaigns.

use vstd::prelude::*;
use crate::keys::Pubkey;

verus! {

/// The registry record.  Created once, appended to by Create, pruned by
/// Withdraw, never deleted as a whole.
pub struct CampaignState {
    pub campaigns: Vec<Pubkey>,
}

/// No address is listed twice.
pub open spec fn distinct_keys(s: Seq<Pubkey>) -> bool {
    forall|i: int, j: int| 0 <= i < j < s.len() ==> s[i] != s[j]
}

/// How many times `key` is listed.
pub open spec fn count_of(s: Seq<Pubkey>, key: Pubkey) -> nat
    decreases s.len(),
{
    if s.len() == 0 {
        0
    } else {
        count_of(s.drop_last(), key) + if s.last() == key {
            1nat
        } else {
            0nat
        }
    }
}

/// Appending one address raises its count by one and no other's.
pub proof fn lemma_count_push(s: Seq<Pubkey>, e: Pubkey, key: Pubkey)
    ensures
        count_of(s.push(e), key) == count_of(s, key) + if e == key {
            1nat
        } else {
            0nat
        },
{
    assert(s.push(e).drop_last() =~= s);
    assert(s.push(e).last() == e);
}

/// In a duplicate-free listing, an address is listed exactly once where it
/// appears at all, and zero times otherwise.
pub proof fn lemma_distinct_count(s: Seq<Pubkey>, key: Pubkey)
    requires
        distinct_keys(s),
    ensures
        count_of(s, key) == if s.contains(key) {
            1nat
        } else {
            0nat
        },
    decreases s.len(),
{
    if s.len() == 0 {
        assert(!s.contains(key));
    } else {
        let head = s.drop_last();
        assert(distinct_keys(head)) by {
            assert forall|i: int, j: int| 0 <= i < j < head.len() implies head[i] != head[j] by {
                assert(s[i] != s[j]);
            }
        }
        lemma_distinct_count(head, key);
        assert(count_of(s, key) == count_of(head, key) + if s.last() == key {
            1nat
        } else {
            0nat
        });
        if s.last() == key {
            if head.contains(key) {
                let i = choose|i: int| 0 <= i < head.len() && head[i] == key;
                assert(s[i] == key);
                assert(s[i] != s[s.len() - 1]);
                assert(false);
            }
            assert(s.contains(key)) by {
                assert(s[s.len() - 1] == key);
            }
        } else {
            if s.contains(key) {
                let i = choose|i: int| 0 <= i < s.len() && s[i] == key;
                assert(i < s.len() - 1);
                assert(head[i] == key);
                assert(head.contains(key));
            } else {
                if head.contains(key) {
                    let i = choose|i: int| 0 <= i < head.len() && head[i] == key;
                    assert(s[i] == key);
                }
            }
        }
    }
}

/// Index of the listing of `key`, where one exists.
pub fn key_index(v: &Vec<Pubkey>, key: Pubkey) -> (r: Option<usize>)
    ensures
        match r {
            Some(i) => i < v@.len() && v@[i as int] == key,
            None => !v@.contains(key),
        },
{
    let mut i: usize = 0;
    while i < v.len()
        invariant
            i <= v@.len(),
            forall|j: int| 0 <= j < i ==> v@[j] != key,
        decreases v@.len() - i,
    {
        if v[i] == key {
            return Some(i);
        }
        i += 1;
    }
    proof {
        if v@.contains(key) {
            let j = choose|j: int| 0 <= j < v@.len() && v@[j] == key;
            assert(v@[j] == key);
        }
    }
    None
}

/// With distinct listings, any listing of `key` stands at `index_of(key)`.
pub proof fn lemma_index_of_unique(s: Seq<Pubkey>, key: Pubkey, i: int)
    requires
        distinct_keys(s),
        0 <= i < s.len(),
        s[i] == key,
    ensures
        s.contains(key),
        s.index_of(key) == i,
{
    assert(s.contains(key));
    let j = s.index_of(key);
    assert(0 <= j < s.len() && s[j] == key);
    if i < j {
        assert(s[i] != s[j]);
    } else if j < i {
        assert(s[j] != s[i]);
    }
}

} // verus!
