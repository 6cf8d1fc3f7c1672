//! The lamport balances of the deployment, as a table of one entry per
//! account.  An account without an entry holds zero lamports.

use vstd::prelude::*;
use crate::keys::Pubkey;

verus! {

/// One account's balance.
#[derive(Clone, Copy, PartialEq, Eq, Structural, Debug)]
pub struct AccountBalance {
    pub key: Pubkey,
    pub lamports: u64,
}

/// No two entries name the same account.
pub open spec fn distinct_balance_keys(s: Seq<AccountBalance>) -> bool {
    forall|i: int, j: int|
        #![trigger s[i].key, s[j].key]
        0 <= i < j < s.len() ==> s[i].key != s[j].key
}

/// Some entry names `key`.
pub open spec fn has_key(s: Seq<AccountBalance>, key: Pubkey) -> bool {
    exists|i: int| 0 <= i < s.len() && #[trigger] s[i].key == key
}

/// An index of an entry naming `key`, where one exists.
pub open spec fn key_at(s: Seq<AccountBalance>, key: Pubkey) -> int {
    choose|i: int| 0 <= i < s.len() && #[trigger] s[i].key == key
}

/// Lamports held by `key`: the entry's balance where an entry exists, zero
/// where none does.
pub open spec fn spec_lamports(s: Seq<AccountBalance>, key: Pubkey) -> u64 {
    if has_key(s, key) {
        s[key_at(s, key)].lamports
    } else {
        0
    }
}

/// In a table with distinct keys, the entry at `i` is the one entry for its
/// key, so it alone gives that key's balance.
pub proof fn lemma_lamports_at(s: Seq<AccountBalance>, i: int)
    requires
        distinct_balance_keys(s),
        0 <= i < s.len(),
    ensures
        has_key(s, s[i].key),
        key_at(s, s[i].key) == i,
        spec_lamports(s, s[i].key) == s[i].lamports,
{
    assert(has_key(s, s[i].key));
    let j = key_at(s, s[i].key);
    assert(0 <= j < s.len() && s[j].key == s[i].key);
    if i < j {
        assert(s[i].key != s[j].key);
    } else if j < i {
        assert(s[j].key != s[i].key);
    }
}

/// Replacing the entry at `i` by one with the same key moves that key's
/// balance and no other.
pub proof fn lemma_lamports_update(s: Seq<AccountBalance>, i: int, e: AccountBalance)
    requires
        distinct_balance_keys(s),
        0 <= i < s.len(),
        e.key == s[i].key,
    ensures
        distinct_balance_keys(s.update(i, e)),
        spec_lamports(s.update(i, e), e.key) == e.lamports,
        forall|k: Pubkey|
            k != e.key ==> #[trigger] spec_lamports(s.update(i, e), k) == spec_lamports(s, k),
{
    let t = s.update(i, e);
    assert forall|a: int| 0 <= a < t.len() implies #[trigger] t[a].key == s[a].key by {
    }
    lemma_lamports_at(t, i);
    assert forall|k: Pubkey|
        k != e.key implies #[trigger] spec_lamports(t, k) == spec_lamports(s, k) by {
        if has_key(s, k) {
            let j = key_at(s, k);
            assert(0 <= j < s.len() && s[j].key == k);
            lemma_lamports_at(s, j);
            lemma_lamports_at(t, j);
        } else {
            if has_key(t, k) {
                let j = key_at(t, k);
                assert(0 <= j < t.len() && t[j].key == k);
                assert(s[j].key == k);
            }
        }
    }
}

/// Appending an entry for an absent key gives that key its balance and
/// leaves every other key's balance as it was.
pub proof fn lemma_lamports_push(s: Seq<AccountBalance>, e: AccountBalance)
    requires
        distinct_balance_keys(s),
        !has_key(s, e.key),
    ensures
        distinct_balance_keys(s.push(e)),
        spec_lamports(s.push(e), e.key) == e.lamports,
        forall|k: Pubkey|
            k != e.key ==> #[trigger] spec_lamports(s.push(e), k) == spec_lamports(s, k),
{
    let t = s.push(e);
    assert forall|a: int| 0 <= a < s.len() implies #[trigger] t[a].key == s[a].key by {
    }
    assert(t[s.len() as int].key == e.key);
    assert forall|i: int, j: int|
        #![trigger t[i].key, t[j].key]
        0 <= i < j < t.len() implies t[i].key != t[j].key by {
        if j < s.len() {
            assert(s[i].key != s[j].key);
        } else {
            assert(t[j].key == e.key);
            assert(s[i].key == t[i].key);
        }
    }
    lemma_lamports_at(t, s.len() as int);
    assert forall|k: Pubkey|
        k != e.key implies #[trigger] spec_lamports(t, k) == spec_lamports(s, k) by {
        if has_key(s, k) {
            let j = key_at(s, k);
            assert(0 <= j < s.len() && s[j].key == k);
            lemma_lamports_at(s, j);
            lemma_lamports_at(t, j);
        } else {
            if has_key(t, k) {
                let j = key_at(t, k);
                assert(0 <= j < t.len() && t[j].key == k);
                assert(j != s.len());
                assert(s[j].key == k);
            }
        }
    }
}

/// Removing the entry at `i` zeroes its key's balance and leaves every other
/// key's balance as it was.
pub proof fn lemma_lamports_remove(s: Seq<AccountBalance>, i: int)
    requires
        distinct_balance_keys(s),
        0 <= i < s.len(),
    ensures
        distinct_balance_keys(s.remove(i)),
        spec_lamports(s.remove(i), s[i].key) == 0,
        forall|k: Pubkey|
            k != s[i].key ==> #[trigger] spec_lamports(s.remove(i), k) == spec_lamports(s, k),
{
    let t = s.remove(i);
    s.remove_ensures(i);
    assert forall|a: int| 0 <= a < t.len() implies #[trigger] t[a].key
        == (if a < i { s[a].key } else { s[a + 1].key }) by {
    }
    assert forall|a: int, b: int|
        #![trigger t[a].key, t[b].key]
        0 <= a < b < t.len() implies t[a].key != t[b].key by {
        let a0 = if a < i { a } else { a + 1 };
        let b0 = if b < i { b } else { b + 1 };
        assert(s[a0].key != s[b0].key);
    }
    if has_key(t, s[i].key) {
        let j = key_at(t, s[i].key);
        assert(0 <= j < t.len() && t[j].key == s[i].key);
        let j0 = if j < i { j } else { j + 1 };
        assert(s[j0].key == s[i].key);
        lemma_lamports_at(s, j0);
        lemma_lamports_at(s, i);
        assert(false);
    }
    assert forall|k: Pubkey|
        k != s[i].key implies #[trigger] spec_lamports(t, k) == spec_lamports(s, k) by {
        if has_key(s, k) {
            let j = key_at(s, k);
            assert(0 <= j < s.len() && s[j].key == k);
            lemma_lamports_at(s, j);
            let jt = if j < i { j } else { j - 1 };
            assert(t[jt].key == k);
            lemma_lamports_at(t, jt);
        } else {
            if has_key(t, k) {
                let j = key_at(t, k);
                assert(0 <= j < t.len() && t[j].key == k);
                let j0 = if j < i { j } else { j + 1 };
                assert(s[j0].key == k);
            }
        }
    }
}

/// Index of the entry naming `key`, where one exists.
pub fn balance_index(v: &Vec<AccountBalance>, key: Pubkey) -> (r: Option<usize>)
    ensures
        match r {
            Some(i) => i < v@.len() && v@[i as int].key == key,
            None => !has_key(v@, key),
        },
{
    let mut i: usize = 0;
    while i < v.len()
        invariant
            i <= v@.len(),
            forall|j: int| 0 <= j < i ==> #[trigger] v@[j].key != key,
        decreases v@.len() - i,
    {
        if v[i].key == key {
            return Some(i);
        }
        i += 1;
    }
    proof {
        if has_key(v@, key) {
            let j = key_at(v@, key);
            assert(0 <= j < v@.len() && v@[j].key == key);
        }
    }
    None
}

/// Balance held by `key`.
pub fn lamports_lookup(v: &Vec<AccountBalance>, key: Pubkey) -> (r: u64)
    requires
        distinct_balance_keys(v@),
    ensures
        r == spec_lamports(v@, key),
{
    match balance_index(v, key) {
        Some(i) => {
            proof {
                lemma_lamports_at(v@, i as int);
            }
            v[i].lamports
        }
        None => 0,
    }
}

/// Add `amount` to `key`'s balance.  Returns false, changing nothing, where
/// the addition would exceed `u64::MAX`.
pub fn credit(v: &mut Vec<AccountBalance>, key: Pubkey, amount: u64) -> (r: bool)
    requires
        distinct_balance_keys(old(v)@),
    ensures
        distinct_balance_keys(final(v)@),
        r == (spec_lamports(old(v)@, key) + amount <= u64::MAX),
        r ==> spec_lamports(final(v)@, key) == spec_lamports(old(v)@, key) + amount,
        forall|k: Pubkey|
            k != key ==> #[trigger] spec_lamports(final(v)@, k) == spec_lamports(old(v)@, k),
        !r ==> *final(v) == *old(v),
{
    match balance_index(v, key) {
        Some(i) => {
            proof {
                lemma_lamports_at(v@, i as int);
            }
            match v[i].lamports.checked_add(amount) {
                Some(n) => {
                    proof {
                        lemma_lamports_update(v@, i as int, (AccountBalance { key, lamports: n }));
                    }
                    let entry = v_index_mut(v, i);
                    *entry = AccountBalance { key, lamports: n };
                    true
                }
                None => false,
            }
        }
        None => {
            proof {
                lemma_lamports_push(v@, (AccountBalance { key, lamports: amount }));
            }
            v.push(AccountBalance { key, lamports: amount });
            true
        }
    }
}

/// Take `amount` out of `key`'s balance, which must cover it.
pub fn debit(v: &mut Vec<AccountBalance>, key: Pubkey, amount: u64)
    requires
        distinct_balance_keys(old(v)@),
        spec_lamports(old(v)@, key) >= amount,
    ensures
        distinct_balance_keys(final(v)@),
        spec_lamports(final(v)@, key) == spec_lamports(old(v)@, key) - amount,
        forall|k: Pubkey|
            k != key ==> #[trigger] spec_lamports(final(v)@, k) == spec_lamports(old(v)@, k),
{
    match balance_index(v, key) {
        Some(i) => {
            proof {
                lemma_lamports_at(v@, i as int);
            }
            let n = v[i].lamports - amount;
            proof {
                lemma_lamports_update(v@, i as int, (AccountBalance { key, lamports: n }));
            }
            let entry = v_index_mut(v, i);
            *entry = AccountBalance { key, lamports: n };
        }
        None => {
        }
    }
}

/// Drop `key`'s entry, handing back whatever it held.
pub fn close_account(v: &mut Vec<AccountBalance>, key: Pubkey) -> (r: u64)
    requires
        distinct_balance_keys(old(v)@),
    ensures
        distinct_balance_keys(final(v)@),
        r == spec_lamports(old(v)@, key),
        spec_lamports(final(v)@, key) == 0,
        forall|k: Pubkey|
            k != key ==> #[trigger] spec_lamports(final(v)@, k) == spec_lamports(old(v)@, k),
{
    match balance_index(v, key) {
        Some(i) => {
            proof {
                lemma_lamports_at(v@, i as int);
                lemma_lamports_remove(v@, i as int);
            }
            let entry = v.remove(i);
            entry.lamports
        }
        None => 0,
    }
}

/// Mutable access to the entry at `i`.
fn v_index_mut(v: &mut Vec<AccountBalance>, i: usize) -> (element: &mut AccountBalance)
    requires
        i < old(v).len(),
    ensures
        *element == old(v)@[i as int],
        final(v)@ == old(v)@.update(i as int, *final(element)),
{
    &mut v[i]
}

} // verus!
