//! The whole deployment as one value: registry, campaign records and
//! account balances.  Its well-formedness invariant ties the three together
//! and every operation preserves it.

use vstd::prelude::*;
use crate::keys::Pubkey;
use crate::balances::AccountBalance;
use crate::balances::distinct_balance_keys;
use crate::balances::spec_lamports;
use crate::balances::lamports_lookup;
use crate::balances::credit;
use crate::campaign::Campaign;
use crate::campaign::distinct_ids;
use crate::campaign::has_rec;
use crate::campaign::rec_at;
use crate::campaign::record_index;
use crate::campaign::lemma_rec_at;
use crate::error::ErrorCode;
use crate::registry::CampaignState;
use crate::registry::distinct_keys;
use crate::MAX_CAMPAIGNS;

verus! {

/// One deployment of the crowdfunding ledger.
pub struct Crowdfunding {
    /// The singleton registry; absent until `initialize_state` has run.
    pub state: Option<CampaignState>,
    /// The live campaign records, one per registry entry.
    pub records: Vec<Campaign>,
    /// Lamport balances of every account the deployment has seen.
    pub balances: Vec<AccountBalance>,
}

impl Crowdfunding {
    /// The registry listing; empty while the registry does not exist.
    pub open spec fn registry(self) -> Seq<Pubkey> {
        match self.state {
            Some(st) => st.campaigns@,
            None => Seq::<Pubkey>::empty(),
        }
    }

    /// Whether `initialize_state` has run.
    pub open spec fn initialized(self) -> bool {
        self.state is Some
    }

    /// Whether a live campaign has address `id`.
    pub open spec fn has_campaign(self, id: Pubkey) -> bool {
        has_rec(self.records@, id)
    }

    /// The live campaign at address `id`, where one exists.
    pub open spec fn campaign(self, id: Pubkey) -> Campaign {
        self.records@[rec_at(self.records@, id)]
    }

    /// Lamports held by `key`.
    pub open spec fn lamports(self, key: Pubkey) -> u64 {
        spec_lamports(self.balances@, key)
    }

    /// The deployment invariant: the registry is within capacity and free of
    /// duplicates, records and registry list exactly the same addresses, no
    /// address carries two records, every record keeps its field bounds, and
    /// the balance table has one entry per account.
    pub open spec fn wf(self) -> bool {
        &&& self.registry().len() <= MAX_CAMPAIGNS
        &&& distinct_keys(self.registry())
        &&& distinct_ids(self.records@)
        &&& forall|i: int|
            0 <= i < self.records@.len() ==> self.registry().contains(
                #[trigger] self.records@[i].id,
            )
        &&& forall|i: int|
            0 <= i < self.registry().len() ==> has_rec(self.records@, #[trigger] self.registry()[i])
        &&& forall|i: int| 0 <= i < self.records@.len() ==> (#[trigger] self.records@[i]).wf()
        &&& distinct_balance_keys(self.balances@)
    }

    /// A deployment with no registry, no records and no balances.
    pub fn new() -> (r: Crowdfunding)
        ensures
            r.wf(),
            !r.initialized(),
            r.records@.len() == 0,
            r.balances@.len() == 0,
            forall|k: Pubkey| #[trigger] r.lamports(k) == 0,
    {
        let r = Crowdfunding { state: None, records: Vec::new(), balances: Vec::new() };
        proof {
            assert forall|k: Pubkey| #[trigger] r.lamports(k) == 0 by {
                if crate::balances::has_key(r.balances@, k) {
                    let i = crate::balances::key_at(r.balances@, k);
                    assert(0 <= i < r.balances@.len());
                }
            }
        }
        r
    }

    /// Put `amount` fresh lamports into `key`'s balance, as the host's
    /// faucet does.  Fails with `Overflow` where the balance cannot take it.
    pub fn airdrop(&mut self, key: Pubkey, amount: u64) -> (r: Result<(), ErrorCode>)
        requires
            old(self).wf(),
        ensures
            final(self).wf(),
            final(self).state == old(self).state,
            final(self).records@ == old(self).records@,
            r is Ok <==> old(self).lamports(key) + amount <= u64::MAX,
            r is Err ==> *final(self) == *old(self) && r == Err::<(), ErrorCode>(
                ErrorCode::Overflow,
            ),
            r is Ok ==> final(self).lamports(key) == old(self).lamports(key) + amount,
            forall|k: Pubkey|
                k != key ==> #[trigger] final(self).lamports(k) == old(self).lamports(k),
    {
        let ok = credit(&mut self.balances, key, amount);
        if ok {
            Ok(())
        } else {
            Err(ErrorCode::Overflow)
        }
    }

    /// Balance held by `key`.
    pub fn lamports_of(&self, key: Pubkey) -> (r: u64)
        requires
            self.wf(),
        ensures
            r == self.lamports(key),
    {
        lamports_lookup(&self.balances, key)
    }

    /// The live campaign at address `id`, where one exists.
    pub fn get_campaign(&self, id: Pubkey) -> (r: Option<&Campaign>)
        requires
            self.wf(),
        ensures
            match r {
                Some(c) => self.has_campaign(id) && *c == self.campaign(id) && c.id == id,
                None => !self.has_campaign(id),
            },
    {
        match record_index(&self.records, id) {
            Some(i) => {
                proof {
                    lemma_rec_at(self.records@, i as int);
                }
                Some(&self.records[i])
            }
            None => None,
        }
    }

    /// Whether the registry lists `id`.
    pub fn registry_contains(&self, id: Pubkey) -> (r: bool)
        ensures
            r == self.registry().contains(id),
    {
        match &self.state {
            Some(st) => {
                match crate::registry::key_index(&st.campaigns, id) {
                    Some(i) => {
                        proof {
                            assert(self.registry()[i as int] == id);
                        }
                        true
                    }
                    None => false,
                }
            }
            None => {
                proof {
                    if self.registry().contains(id) {
                        let i = choose|i: int|
                            0 <= i < self.registry().len() && self.registry()[i] == id;
                        assert(0 <= i < 0);
                    }
                }
                false
            }
        }
    }

    /// How many campaigns the registry lists.
    pub fn registry_len(&self) -> (r: usize)
        ensures
            r == self.registry().len(),
    {
        match &self.state {
            Some(st) => st.campaigns.len(),
            None => 0,
        }
    }
}

} // verus!
