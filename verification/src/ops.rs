//! The four operations of the campaign state machine.
//!
//! Each takes the deployment by mutable reference together with the plain
//! observations the host supplies (the caller's identity, already proved by
//! the host's signature check, and the clock reading `now`), and either
//! performs its whole effect or fails with one `ErrorCode` and no effect.

use vstd::prelude::*;
use crate::keys::Pubkey;
use crate::balances::lamports_lookup;
use crate::balances::credit;
use crate::balances::debit;
use crate::balances::close_account;
use crate::campaign::Campaign;
use crate::campaign::fresh_campaign;
use crate::campaign::with_total;
use crate::campaign::has_rec;
use crate::campaign::rec_at;
use crate::campaign::record_index;
use crate::campaign::record_index_mut;
use crate::campaign::lemma_rec_at;
use crate::error::ErrorCode;
use crate::registry::CampaignState;
use crate::registry::count_of;
use crate::registry::key_index;
use crate::registry::lemma_count_push;
use crate::registry::lemma_distinct_count;
use crate::registry::lemma_index_of_unique;
use crate::state::Crowdfunding;
use crate::MAX_CAMPAIGNS;

verus! {

/// Accounts of an `initialize_state` call: the payer creating the registry.
pub struct InitializeState {
    pub user: Pubkey,
}

/// Accounts of a `create_campaign` call: the address derived for the new
/// record and the signing creator.
pub struct CreateCampaign {
    pub campaign: Pubkey,
    pub user: Pubkey,
}

/// Accounts of a `contribute` call: the target record and the signing
/// contributor.
pub struct Contribute {
    pub campaign: Pubkey,
    pub contributor: Pubkey,
}

/// Accounts of a `withdraw` call: the target record and the signing caller,
/// who must own it.
pub struct Withdraw {
    pub campaign: Pubkey,
    pub owner: Pubkey,
}

/// The successful Create transition: the preconditions held, the supplied
/// fields were stored verbatim with the accumulator at zero, the new
/// address was appended to the registry, and nothing else moved.
pub open spec fn create_ok(
    pre: Crowdfunding,
    ctx: CreateCampaign,
    title: String,
    description: String,
    deadline: i64,
    now: i64,
    post: Crowdfunding,
) -> bool {
    &&& deadline > now
    &&& !pre.has_campaign(ctx.campaign)
    &&& pre.registry().len() < MAX_CAMPAIGNS
    &&& post.registry() == pre.registry().push(ctx.campaign)
    &&& post.records@ == pre.records@.push(
        fresh_campaign(ctx.campaign, ctx.user, title, description, deadline),
    )
    &&& post.balances@ == pre.balances@
    &&& post.initialized()
}

/// Create the registry, exactly once per deployment.
pub fn initialize_state(cf: &mut Crowdfunding, ctx: InitializeState) -> (r: Result<
    (),
    ErrorCode,
>)
    requires
        old(cf).wf(),
    ensures
        final(cf).wf(),
        r is Ok <==> !old(cf).initialized(),
        r is Err ==> *final(cf) == *old(cf) && r == Err::<(), ErrorCode>(
            ErrorCode::AlreadyInitialized,
        ),
        r is Ok ==> {
            &&& final(cf).initialized()
            &&& final(cf).registry() =~= Seq::<Pubkey>::empty()
            &&& final(cf).records@ == old(cf).records@
            &&& final(cf).balances@ == old(cf).balances@
        },
{
    if cf.state.is_some() {
        return Err(ErrorCode::AlreadyInitialized);
    }
    cf.state = Some(CampaignState { campaigns: Vec::new() });
    proof {
        assert(old(cf).records@.len() == 0) by {
            if old(cf).records@.len() > 0 {
                assert(old(cf).registry().contains(old(cf).records@[0].id));
                let i = choose|i: int|
                    0 <= i < old(cf).registry().len() && old(cf).registry()[i] == old(
                        cf,
                    ).records@[0].id;
                assert(0 <= i < 0);
            }
        }
        assert forall|i: int|
            0 <= i < final(cf).registry().len() implies has_rec(
            final(cf).records@,
            #[trigger] final(cf).registry()[i],
        ) by {
            assert(0 <= i < 0);
        }
    }
    Ok(())
}

/// Create a campaign: validate the deadline against the clock, refuse a
/// colliding address and a full registry, then store the record and list
/// its address.
pub fn create_campaign(
    cf: &mut Crowdfunding,
    ctx: CreateCampaign,
    title: String,
    description: String,
    deadline: i64,
    now: i64,
) -> (r: Result<(), ErrorCode>)
    requires
        old(cf).wf(),
        old(cf).initialized(),
        title@.len() <= crate::MAX_TITLE_LEN,
        description@.len() <= crate::MAX_DESCRIPTION_LEN,
    ensures
        final(cf).wf(),
        final(cf).initialized(),
        r is Ok <==> (deadline > now && !old(cf).has_campaign(ctx.campaign) && old(
            cf,
        ).registry().len() < MAX_CAMPAIGNS),
        match r {
            Ok(()) => create_ok(*old(cf), ctx, title, description, deadline, now, *final(cf))
                && count_of(final(cf).registry(), ctx.campaign) == 1,
            Err(e) => {
                &&& *final(cf) == *old(cf)
                &&& (e == ErrorCode::DeadlineMustBeInFuture <==> deadline <= now)
                &&& (e == ErrorCode::DuplicateCampaign <==> deadline > now && old(
                    cf,
                ).has_campaign(ctx.campaign))
                &&& (e == ErrorCode::RegistryFull <==> deadline > now && !old(cf).has_campaign(
                    ctx.campaign,
                ) && old(cf).registry().len() >= MAX_CAMPAIGNS)
            },
        },
{
    if deadline <= now {
        return Err(ErrorCode::DeadlineMustBeInFuture);
    }
    match record_index(&cf.records, ctx.campaign) {
        Some(_) => {
            return Err(ErrorCode::DuplicateCampaign);
        }
        None => {}
    }
    proof {
        assert(!old(cf).registry().contains(ctx.campaign)) by {
            if old(cf).registry().contains(ctx.campaign) {
                let i = choose|i: int|
                    0 <= i < old(cf).registry().len() && old(cf).registry()[i] == ctx.campaign;
                assert(has_rec(old(cf).records@, old(cf).registry()[i]));
            }
        }
    }
    let mut st = match cf.state.take() {
        Some(st) => st,
        None => {
            proof {
                assert(false);
            }
            return Err(ErrorCode::InternalInconsistency);
        }
    };
    if st.campaigns.len() >= MAX_CAMPAIGNS {
        cf.state = Some(st);
        return Err(ErrorCode::RegistryFull);
    }
    st.campaigns.push(ctx.campaign);
    cf.state = Some(st);
    cf.records.push(Campaign {
        id: ctx.campaign,
        owner: ctx.user,
        title,
        description,
        deadline,
        total_contribution: 0,
    });
    proof {
        let pre = *old(cf);
        let post = *final(cf);
        let reg0 = pre.registry();
        let reg1 = post.registry();
        assert(reg1 == reg0.push(ctx.campaign));
        // the appended address keeps the listing duplicate-free
        assert forall|i: int, j: int| 0 <= i < j < reg1.len() implies reg1[i] != reg1[j] by {
            if j < reg0.len() {
                assert(reg0[i] != reg0[j]);
            } else {
                assert(reg1[j] == ctx.campaign);
                assert(reg1[i] == reg0[i]);
                if reg0[i] == ctx.campaign {
                    assert(reg0.contains(ctx.campaign));
                }
            }
        }
        // every record's address is listed
        assert forall|i: int| 0 <= i < post.records@.len() implies reg1.contains(
            #[trigger] post.records@[i].id,
        ) by {
            if i < pre.records@.len() {
                assert(reg0.contains(pre.records@[i].id));
                let w = choose|w: int| 0 <= w < reg0.len() && reg0[w] == pre.records@[i].id;
                assert(reg1[w] == pre.records@[i].id);
            } else {
                assert(post.records@[i].id == ctx.campaign);
                assert(reg1[reg0.len() as int] == ctx.campaign);
            }
        }
        // every listed address has its record
        assert forall|i: int| 0 <= i < reg1.len() implies has_rec(
            post.records@,
            #[trigger] reg1[i],
        ) by {
            if i < reg0.len() {
                assert(has_rec(pre.records@, reg0[i]));
                let w = rec_at(pre.records@, reg0[i]);
                assert(0 <= w < pre.records@.len() && pre.records@[w].id == reg0[i]);
                assert(post.records@[w].id == reg0[i]);
            } else {
                assert(post.records@[pre.records@.len() as int].id == ctx.campaign);
            }
        }
        // no address carries two records
        assert forall|i: int, j: int|
            #![trigger post.records@[i].id, post.records@[j].id]
            0 <= i < j < post.records@.len() implies post.records@[i].id != post.records@[j].id by {
            if j < pre.records@.len() {
                assert(pre.records@[i].id != pre.records@[j].id);
            } else {
                assert(post.records@[j].id == ctx.campaign);
                assert(post.records@[i].id == pre.records@[i].id);
                if pre.records@[i].id == ctx.campaign {
                    assert(has_rec(pre.records@, ctx.campaign));
                }
            }
        }
        // field bounds of every record, the fresh one included
        assert forall|i: int| 0 <= i < post.records@.len() implies (
        #[trigger] post.records@[i]).wf() by {
            if i < pre.records@.len() {
                assert(pre.records@[i].wf());
            }
        }
        // the fresh address is listed exactly once
        lemma_distinct_count(reg0, ctx.campaign);
        lemma_count_push(reg0, ctx.campaign, ctx.campaign);
    }
    Ok(())
}

/// The successful Contribute transition: the campaign was still open, the
/// contributor's balance covered `amount`, neither the accumulator nor the
/// record's balance overflowed, and exactly `amount` moved from contributor
/// to record while the accumulator rose by the same `amount`.
pub open spec fn contribute_ok(
    pre: Crowdfunding,
    ctx: Contribute,
    amount: u64,
    now: i64,
    post: Crowdfunding,
) -> bool {
    let c = pre.campaign(ctx.campaign);
    &&& pre.has_campaign(ctx.campaign)
    &&& now < c.deadline
    &&& pre.lamports(ctx.contributor) >= amount
    &&& c.total_contribution + amount <= u64::MAX
    &&& pre.lamports(ctx.campaign) + amount <= u64::MAX
    &&& post.records@ == pre.records@.update(
        rec_at(pre.records@, ctx.campaign),
        with_total(c, (c.total_contribution + amount) as u64),
    )
    &&& post.campaign(ctx.campaign) == with_total(c, (c.total_contribution + amount) as u64)
    &&& post.state == pre.state
    &&& post.lamports(ctx.contributor) == pre.lamports(ctx.contributor) - amount
    &&& post.lamports(ctx.campaign) == pre.lamports(ctx.campaign) + amount
    &&& forall|k: Pubkey|
        k != ctx.contributor && k != ctx.campaign ==> #[trigger] post.lamports(k) == pre.lamports(
            k,
        )
}

/// Contribute `amount` to an open campaign: move the lamports from the
/// contributor to the record and raise the accumulator by the same amount,
/// or fail with no effect.
pub fn contribute(cf: &mut Crowdfunding, ctx: Contribute, amount: u64, now: i64) -> (r: Result<
    (),
    ErrorCode,
>)
    requires
        old(cf).wf(),
        old(cf).has_campaign(ctx.campaign),
        // a record's derived address is no signing identity
        ctx.contributor != ctx.campaign,
        amount >= 1,
    ensures
        final(cf).wf(),
        r is Ok <==> (now < old(cf).campaign(ctx.campaign).deadline && old(cf).lamports(
            ctx.contributor,
        ) >= amount && old(cf).campaign(ctx.campaign).total_contribution + amount <= u64::MAX && old(
            cf,
        ).lamports(ctx.campaign) + amount <= u64::MAX),
        match r {
            Ok(()) => contribute_ok(*old(cf), ctx, amount, now, *final(cf)),
            Err(e) => {
                let c = old(cf).campaign(ctx.campaign);
                &&& *final(cf) == *old(cf)
                &&& (e == ErrorCode::CampaignExpired <==> now >= c.deadline)
                &&& (e == ErrorCode::InsufficientFunds <==> now < c.deadline && old(cf).lamports(
                    ctx.contributor,
                ) < amount)
                &&& (e == ErrorCode::Overflow <==> now < c.deadline && old(cf).lamports(
                    ctx.contributor,
                ) >= amount && (c.total_contribution + amount > u64::MAX || old(cf).lamports(
                    ctx.campaign,
                ) + amount > u64::MAX))
            },
        },
{
    let i = match record_index(&cf.records, ctx.campaign) {
        Some(i) => i,
        None => {
            proof {
                assert(false);
            }
            return Err(ErrorCode::InternalInconsistency);
        }
    };
    proof {
        lemma_rec_at(cf.records@, i as int);
    }
    if now >= cf.records[i].deadline {
        return Err(ErrorCode::CampaignExpired);
    }
    let b = lamports_lookup(&cf.balances, ctx.contributor);
    if b < amount {
        return Err(ErrorCode::InsufficientFunds);
    }
    let new_total = match cf.records[i].total_contribution.checked_add(amount) {
        Some(n) => n,
        None => {
            return Err(ErrorCode::Overflow);
        }
    };
    let held = lamports_lookup(&cf.balances, ctx.campaign);
    match held.checked_add(amount) {
        Some(_) => {}
        None => {
            return Err(ErrorCode::Overflow);
        }
    }
    debit(&mut cf.balances, ctx.contributor, amount);
    let ok = credit(&mut cf.balances, ctx.campaign, amount);
    proof {
        assert(ok);
    }
    let rec = record_index_mut(&mut cf.records, i);
    rec.total_contribution = new_total;
    proof {
        let pre = *old(cf);
        let post = *final(cf);
        let c = pre.campaign(ctx.campaign);
        assert(c == pre.records@[i as int]);
        assert(post.records@ == pre.records@.update(i as int, with_total(c, new_total)));
        lemma_rec_at(post.records@, i as int);
        // addresses are untouched, so every part of the invariant that
        // speaks of them carries over record by record
        assert forall|a: int| 0 <= a < post.records@.len() implies #[trigger] post.records@[a].id
            == pre.records@[a].id by {
        }
        assert forall|a: int, b2: int|
            #![trigger post.records@[a].id, post.records@[b2].id]
            0 <= a < b2 < post.records@.len() implies post.records@[a].id
            != post.records@[b2].id by {
            assert(pre.records@[a].id != pre.records@[b2].id);
        }
        assert forall|a: int| 0 <= a < post.records@.len() implies post.registry().contains(
            #[trigger] post.records@[a].id,
        ) by {
            assert(pre.registry().contains(pre.records@[a].id));
        }
        assert forall|a: int| 0 <= a < post.registry().len() implies has_rec(
            post.records@,
            #[trigger] post.registry()[a],
        ) by {
            assert(has_rec(pre.records@, pre.registry()[a]));
            let w = rec_at(pre.records@, pre.registry()[a]);
            assert(post.records@[w].id == pre.registry()[a]);
        }
        assert forall|a: int| 0 <= a < post.records@.len() implies (
        #[trigger] post.records@[a]).wf() by {
            assert(pre.records@[a].wf());
        }
    }
    Ok(())
}

/// The successful Withdraw transition: the caller owned the record and the
/// deadline had passed; the address left the registry, the record was
/// destroyed, and its whole held balance went to the owner.
pub open spec fn withdraw_ok(
    pre: Crowdfunding,
    ctx: Withdraw,
    now: i64,
    post: Crowdfunding,
) -> bool {
    let c = pre.campaign(ctx.campaign);
    &&& pre.has_campaign(ctx.campaign)
    &&& ctx.owner == c.owner
    &&& now >= c.deadline
    &&& post.registry() == pre.registry().remove(pre.registry().index_of(ctx.campaign))
    &&& post.registry().len() == pre.registry().len() - 1
    &&& !post.registry().contains(ctx.campaign)
    &&& post.records@ == pre.records@.remove(rec_at(pre.records@, ctx.campaign))
    &&& !post.has_campaign(ctx.campaign)
    &&& post.initialized()
    &&& post.lamports(ctx.owner) == pre.lamports(ctx.owner) + pre.lamports(ctx.campaign)
    &&& post.lamports(ctx.campaign) == 0
    &&& forall|k: Pubkey|
        k != ctx.owner && k != ctx.campaign ==> #[trigger] post.lamports(k) == pre.lamports(k)
}

/// Withdraw a settled campaign: only its owner, only once the deadline has
/// passed.  Delists the address, destroys the record and releases the whole
/// held balance to the owner, as one unit.
pub fn withdraw(cf: &mut Crowdfunding, ctx: Withdraw, now: i64) -> (r: Result<(), ErrorCode>)
    requires
        old(cf).wf(),
        old(cf).has_campaign(ctx.campaign),
        // a record's derived address is no signing identity
        ctx.owner != ctx.campaign,
        // the ledger's total supply keeps any one balance representable
        old(cf).lamports(ctx.owner) + old(cf).lamports(ctx.campaign) <= u64::MAX,
    ensures
        final(cf).wf(),
        r is Ok <==> (ctx.owner == old(cf).campaign(ctx.campaign).owner && now >= old(cf).campaign(
            ctx.campaign,
        ).deadline),
        match r {
            Ok(()) => withdraw_ok(*old(cf), ctx, now, *final(cf)),
            Err(e) => {
                let c = old(cf).campaign(ctx.campaign);
                &&& *final(cf) == *old(cf)
                &&& (e == ErrorCode::Unauthorized <==> ctx.owner != c.owner)
                &&& (e == ErrorCode::DeadlineNotReached <==> ctx.owner == c.owner && now
                    < c.deadline)
            },
        },
{
    let i = match record_index(&cf.records, ctx.campaign) {
        Some(i) => i,
        None => {
            proof {
                assert(false);
            }
            return Err(ErrorCode::InternalInconsistency);
        }
    };
    proof {
        lemma_rec_at(cf.records@, i as int);
    }
    if ctx.owner != cf.records[i].owner {
        return Err(ErrorCode::Unauthorized);
    }
    if now < cf.records[i].deadline {
        return Err(ErrorCode::DeadlineNotReached);
    }
    proof {
        assert(old(cf).registry().contains(old(cf).records@[i as int].id));
    }
    let mut st = match cf.state.take() {
        Some(st) => st,
        None => {
            proof {
                assert(false);
            }
            return Err(ErrorCode::InternalInconsistency);
        }
    };
    let j = match key_index(&st.campaigns, ctx.campaign) {
        Some(j) => j,
        None => {
            proof {
                assert(false);
            }
            cf.state = Some(st);
            return Err(ErrorCode::InternalInconsistency);
        }
    };
    proof {
        lemma_index_of_unique(st.campaigns@, ctx.campaign, j as int);
        st.campaigns@.remove_ensures(j as int);
    }
    let ghost reg0 = st.campaigns@;
    st.campaigns.remove(j);
    cf.state = Some(st);
    cf.records.remove(i);
    let held = close_account(&mut cf.balances, ctx.campaign);
    let ok = credit(&mut cf.balances, ctx.owner, held);
    proof {
        assert(ok);
        let pre = *old(cf);
        let post = *final(cf);
        let reg1 = post.registry();
        assert(reg0 == pre.registry());
        assert(reg1 == reg0.remove(j as int));
        assert(pre.registry().index_of(ctx.campaign) == j as int);
        // the delisted address was listed once, so it is gone
        assert forall|a: int| 0 <= a < reg1.len() implies #[trigger] reg1[a] != ctx.campaign by {
            let a0 = if a < j as int { a } else { a + 1 };
            assert(reg1[a] == reg0[a0]);
            if reg0[a0] == ctx.campaign {
                lemma_index_of_unique(reg0, ctx.campaign, a0);
            }
        }
        assert(!reg1.contains(ctx.campaign));
        // delisting keeps the listing duplicate-free
        assert forall|a: int, b2: int| 0 <= a < b2 < reg1.len() implies reg1[a] != reg1[b2] by {
            let a0 = if a < j as int { a } else { a + 1 };
            let b0 = if b2 < j as int { b2 } else { b2 + 1 };
            assert(reg1[a] == reg0[a0]);
            assert(reg1[b2] == reg0[b0]);
            assert(reg0[a0] != reg0[b0]);
        }
        // the destroyed record's address carried no other record
        pre.records@.remove_ensures(i as int);
        assert forall|a: int| 0 <= a < post.records@.len() implies #[trigger] post.records@[a].id
            != ctx.campaign by {
            let a0 = if a < i as int { a } else { a + 1 };
            assert(post.records@[a] == pre.records@[a0]);
            if pre.records@[a0].id == ctx.campaign {
                lemma_rec_at(pre.records@, a0);
                lemma_rec_at(pre.records@, i as int);
            }
        }
        assert(!has_rec(post.records@, ctx.campaign)) by {
            if has_rec(post.records@, ctx.campaign) {
                let w = rec_at(post.records@, ctx.campaign);
                assert(0 <= w < post.records@.len() && post.records@[w].id == ctx.campaign);
            }
        }
        // record addresses stay pairwise distinct
        assert forall|a: int, b2: int|
            #![trigger post.records@[a].id, post.records@[b2].id]
            0 <= a < b2 < post.records@.len() implies post.records@[a].id
            != post.records@[b2].id by {
            let a0 = if a < i as int { a } else { a + 1 };
            let b0 = if b2 < i as int { b2 } else { b2 + 1 };
            assert(post.records@[a] == pre.records@[a0]);
            assert(post.records@[b2] == pre.records@[b0]);
            assert(pre.records@[a0].id != pre.records@[b0].id);
        }
        // every surviving record is still listed
        assert forall|a: int| 0 <= a < post.records@.len() implies reg1.contains(
            #[trigger] post.records@[a].id,
        ) by {
            let a0 = if a < i as int { a } else { a + 1 };
            assert(post.records@[a] == pre.records@[a0]);
            assert(pre.registry().contains(pre.records@[a0].id));
            let w = choose|w: int| 0 <= w < reg0.len() && reg0[w] == pre.records@[a0].id;
            assert(post.records@[a].id != ctx.campaign);
            assert(reg0[j as int] == ctx.campaign);
            let wt = if w < j as int { w } else { w - 1 };
            assert(reg1[wt] == reg0[w]);
        }
        // every surviving listing keeps its record
        assert forall|a: int| 0 <= a < reg1.len() implies has_rec(
            post.records@,
            #[trigger] reg1[a],
        ) by {
            let a0 = if a < j as int { a } else { a + 1 };
            assert(reg1[a] == reg0[a0]);
            assert(has_rec(pre.records@, reg0[a0]));
            let w = rec_at(pre.records@, reg0[a0]);
            assert(0 <= w < pre.records@.len() && pre.records@[w].id == reg0[a0]);
            assert(reg1[a] != ctx.campaign);
            assert(pre.records@[i as int].id == ctx.campaign);
            let wt = if w < i as int { w } else { w - 1 };
            assert(post.records@[wt] == pre.records@[w]);
            assert(post.records@[wt].id == reg1[a]);
        }
        // field bounds carry over
        assert forall|a: int| 0 <= a < post.records@.len() implies (
        #[trigger] post.records@[a]).wf() by {
            let a0 = if a < i as int { a } else { a + 1 };
            assert(post.records@[a] == pre.records@[a0]);
            assert(pre.records@[a0].wf());
        }
    }
    Ok(())
}

} // verus!
