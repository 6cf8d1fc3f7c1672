//! Laws that relate whole chains of operations, proved from the
//! transition relations that the operations' contracts establish.

use vstd::prelude::*;
use crate::keys::Pubkey;
use crate::campaign::with_total;
use crate::campaign::rec_at;
use crate::ops::Contribute;
use crate::ops::contribute_ok;
use crate::state::Crowdfunding;

verus! {

/// Sum of a listing of contribution amounts.
pub open spec fn sum_of(amounts: Seq<u64>) -> int
    decreases amounts.len(),
{
    if amounts.len() == 0 {
        0
    } else {
        sum_of(amounts.drop_last()) + amounts.last()
    }
}

/// Law: across any chain of successful Contribute calls against one
/// campaign, the accumulator ends at its starting value plus the exact sum
/// of the amounts — no contribution is lost and none is counted twice.
///
/// `states` holds the deployment before the first call and after each one;
/// call `k` ran with accounts `ctxs[k]`, amount `amounts[k]` and clock
/// reading `nows[k]`, against the campaign at `id`, and succeeded.
pub proof fn law_contribution_sum(
    states: Seq<Crowdfunding>,
    ctxs: Seq<Contribute>,
    amounts: Seq<u64>,
    nows: Seq<i64>,
    id: Pubkey,
)
    requires
        states.len() == amounts.len() + 1,
        ctxs.len() == amounts.len(),
        nows.len() == amounts.len(),
        forall|k: int| 0 <= k < amounts.len() ==> (#[trigger] ctxs[k]).campaign == id,
        forall|k: int|
            0 <= k < amounts.len() ==> contribute_ok(
                states[k],
                ctxs[k],
                #[trigger] amounts[k],
                nows[k],
                states[k + 1],
            ),
        states[0].has_campaign(id),
    ensures
        states.last().has_campaign(id),
        states.last().campaign(id).total_contribution == states[0].campaign(
            id,
        ).total_contribution + sum_of(amounts),
        states.last().lamports(id) == states[0].lamports(id) + sum_of(amounts),
    decreases amounts.len(),
{
    if amounts.len() == 0 {
        assert(states.last() == states[0]);
    } else {
        let n = amounts.len() as int;
        law_contribution_sum(
            states.drop_last(),
            ctxs.drop_last(),
            amounts.drop_last(),
            nows.drop_last(),
            id,
        );
        let pre = states[n - 1];
        let post = states[n];
        assert(states.drop_last().last() == pre);
        assert(contribute_ok(pre, ctxs[n - 1], amounts[n - 1], nows[n - 1], post));
        let c = pre.campaign(id);
        let w = rec_at(pre.records@, id);
        assert(0 <= w < pre.records@.len() && pre.records@[w].id == id);
        assert(post.records@[w] == with_total(c, (c.total_contribution + amounts[n - 1]) as u64));
        assert(post.has_campaign(id)) by {
            assert(post.records@[w].id == id);
        }
        assert(post.campaign(id).total_contribution == c.total_contribution + amounts[n - 1]);
        assert(states.last() == post);
    }
}

/// Law: a campaign created and later withdrawn leaves the registry exactly
/// as it stood before the create — settling a campaign undoes its listing.
pub proof fn law_create_withdraw_restores_registry(
    s0: Crowdfunding,
    ctx_c: crate::ops::CreateCampaign,
    title: String,
    description: String,
    deadline: i64,
    now_c: i64,
    s1: Crowdfunding,
    ctx_w: crate::ops::Withdraw,
    now_w: i64,
    s2: Crowdfunding,
)
    requires
        s0.wf(),
        crate::ops::create_ok(s0, ctx_c, title, description, deadline, now_c, s1),
        crate::ops::withdraw_ok(s1, ctx_w, now_w, s2),
        ctx_w.campaign == ctx_c.campaign,
    ensures
        s2.registry() =~= s0.registry(),
{
    let id = ctx_c.campaign;
    let reg0 = s0.registry();
    let reg1 = s1.registry();
    assert(reg1 == reg0.push(id));
    assert(!reg0.contains(id)) by {
        if reg0.contains(id) {
            let i = choose|i: int| 0 <= i < reg0.len() && reg0[i] == id;
            assert(crate::campaign::has_rec(s0.records@, reg0[i]));
        }
    }
    let n = reg0.len() as int;
    assert(reg1[n] == id);
    assert forall|i: int, j: int| 0 <= i < j < reg1.len() implies reg1[i] != reg1[j] by {
        if j < n {
            assert(reg0[i] != reg0[j]);
        } else {
            assert(reg1[j] == id);
            assert(reg1[i] == reg0[i]);
            if reg0[i] == id {
                assert(reg0.contains(id));
            }
        }
    }
    crate::registry::lemma_index_of_unique(reg1, id, n);
    assert(s2.registry() == reg1.remove(n));
    reg1.remove_ensures(n);
    assert forall|i: int| 0 <= i < n implies reg1.remove(n)[i] == reg0[i] by {
        assert(reg1.remove(n)[i] == reg1[i]);
    }
}

} // verus!
