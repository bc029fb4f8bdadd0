//! Preservation proofs: every successful transition of the ghost model
//! keeps the engine's structural invariant.

use vstd::prelude::*;

use crate::ledger::{
    AccountModel, CycleModel, bumped_penalty, default_penalty, grant_refunds, has_pen, has_rec,
    has_refund_rec, lemma_count_in_favor_push, lemma_grant_refunds, lemma_has_rec_push,
    lemma_late_penalty_bounds, lemma_pen_index, lemma_pool_bound, lemma_refund_index,
    lemma_reliability_bounds, lemma_sum_penalties_push, pen_index, refund_index, refund_of,
    upsert_penalty,
};
use crate::model::ContractModel;
use crate::seq_facts::{lemma_distinct_within_len, lemma_push_preserves_contains};
use crate::types::{reliability_of, RefundReason, RefundVote, VOTING_PERIOD};

verus! {

/// A fresh group's account is well formed, so creating a group preserves
/// the engine invariant.
pub proof fn lemma_after_create_wf(
    m: ContractModel,
    creator: u64,
    contribution_amount: i128,
    cycle_duration: u64,
    max_members: u32,
    grace_period: u64,
    penalty_rate: u32,
    now: u64,
)
    requires
        m.wf(),
        m.create_check(
            contribution_amount,
            cycle_duration,
            max_members,
            grace_period,
            penalty_rate,
        ) is None,
        m.groups.len() + 1 <= u64::MAX,
    ensures
        m.after_create(
            creator,
            contribution_amount,
            cycle_duration,
            max_members,
            grace_period,
            penalty_rate,
            now,
        ).wf(),
{
    let out = m.after_create(
        creator,
        contribution_amount,
        cycle_duration,
        max_members,
        grace_period,
        penalty_rate,
        now,
    );
    let gid = (m.groups.len() + 1) as u64;
    let a = AccountModel::initial(
        gid,
        creator,
        contribution_amount,
        cycle_duration,
        max_members,
        grace_period,
        penalty_rate,
        now,
    );
    assert(a.group.members.len() == 1);
    assert(a.group.members[0] == creator);
    assert(a.paid_out =~= a.group.members.take(0));
    assert(a.cycles[0].records.len() == 0);
    assert(crate::ledger::sum_penalties(a.cycles[0].records) == 0);
    assert(a.wf());
    assert(forall|i: int|
        0 <= i < m.groups.len() ==> out.groups[i] == #[trigger] m.groups[i]);
    assert(out.groups[m.groups.len() as int] == a);
}

/// Admitting a new member preserves the engine invariant.
pub proof fn lemma_after_join_wf(m: ContractModel, member: u64, gid: u64)
    requires
        m.wf(),
        m.join_check(member, gid) is None,
    ensures
        m.after_join(member, gid).wf(),
{
    let out = m.after_join(member, gid);
    let a = m.account_of(gid);
    let g = a.group;
    let a2 = out.account_of(gid);
    let g2 = a2.group;
    assert(a.wf());
    lemma_push_preserves_contains(g.members, member);
    assert(g2.members.no_duplicates()) by {
        assert forall|i: int, j: int|
            0 <= i < g2.members.len() && 0 <= j < g2.members.len() && i != j implies g2.members[i]
            != g2.members[j] by {
            if i < g.members.len() && j < g.members.len() {
                assert(g.members[i] != g.members[j]);
            } else if j == g.members.len() {
                assert(g2.members[j] == member);
                assert(g.members.contains(g.members[i]));
            } else if i == g.members.len() {
                assert(g2.members[i] == member);
                assert(g.members.contains(g.members[j]));
            }
        }
    }
    assert(g2.wf());
    assert(a2.paid_out =~= g2.members.take(g2.payout_index as int)) by {
        assert(forall|k: int|
            0 <= k < g2.payout_index ==> g2.members[k] == #[trigger] g.members[k]);
    }
    assert forall|c: int| 0 <= c < a2.cycles.len() implies (#[trigger] a2.cycles[c]).wf(
        g2,
        (c + 1) as u32,
    ) by {
        assert(a.cycles[c].wf(g, (c + 1) as u32));
    }
    assert(a2.cur() == a.cur());
    assert(a2.wf());
    assert(forall|i: int|
        0 <= i < out.groups.len() && i != gid - 1 ==> out.groups[i] == #[trigger] m.groups[i]);
}

/// Recording a contribution preserves the engine invariant. The headroom
/// bound on the contribution amount keeps the pool and aggregate sums
/// representable.
pub proof fn lemma_after_contribute_wf(m: ContractModel, member: u64, gid: u64, now: u64)
    requires
        m.wf(),
        m.contribute_check(member, gid, now) is None,
        101 * m.group_of(gid).contribution_amount <= i128::MAX,
    ensures
        m.after_contribute(member, gid, now).wf(),
{
    let out = m.after_contribute(member, gid, now);
    let a = m.account_of(gid);
    let g = a.group;
    assert(a.wf());
    assert(g.id == gid);
    assert(g.current_cycle <= 100);
    let amount = g.contribution_amount;
    let rec = m.contribution_made(member, gid, now);
    let penalized = rec.is_late && rec.penalty_amount > 0;
    let c = g.current_cycle - 1;
    let led = a.cycles[c];
    assert(led.wf(g, g.current_cycle));
    lemma_late_penalty_bounds(amount, g.penalty_rate);
    assert(0 <= rec.penalty_amount <= amount);
    lemma_pool_bound(led, g, g.current_cycle);
    lemma_sum_penalties_push(led.records, rec);
    lemma_has_rec_push(led.records, rec);
    assert(!has_rec(led.records, member));
    let led2 = CycleModel {
        records: led.records.push(rec),
        penalty_pool: (led.penalty_pool + rec.penalty_amount) as i128,
    };
    assert(led2.wf(g, g.current_cycle)) by {
        assert forall|i: int, j: int|
            0 <= i < j < led2.records.len() implies led2.records[i].member != led2.records[
        j].member by {
            if j == led.records.len() {
                assert(led.records[i].member == led2.records[i].member);
                assert(has_rec(led.records, led.records[i].member));
            } else {
                assert(led.records[i].member != led.records[j].member);
            }
        }
        assert(forall|i: int|
            0 <= i < led.records.len() ==> led2.records[i] == #[trigger] led.records[i]);
        assert(led2.records[led.records.len() as int] == rec);
    }
    let ps2 = upsert_penalty(a.penalties, gid, member, penalized, rec.penalty_amount);
    let a2 = out.account_of(gid);
    assert(a2.group == g);
    assert(a2.cycles == a.cycles.update(c, led2));
    assert(a2.cur() == led2);
    assert(a2.penalties == ps2);

    // Contribution presence in the new current ledger, per member.
    assert(led2.contributed(member));
    assert(forall|x: u64| x != member ==> led2.contributed(x) == led.contributed(x));

    // The updated penalty aggregates stay well formed.
    if has_pen(a.penalties, member) {
        let idx = pen_index(a.penalties, member);
        lemma_pen_index(a.penalties, member);
        let p = a.penalties[idx];
        assert(p.member == member);
        assert(p.late_count + p.on_time_count + 1 <= g.current_cycle);
        let b = bumped_penalty(p, penalized, rec.penalty_amount);
        lemma_reliability_bounds(b.on_time_count, b.late_count);
        assert(0 <= reliability_of(b.on_time_count, b.late_count) <= 100);
        assert(b.reliability_score == reliability_of(b.on_time_count, b.late_count));
        assert(p.late_count * amount <= 100 * amount) by (nonlinear_arith)
            requires
                p.late_count <= 100,
                amount >= 0,
        ;
        assert((p.late_count + 1) * amount == p.late_count * amount + amount) by (nonlinear_arith);
        assert(0 <= b.total_penalties <= b.late_count * amount);
        assert(ps2 == a.penalties.update(idx, b));
        assert forall|i: int| 0 <= i < ps2.len() implies {
            let p2 = #[trigger] ps2[i];
            &&& g.members.contains(p2.member)
            &&& p2.group_id == g.id
            &&& p2.late_count + p2.on_time_count + (if led2.contributed(p2.member) {
                0int
            } else {
                1int
            }) <= g.current_cycle
            &&& 0 <= p2.total_penalties <= p2.late_count * amount
            &&& p2.reliability_score == reliability_of(p2.on_time_count, p2.late_count)
        } by {
            if i == idx {
            } else {
                assert(ps2[i] == a.penalties[i]);
                assert(a.penalties[i].member != member) by {
                    if a.penalties[i].member == member {
                        if i < idx {
                            assert(a.penalties[i].member != a.penalties[idx].member);
                        } else {
                            assert(a.penalties[idx].member != a.penalties[i].member);
                        }
                    }
                }
            }
        }
        assert(forall|i: int|
            0 <= i < ps2.len() ==> (#[trigger] ps2[i]).member == a.penalties[i].member);
    } else {
        let b = bumped_penalty(default_penalty(gid, member), penalized, rec.penalty_amount);
        lemma_reliability_bounds(b.on_time_count, b.late_count);
        assert(ps2 == a.penalties.push(b));
        assert(b.member == member);
        assert(b.late_count + b.on_time_count == 1);
        assert(0 <= b.total_penalties <= b.late_count * amount) by {
            if penalized {
                assert(b.late_count == 1);
                assert(b.total_penalties == rec.penalty_amount);
                assert(1 * amount == amount) by (nonlinear_arith);
            }
        }
        assert forall|i: int, j: int|
            0 <= i < j < ps2.len() implies ps2[i].member != ps2[j].member by {
            if j == a.penalties.len() {
                assert(ps2[i] == a.penalties[i]);
                assert(has_pen(a.penalties, a.penalties[i].member));
            } else {
                assert(a.penalties[i].member != a.penalties[j].member);
            }
        }
        assert(forall|i: int|
            0 <= i < a.penalties.len() ==> ps2[i] == #[trigger] a.penalties[i]);
        assert(ps2[a.penalties.len() as int] == b);
    }

    // The other cycle ledgers and the rest of the account are untouched.
    assert forall|k: int| 0 <= k < a2.cycles.len() implies (#[trigger] a2.cycles[k]).wf(
        g,
        (k + 1) as u32,
    ) by {
        if k != c {
            assert(a2.cycles[k] == a.cycles[k]);
        }
        assert(a.cycles[k].wf(g, (k + 1) as u32));
    }
    assert(a2.wf());
    assert(forall|i: int|
        0 <= i < out.groups.len() && i != gid - 1 ==> out.groups[i] == #[trigger] m.groups[i]);
}

/// Executing a payout preserves the engine invariant.
pub proof fn lemma_after_payout_wf(m: ContractModel, gid: u64, now: u64)
    requires
        m.wf(),
        m.payout_check(gid, now) is None,
    ensures
        m.after_payout(gid, now).wf(),
{
    let out = m.after_payout(gid, now);
    let a = m.account_of(gid);
    let g = a.group;
    assert(a.wf());
    let a2 = out.account_of(gid);
    let g2 = a2.group;
    let pi = g.payout_index as int;
    assert(pi < g.members.len());
    crate::seq_facts::lemma_take_one_more(g.members, pi);
    assert(a2.paid_out == g2.members.take(g2.payout_index as int));
    assert(g2.wf());
    assert forall|c: int| 0 <= c < a2.cycles.len() implies (#[trigger] a2.cycles[c]).wf(
        g2,
        (c + 1) as u32,
    ) by {
        if c < a.cycles.len() {
            assert(a2.cycles[c] == a.cycles[c]);
            assert(a.cycles[c].wf(g, (c + 1) as u32));
        } else {
            assert(a2.cycles[c] == CycleModel::empty());
        }
    }
    assert forall|i: int| 0 <= i < a2.penalties.len() implies {
        let p = #[trigger] a2.penalties[i];
        &&& g2.members.contains(p.member)
        &&& p.group_id == g2.id
        &&& p.late_count + p.on_time_count + (if a2.cur().contributed(p.member) {
            0int
        } else {
            1int
        }) <= g2.current_cycle
        &&& 0 <= p.total_penalties <= p.late_count * g2.contribution_amount
        &&& p.reliability_score == crate::types::reliability_of(p.on_time_count, p.late_count)
    } by {
        let p = a2.penalties[i];
        assert(a.penalties[i] == p);
        if g.payout_index + 1 == g.members.len() {
            assert(a2.cur() == a.cur());
        } else {
            assert(a2.cur() == CycleModel::empty());
            assert(!has_rec(Seq::<crate::types::ContributionRecord>::empty(), p.member));
        }
    }
    assert(a2.wf());
    assert(forall|i: int|
        0 <= i < out.groups.len() && i != gid - 1 ==> out.groups[i] == #[trigger] m.groups[i]);
}

/// Cancelling a group (by any of the three refund paths) preserves the
/// engine invariant.
pub proof fn lemma_after_cancellation_wf(m: ContractModel, gid: u64, now: u64, reason: RefundReason)
    requires
        m.wf(),
        m.has_group(gid),
    ensures
        m.after_cancellation(gid, now, reason).wf(),
{
    let out = m.after_cancellation(gid, now, reason);
    let a = m.account_of(gid);
    let g = a.group;
    assert(a.wf());
    assert(g.id == gid);
    lemma_grant_refunds(a.refunds, g.members, a.cur(), gid, g.contribution_amount, now, reason);
    let rs2 = grant_refunds(a.refunds, g.members, a.cur(), gid, g.contribution_amount, now, reason);
    let a2 = out.account_of(gid);
    let g2 = a2.group;
    assert(g2.wf());
    assert forall|i: int| 0 <= i < rs2.len() implies {
        &&& g.members.contains((#[trigger] rs2[i]).member)
        &&& rs2[i].group_id == g.id
    } by {
        let x = rs2[i].member;
        assert(has_refund_rec(rs2, x));
        lemma_refund_index(rs2, x);
        let k = refund_index(rs2, x);
        if k != i {
            if k < i {
                assert(rs2[k].member != rs2[i].member);
            } else {
                assert(rs2[i].member != rs2[k].member);
            }
        }
        assert(rs2[i] == refund_of(rs2, x));
        if g.members.contains(x) && a.cur().contributed(x) {
        } else {
            assert(has_refund_rec(a.refunds, x));
            lemma_refund_index(a.refunds, x);
            assert(a.refunds[refund_index(a.refunds, x)] == refund_of(a.refunds, x));
        }
    }
    assert forall|c: int| 0 <= c < a2.cycles.len() implies (#[trigger] a2.cycles[c]).wf(
        g2,
        (c + 1) as u32,
    ) by {
        assert(a.cycles[c].wf(g, (c + 1) as u32));
    }
    assert(a2.cur() == a.cur());
    assert(a2.wf());
    assert(forall|i: int|
        0 <= i < out.groups.len() && i != gid - 1 ==> out.groups[i] == #[trigger] m.groups[i]);
}

/// Creating a refund request preserves the engine invariant. The bound on
/// `now` keeps the voting deadline representable.
pub proof fn lemma_after_request_wf(m: ContractModel, requester: u64, gid: u64, now: u64)
    requires
        m.wf(),
        m.request_check(requester, gid, now) is None,
        now + VOTING_PERIOD <= u64::MAX,
    ensures
        m.after_request(requester, gid, now).wf(),
{
    let out = m.after_request(requester, gid, now);
    let a = m.account_of(gid);
    let g = a.group;
    assert(a.wf());
    let a2 = out.account_of(gid);
    assert(a2.votes.len() == 0);
    assert(crate::ledger::count_in_favor(a2.votes) == 0);
    assert forall|c: int| 0 <= c < a2.cycles.len() implies (#[trigger] a2.cycles[c]).wf(
        g,
        (c + 1) as u32,
    ) by {
        assert(a.cycles[c].wf(g, (c + 1) as u32));
    }
    assert(a2.cur() == a.cur());
    assert(a2.wf());
    assert(forall|i: int|
        0 <= i < out.groups.len() && i != gid - 1 ==> out.groups[i] == #[trigger] m.groups[i]);
}

/// The voters of `vs` as a sequence.
pub open spec fn voters_of(vs: Seq<RefundVote>) -> Seq<u64> {
    vs.map_values(|v: RefundVote| v.voter)
}

/// In a well-formed account the voters are distinct members, so there are
/// no more votes than members.
pub proof fn lemma_votes_bounded(a: AccountModel)
    requires
        a.wf(),
    ensures
        a.votes.len() <= a.group.members.len(),
{
    let mapped = voters_of(a.votes);
    assert(forall|i: int| 0 <= i < mapped.len() ==> mapped[i] == a.votes[i].voter);
    assert(mapped.no_duplicates()) by {
        assert forall|i: int, j: int|
            0 <= i < mapped.len() && 0 <= j < mapped.len() && i != j implies mapped[i]
            != mapped[j] by {
            if i < j {
                assert(a.votes[i].voter != a.votes[j].voter);
            } else {
                assert(a.votes[j].voter != a.votes[i].voter);
            }
        }
    }
    assert(forall|i: int|
        0 <= i < mapped.len() ==> a.group.members.contains(#[trigger] mapped[i]));
    lemma_distinct_within_len(mapped, a.group.members);
}

/// Casting a vote preserves the engine invariant.
pub proof fn lemma_after_vote_wf(m: ContractModel, voter: u64, gid: u64, in_favor: bool, now: u64)
    requires
        m.wf(),
        m.vote_check(voter, gid, now) is None,
    ensures
        m.after_vote(voter, gid, in_favor, now).wf(),
{
    let out = m.after_vote(voter, gid, in_favor, now);
    let a = m.account_of(gid);
    let g = a.group;
    assert(a.wf());
    assert(g.id == gid);
    lemma_votes_bounded(a);
    let v = RefundVote { group_id: gid, voter, in_favor, timestamp: now };
    lemma_count_in_favor_push(a.votes, v);
    let a2 = out.account_of(gid);
    assert(a2.votes == a.votes.push(v));
    assert(forall|i: int| 0 <= i < a.votes.len() ==> a2.votes[i] == #[trigger] a.votes[i]);
    assert(a2.votes[a.votes.len() as int] == v);
    assert forall|i: int, j: int|
        0 <= i < j < a2.votes.len() implies a2.votes[i].voter != a2.votes[j].voter by {
        if j == a.votes.len() {
            assert(crate::ledger::has_vote(a.votes, a.votes[i].voter));
        } else {
            assert(a.votes[i].voter != a.votes[j].voter);
        }
    }
    assert forall|c: int| 0 <= c < a2.cycles.len() implies (#[trigger] a2.cycles[c]).wf(
        g,
        (c + 1) as u32,
    ) by {
        assert(a.cycles[c].wf(g, (c + 1) as u32));
    }
    assert(a2.cur() == a.cur());
    assert(a2.wf());
    assert(forall|i: int|
        0 <= i < out.groups.len() && i != gid - 1 ==> out.groups[i] == #[trigger] m.groups[i]);
}

/// Deciding a refund request (either verdict) preserves the engine
/// invariant.
pub proof fn lemma_after_refund_decided_wf(m: ContractModel, gid: u64, now: u64, approved: bool)
    requires
        m.wf(),
        m.has_group(gid),
        m.account_of(gid).refund_request is Some,
    ensures
        m.after_refund_decided(gid, now, approved).wf(),
{
    let a = m.account_of(gid);
    let g = a.group;
    assert(a.wf());
    let r = a.refund_request->Some_0;
    let decided = m.with_account(
        gid,
        AccountModel {
            refund_request: Some(
                crate::types::RefundRequest { executed: true, approved, ..r },
            ),
            ..a
        },
    );
    let ad = decided.account_of(gid);
    assert(ad.cur() == a.cur());
    assert forall|c: int| 0 <= c < ad.cycles.len() implies (#[trigger] ad.cycles[c]).wf(
        g,
        (c + 1) as u32,
    ) by {
        assert(a.cycles[c].wf(g, (c + 1) as u32));
    }
    assert(ad.wf());
    assert(forall|i: int|
        0 <= i < decided.groups.len() && i != gid - 1 ==> decided.groups[i]
            == #[trigger] m.groups[i]);
    assert(decided.wf());
    if approved {
        lemma_after_cancellation_wf(decided, gid, now, RefundReason::MemberVote);
        assert(m.after_refund_decided(gid, now, approved) == decided.after_cancellation(
            gid,
            now,
            RefundReason::MemberVote,
        ));
    }
}

/// Setting metadata preserves the engine invariant.
pub proof fn lemma_after_metadata_wf(m: ContractModel, gid: u64, md: crate::types::MetadataModel)
    requires
        m.wf(),
        m.has_group(gid),
    ensures
        m.after_metadata(gid, md).wf(),
{
    let out = m.after_metadata(gid, md);
    let a = m.account_of(gid);
    let g = a.group;
    assert(a.wf());
    let a2 = out.account_of(gid);
    assert(a2.cur() == a.cur());
    assert forall|c: int| 0 <= c < a2.cycles.len() implies (#[trigger] a2.cycles[c]).wf(
        g,
        (c + 1) as u32,
    ) by {
        assert(a.cycles[c].wf(g, (c + 1) as u32));
    }
    assert(a2.wf());
    assert(forall|i: int|
        0 <= i < out.groups.len() && i != gid - 1 ==> out.groups[i] == #[trigger] m.groups[i]);
}

} // verus!
