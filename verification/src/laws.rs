//! Engine-wide laws, proved once over the ghost model: id assignment,
//! membership, rotation bounds, the closure of completed groups, payout
//! preconditions, and the accounting of the status projection and the
//! payout amount.

use vstd::prelude::*;

use crate::errors::AjoError;
use crate::invariants::lemma_after_join_wf;
use crate::ledger::{CycleModel, sum_penalties};
use crate::model::{contributed_count, pending_of, ContractModel};
use crate::seq_facts::lemma_push_preserves_contains;
use crate::types::GroupState;

verus! {

/// Group ids are strictly increasing in creation order: an earlier group
/// always has a smaller id than a later one.
pub proof fn lemma_group_ids_strictly_increasing(m: ContractModel, i: int, j: int)
    requires
        m.wf(),
        0 <= i < j < m.groups.len(),
    ensures
        m.groups[i].group.id < m.groups[j].group.id,
{
}

/// A successful creation appends a group whose id is one past the
/// previous group count, strictly larger than every existing group's id.
pub proof fn lemma_create_assigns_next_id(
    m: ContractModel,
    creator: u64,
    contribution_amount: i128,
    cycle_duration: u64,
    max_members: u32,
    grace_period: u64,
    penalty_rate: u32,
    now: u64,
    i: int,
)
    requires
        m.wf(),
        0 <= i < m.groups.len(),
        m.groups.len() + 1 <= u64::MAX,
    ensures
        m.after_create(
            creator,
            contribution_amount,
            cycle_duration,
            max_members,
            grace_period,
            penalty_rate,
            now,
        ).groups.last().group.id == m.groups.len() + 1,
        m.after_create(
            creator,
            contribution_amount,
            cycle_duration,
            max_members,
            grace_period,
            penalty_rate,
            now,
        ).groups[i].group.id < m.groups.len() + 1,
{
}

/// The creator is always the group's first member, and so holds the first
/// payout position.
pub proof fn lemma_creator_is_first_member(m: ContractModel, gid: u64)
    requires
        m.wf(),
        m.has_group(gid),
    ensures
        m.group_of(gid).members.len() >= 1,
        m.group_of(gid).members[0] == m.group_of(gid).creator,
{
    assert(m.account_of(gid).wf());
}

/// Joining is idempotent-rejecting: right after a member's successful
/// join, a second join of the same member fails with `AlreadyMember`, and
/// the member list still holds no duplicate.
pub proof fn lemma_join_rejects_member_again(m: ContractModel, member: u64, gid: u64)
    requires
        m.wf(),
        m.join_check(member, gid) is None,
    ensures
        m.after_join(member, gid).join_check(member, gid) == Some(AjoError::AlreadyMember),
        m.after_join(member, gid).group_of(gid).members.no_duplicates(),
{
    lemma_after_join_wf(m, member, gid);
    lemma_push_preserves_contains(m.group_of(gid).members, member);
    assert(m.after_join(member, gid).group_of(gid).members.contains(member));
    assert(m.after_join(member, gid).account_of(gid).wf());
}

/// The rotation pointer never passes the member count, and the group is
/// complete exactly when the pointer has reached it.
pub proof fn lemma_rotation_bounds(m: ContractModel, gid: u64)
    requires
        m.wf(),
        m.has_group(gid),
    ensures
        m.group_of(gid).payout_index <= m.group_of(gid).members.len(),
        m.group_of(gid).is_complete <==> m.group_of(gid).payout_index == m.group_of(
            gid,
        ).members.len(),
{
    assert(m.account_of(gid).wf());
}

/// Once a group is complete, no further join, contribution or payout
/// succeeds.
pub proof fn lemma_complete_group_is_closed(m: ContractModel, gid: u64, member: u64, now: u64)
    requires
        m.wf(),
        m.has_group(gid),
        m.group_of(gid).is_complete,
    ensures
        m.join_check(member, gid) is Some,
        m.contribute_check(member, gid, now) is Some,
        m.payout_check(gid, now) is Some,
{
}

/// Cancellation is terminal: once a group is cancelled, no join,
/// contribution, payout, cancellation or refund request ever succeeds
/// again. In particular a second cancellation by the creator of an
/// unpaused engine fails with exactly `GroupCancelled`.
pub proof fn lemma_cancelled_group_is_terminal(
    m: ContractModel,
    gid: u64,
    caller: u64,
    now: u64,
)
    requires
        m.wf(),
        m.has_group(gid),
        m.group_of(gid).state == GroupState::Cancelled,
    ensures
        m.join_check(caller, gid) is Some,
        m.contribute_check(caller, gid, now) is Some,
        m.payout_check(gid, now) is Some,
        m.cancel_check(caller, gid) is Some,
        m.request_check(caller, gid, now) is Some,
        !m.paused && caller == m.group_of(gid).creator ==> m.cancel_check(caller, gid) == Some(
            AjoError::GroupCancelled,
        ),
{
}

/// A payout never succeeds unless every current member has contributed in
/// the current cycle and the grace period has fully elapsed.
pub proof fn lemma_payout_needs_everyone_and_patience(m: ContractModel, gid: u64, now: u64)
    requires
        m.wf(),
        m.payout_check(gid, now) is None,
    ensures
        m.has_group(gid),
        forall|i: int|
            0 <= i < m.group_of(gid).members.len() ==> m.account_of(gid).cur().contributed(
                #[trigger] m.group_of(gid).members[i],
            ),
        (now as int) >= m.group_of(gid).grace_end(),
{
}

/// A successful payout advances the rotation pointer by exactly one,
/// pays the member it pointed at, and completes the group exactly when
/// the pointer reaches the member count.
pub proof fn lemma_payout_advances_rotation(m: ContractModel, gid: u64, now: u64)
    requires
        m.wf(),
        m.payout_check(gid, now) is None,
    ensures
        m.after_payout(gid, now).group_of(gid).payout_index == m.group_of(gid).payout_index + 1,
        m.after_payout(gid, now).account_of(gid).paid_out == m.account_of(gid).paid_out.push(
            m.group_of(gid).members[m.group_of(gid).payout_index as int],
        ),
        m.after_payout(gid, now).group_of(gid).is_complete <==> m.group_of(gid).payout_index + 1
            == m.group_of(gid).members.len(),
{
    assert(m.account_of(gid).wf());
}

/// The status projection partitions the members: the contributed count and
/// the pending list together cover the member list exactly.
pub proof fn lemma_status_partition(members: Seq<u64>, led: CycleModel)
    ensures
        contributed_count(members, led) + pending_of(members, led).len() == members.len(),
    decreases members.len(),
{
    reveal(Seq::filter);
    if members.len() == 0 {
    } else {
        lemma_status_partition(members.drop_last(), led);
    }
}

/// The payout owed for the current cycle is one contribution from every
/// member plus exactly the late penalties recorded in that cycle.
pub proof fn lemma_payout_amount_accounts(m: ContractModel, gid: u64)
    requires
        m.wf(),
        m.has_group(gid),
    ensures
        m.payout_amount(gid) == m.group_of(gid).contribution_amount * m.group_of(
            gid,
        ).members.len() + sum_penalties(m.account_of(gid).cur().records),
{
    let a = m.account_of(gid);
    assert(a.wf());
    let c = a.group.current_cycle - 1;
    assert(a.cycles[c].wf(a.group, (c + 1) as u32));
}

} // verus!
