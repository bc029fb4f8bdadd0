//! Ghost model of the whole engine and its transition relation: for every
//! operation, a `..._check` function gives the exact error the operation
//! reports (or `None` when it succeeds, with one fixed check order), and
//! an `after_...` function gives the state it leaves behind on success.
//! The executable engine's contracts tie every call to these functions.

use vstd::prelude::*;

use crate::errors::AjoError;
use crate::ledger::{
    AccountModel, CycleModel, grant_refunds, has_vote, upsert_penalty,
};
use crate::types::{
    GroupModel, GroupState, MAX_DESCRIPTION_LENGTH, MAX_GRACE_PERIOD, MAX_MEMBERS_LIMIT,
    MAX_NAME_LENGTH, MAX_RULES_LENGTH, MetadataModel, MIN_MEMBERS, REFUND_APPROVAL_THRESHOLD,
    RefundReason, RefundRequest, RefundVote, VOTING_PERIOD, ContributionRecord,
};

verus! {

/// Whether a decided vote tally clears the approval threshold:
/// `votes_for * 100 / total >= 51`, with no votes counting as 0 percent.
pub open spec fn refund_approved(r: RefundRequest) -> bool {
    r.votes_for + r.votes_against > 0 && (r.votes_for as int) * 100 / (r.votes_for
        + r.votes_against) >= REFUND_APPROVAL_THRESHOLD
}

/// Members of `members` (in order) without a contribution record in `led`.
pub open spec fn pending_of(members: Seq<u64>, led: CycleModel) -> Seq<u64> {
    members.filter(|m: u64| !led.contributed(m))
}

/// Number of members of `members` with a contribution record in `led`.
pub open spec fn contributed_count(members: Seq<u64>, led: CycleModel) -> int {
    members.filter(|m: u64| led.contributed(m)).len() as int
}

/// Ghost model of the engine: the admin gate, the pause flag, and one
/// account per group, where the group with id `i + 1` sits at index `i`.
#[verifier::ext_equal]
pub struct ContractModel {
    pub admin: Option<u64>,
    pub paused: bool,
    pub groups: Seq<AccountModel>,
}

impl ContractModel {
    /// Whether a group with id `gid` exists.
    pub open spec fn has_group(self, gid: u64) -> bool {
        1 <= gid <= self.groups.len()
    }

    /// The account of group `gid`.
    pub open spec fn account_of(self, gid: u64) -> AccountModel {
        self.groups[gid - 1]
    }

    /// The group record of group `gid`.
    pub open spec fn group_of(self, gid: u64) -> GroupModel {
        self.account_of(gid).group
    }

    /// Structural invariant of the whole engine: every account is well
    /// formed and group ids are exactly the positions shifted by one.
    pub open spec fn wf(self) -> bool {
        forall|i: int|
            0 <= i < self.groups.len() ==> (#[trigger] self.groups[i]).wf()
                && self.groups[i].group.id == i + 1
    }

    /// The model with the account of group `gid` replaced.
    pub open spec fn with_account(self, gid: u64, a: AccountModel) -> ContractModel {
        ContractModel { groups: self.groups.update(gid - 1, a), ..self }
    }

    // --- admin gate and pause flag ---

    /// Error reported by `initialize`, if any.
    pub open spec fn initialize_check(self) -> Option<AjoError> {
        if self.admin is Some {
            Some(AjoError::AlreadyInitialized)
        } else {
            None
        }
    }

    /// State after a successful `initialize`.
    pub open spec fn after_initialize(self, admin: u64) -> ContractModel {
        ContractModel { admin: Some(admin), ..self }
    }

    /// Error reported by `pause`, if any.
    pub open spec fn pause_check(self, caller: u64) -> Option<AjoError> {
        if self.admin != Some(caller) {
            Some(AjoError::UnauthorizedPause)
        } else {
            None
        }
    }

    /// Error reported by `unpause`, if any.
    pub open spec fn unpause_check(self, caller: u64) -> Option<AjoError> {
        if self.admin != Some(caller) {
            Some(AjoError::UnauthorizedUnpause)
        } else {
            None
        }
    }

    // --- group registry ---

    /// Error reported by `create_group`, if any: configuration validation
    /// comes first, then the pause check.
    pub open spec fn create_check(
        self,
        contribution_amount: i128,
        cycle_duration: u64,
        max_members: u32,
        grace_period: u64,
        penalty_rate: u32,
    ) -> Option<AjoError> {
        if contribution_amount == 0 {
            Some(AjoError::ContributionAmountZero)
        } else if contribution_amount < 0 {
            Some(AjoError::ContributionAmountNegative)
        } else if cycle_duration == 0 {
            Some(AjoError::CycleDurationZero)
        } else if max_members < MIN_MEMBERS {
            Some(AjoError::MaxMembersBelowMinimum)
        } else if max_members > MAX_MEMBERS_LIMIT {
            Some(AjoError::MaxMembersAboveLimit)
        } else if grace_period > MAX_GRACE_PERIOD {
            Some(AjoError::InvalidGracePeriod)
        } else if penalty_rate > 100 {
            Some(AjoError::InvalidPenaltyRate)
        } else if self.paused {
            Some(AjoError::ContractPaused)
        } else {
            None
        }
    }

    /// State after a successful `create_group`: a fresh account appended,
    /// so the new group's id is the previous group count plus one.
    pub open spec fn after_create(
        self,
        creator: u64,
        contribution_amount: i128,
        cycle_duration: u64,
        max_members: u32,
        grace_period: u64,
        penalty_rate: u32,
        now: u64,
    ) -> ContractModel {
        ContractModel {
            groups: self.groups.push(
                AccountModel::initial(
                    (self.groups.len() + 1) as u64,
                    creator,
                    contribution_amount,
                    cycle_duration,
                    max_members,
                    grace_period,
                    penalty_rate,
                    now,
                ),
            ),
            ..self
        }
    }

    /// Error reported by `join_group`, if any. A cancelled group is
    /// terminal and admits no further members.
    pub open spec fn join_check(self, member: u64, gid: u64) -> Option<AjoError> {
        if self.paused {
            Some(AjoError::ContractPaused)
        } else if !self.has_group(gid) {
            Some(AjoError::GroupNotFound)
        } else if self.group_of(gid).state == GroupState::Cancelled {
            Some(AjoError::GroupCancelled)
        } else if self.group_of(gid).is_complete {
            Some(AjoError::GroupComplete)
        } else if self.group_of(gid).members.contains(member) {
            Some(AjoError::AlreadyMember)
        } else if self.group_of(gid).members.len() >= self.group_of(gid).max_members {
            Some(AjoError::MaxMembersExceeded)
        } else {
            None
        }
    }

    /// State after a successful `join_group`: the member appended to the
    /// group's member list, everything else untouched.
    pub open spec fn after_join(self, member: u64, gid: u64) -> ContractModel {
        let a = self.account_of(gid);
        self.with_account(
            gid,
            AccountModel { group: GroupModel { members: a.group.members.push(member), ..a.group }, ..a },
        )
    }

    // --- contribution ledger ---

    /// Error reported by `contribute`, if any.
    pub open spec fn contribute_check(self, member: u64, gid: u64, now: u64) -> Option<AjoError> {
        if self.paused {
            Some(AjoError::ContractPaused)
        } else if !self.has_group(gid) {
            Some(AjoError::GroupNotFound)
        } else if self.group_of(gid).state == GroupState::Cancelled {
            Some(AjoError::GroupCancelled)
        } else if self.group_of(gid).is_complete {
            Some(AjoError::GroupComplete)
        } else if !self.group_of(gid).members.contains(member) {
            Some(AjoError::NotMember)
        } else if self.account_of(gid).cur().contributed(member) {
            Some(AjoError::AlreadyContributed)
        } else if self.group_of(gid).past_grace(now) {
            Some(AjoError::GracePeriodExpired)
        } else {
            None
        }
    }

    /// The record a successful `contribute` at `now` writes: late (with the
    /// group's penalty) when the nominal window has closed, on time (with
    /// no penalty) otherwise.
    pub open spec fn contribution_made(self, member: u64, gid: u64, now: u64) -> ContributionRecord {
        let g = self.group_of(gid);
        let late = !g.is_on_time(now);
        ContributionRecord {
            member,
            group_id: gid,
            cycle: g.current_cycle,
            has_paid: true,
            timestamp: now,
            is_late: late,
            penalty_amount: if late {
                g.late_penalty() as i128
            } else {
                0
            },
        }
    }

    /// State after a successful `contribute`: the record appended to the
    /// current cycle's ledger, its penalty added to the cycle's pool, and
    /// the member's penalty aggregate bumped (a late contribution with a
    /// zero penalty counts as on time there).
    pub open spec fn after_contribute(self, member: u64, gid: u64, now: u64) -> ContractModel {
        let a = self.account_of(gid);
        let g = a.group;
        let rec = self.contribution_made(member, gid, now);
        let penalized = rec.is_late && rec.penalty_amount > 0;
        let c = g.current_cycle - 1;
        let led = a.cycles[c];
        let led2 = CycleModel {
            records: led.records.push(rec),
            penalty_pool: (led.penalty_pool + rec.penalty_amount) as i128,
        };
        self.with_account(
            gid,
            AccountModel {
                cycles: a.cycles.update(c, led2),
                penalties: upsert_penalty(a.penalties, gid, member, penalized, rec.penalty_amount),
                ..a
            },
        )
    }

    // --- payout rotation ---

    /// Error reported by `execute_payout`, if any.
    pub open spec fn payout_check(self, gid: u64, now: u64) -> Option<AjoError> {
        if self.paused {
            Some(AjoError::ContractPaused)
        } else if !self.has_group(gid) {
            Some(AjoError::GroupNotFound)
        } else if self.group_of(gid).state == GroupState::Cancelled {
            Some(AjoError::GroupCancelled)
        } else if self.group_of(gid).is_complete {
            Some(AjoError::GroupComplete)
        } else if !self.account_of(gid).all_contributed() {
            Some(AjoError::IncompleteContributions)
        } else if (now as int) < self.group_of(gid).grace_end() {
            Some(AjoError::OutsideCycleWindow)
        } else {
            None
        }
    }

    /// State after a successful `execute_payout`: the recipient is recorded
    /// as paid and the rotation pointer advances; the group either becomes
    /// complete or opens the next cycle at `now` with an empty ledger.
    pub open spec fn after_payout(self, gid: u64, now: u64) -> ContractModel {
        let a = self.account_of(gid);
        let g = a.group;
        let recipient = g.members[g.payout_index as int];
        let pi2 = (g.payout_index + 1) as u32;
        let complete = pi2 == g.members.len();
        let g2 = if complete {
            GroupModel {
                payout_index: pi2,
                is_complete: true,
                state: GroupState::Complete,
                ..g
            }
        } else {
            GroupModel {
                payout_index: pi2,
                current_cycle: (g.current_cycle + 1) as u32,
                cycle_start_time: now,
                ..g
            }
        };
        let cycles2 = if complete {
            a.cycles
        } else {
            a.cycles.push(CycleModel::empty())
        };
        self.with_account(
            gid,
            AccountModel {
                group: g2,
                cycles: cycles2,
                paid_out: a.paid_out.push(recipient),
                ..a
            },
        )
    }

    /// Payout owed for the current cycle of group `gid`: one contribution
    /// from every member plus the cycle's penalty pool.
    pub open spec fn payout_amount(self, gid: u64) -> int {
        self.group_of(gid).base_payout() + self.account_of(gid).cur().penalty_pool
    }

    // --- metadata ---

    /// Error reported by `set_group_metadata`, if any.
    pub open spec fn metadata_check(self, caller: u64, gid: u64, md: MetadataModel) -> Option<
        AjoError,
    > {
        if self.paused {
            Some(AjoError::ContractPaused)
        } else if md.name.len() > MAX_NAME_LENGTH || md.description.len() > MAX_DESCRIPTION_LENGTH
            || md.rules.len() > MAX_RULES_LENGTH {
            Some(AjoError::MetadataTooLong)
        } else if !self.has_group(gid) {
            Some(AjoError::GroupNotFound)
        } else if self.group_of(gid).creator != caller {
            Some(AjoError::Unauthorized)
        } else {
            None
        }
    }

    /// State after a successful `set_group_metadata`.
    pub open spec fn after_metadata(self, gid: u64, md: MetadataModel) -> ContractModel {
        let a = self.account_of(gid);
        self.with_account(gid, AccountModel { metadata: Some(md), ..a })
    }

    // --- refund governance ---

    /// Error reported by `cancel_group`, if any.
    pub open spec fn cancel_check(self, creator: u64, gid: u64) -> Option<AjoError> {
        if self.paused {
            Some(AjoError::ContractPaused)
        } else if !self.has_group(gid) {
            Some(AjoError::GroupNotFound)
        } else if self.group_of(gid).creator != creator {
            Some(AjoError::OnlyCreatorCanCancel)
        } else if self.group_of(gid).state == GroupState::Cancelled {
            Some(AjoError::GroupCancelled)
        } else if self.group_of(gid).state == GroupState::Complete {
            Some(AjoError::GroupComplete)
        } else if self.group_of(gid).payout_index > 0 {
            Some(AjoError::CannotCancelAfterPayout)
        } else {
            None
        }
    }

    /// State after one of the three refund paths cancels group `gid` at
    /// `now`: every current-cycle contributor holds a refund record of the
    /// full contribution amount with the path's reason, and the group is
    /// cancelled.
    pub open spec fn after_cancellation(self, gid: u64, now: u64, reason: RefundReason) -> ContractModel {
        let a = self.account_of(gid);
        let g = a.group;
        self.with_account(
            gid,
            AccountModel {
                group: GroupModel { state: GroupState::Cancelled, ..g },
                refunds: grant_refunds(
                    a.refunds,
                    g.members,
                    a.cur(),
                    gid,
                    g.contribution_amount,
                    now,
                    reason,
                ),
                ..a
            },
        )
    }

    /// Error reported by `request_refund`, if any.
    pub open spec fn request_check(self, requester: u64, gid: u64, now: u64) -> Option<AjoError> {
        if self.paused {
            Some(AjoError::ContractPaused)
        } else if !self.has_group(gid) {
            Some(AjoError::GroupNotFound)
        } else if !self.group_of(gid).members.contains(requester) {
            Some(AjoError::NotMember)
        } else if self.group_of(gid).state == GroupState::Cancelled {
            Some(AjoError::GroupCancelled)
        } else if self.group_of(gid).state == GroupState::Complete {
            Some(AjoError::GroupComplete)
        } else if (now as int) <= self.group_of(gid).grace_end() {
            Some(AjoError::CycleNotExpired)
        } else if self.account_of(gid).refund_request is Some {
            Some(AjoError::RefundRequestExists)
        } else {
            None
        }
    }

    /// State after a successful `request_refund`: a fresh request with an
    /// empty tally and a voting deadline one voting period after `now`.
    pub open spec fn after_request(self, requester: u64, gid: u64, now: u64) -> ContractModel {
        let a = self.account_of(gid);
        self.with_account(
            gid,
            AccountModel {
                refund_request: Some(
                    RefundRequest {
                        group_id: gid,
                        requester,
                        created_at: now,
                        voting_deadline: (now + VOTING_PERIOD) as u64,
                        votes_for: 0,
                        votes_against: 0,
                        executed: false,
                        approved: false,
                    },
                ),
                ..a
            },
        )
    }

    /// Error reported by `vote_refund`, if any.
    pub open spec fn vote_check(self, voter: u64, gid: u64, now: u64) -> Option<AjoError> {
        if self.paused {
            Some(AjoError::ContractPaused)
        } else if !self.has_group(gid) {
            Some(AjoError::GroupNotFound)
        } else if !self.group_of(gid).members.contains(voter) {
            Some(AjoError::NotMember)
        } else if self.account_of(gid).refund_request is None {
            Some(AjoError::NoRefundRequest)
        } else if has_vote(self.account_of(gid).votes, voter) {
            Some(AjoError::AlreadyVoted)
        } else if now > self.account_of(gid).refund_request->Some_0.voting_deadline {
            Some(AjoError::VotingPeriodEnded)
        } else {
            None
        }
    }

    /// State after a successful `vote_refund`: the vote recorded and the
    /// matching side of the tally incremented.
    pub open spec fn after_vote(self, voter: u64, gid: u64, in_favor: bool, now: u64) -> ContractModel {
        let a = self.account_of(gid);
        let r = a.refund_request->Some_0;
        let r2 = if in_favor {
            RefundRequest { votes_for: (r.votes_for + 1) as u32, ..r }
        } else {
            RefundRequest { votes_against: (r.votes_against + 1) as u32, ..r }
        };
        self.with_account(
            gid,
            AccountModel {
                refund_request: Some(r2),
                votes: a.votes.push(
                    RefundVote { group_id: gid, voter, in_favor, timestamp: now },
                ),
                ..a
            },
        )
    }

    /// Error reported by `execute_refund`, if any. An approval shortfall is
    /// reported as `RefundNotApproved`, and that failure alone also marks
    /// the request as executed and rejected.
    pub open spec fn execute_refund_check(self, gid: u64, now: u64) -> Option<AjoError> {
        if self.paused {
            Some(AjoError::ContractPaused)
        } else if !self.has_group(gid) {
            Some(AjoError::GroupNotFound)
        } else if self.account_of(gid).refund_request is None {
            Some(AjoError::NoRefundRequest)
        } else if self.account_of(gid).refund_request->Some_0.executed {
            Some(AjoError::RefundAlreadyExecuted)
        } else if now <= self.account_of(gid).refund_request->Some_0.voting_deadline {
            Some(AjoError::VotingPeriodActive)
        } else if !refund_approved(self.account_of(gid).refund_request->Some_0) {
            Some(AjoError::RefundNotApproved)
        } else {
            None
        }
    }

    /// State after `execute_refund` decides the request: the request is
    /// marked executed with the given verdict, and on approval the group is
    /// cancelled with refunds granted (reason: member vote).
    pub open spec fn after_refund_decided(self, gid: u64, now: u64, approved: bool) -> ContractModel {
        let a = self.account_of(gid);
        let r = a.refund_request->Some_0;
        let decided = self.with_account(
            gid,
            AccountModel {
                refund_request: Some(RefundRequest { executed: true, approved, ..r }),
                ..a
            },
        );
        if approved {
            decided.after_cancellation(gid, now, RefundReason::MemberVote)
        } else {
            decided
        }
    }

    /// Error reported by `emergency_refund`, if any. Like every other
    /// state-mutating group operation it is halted by the pause flag;
    /// only `pause`, `unpause` and the reads stay available.
    pub open spec fn emergency_check(self, admin: u64, gid: u64) -> Option<AjoError> {
        if self.paused {
            Some(AjoError::ContractPaused)
        } else if self.admin != Some(admin) {
            Some(AjoError::Unauthorized)
        } else if !self.has_group(gid) {
            Some(AjoError::GroupNotFound)
        } else if self.group_of(gid).state == GroupState::Cancelled {
            Some(AjoError::GroupCancelled)
        } else {
            None
        }
    }
}

} // verus!
