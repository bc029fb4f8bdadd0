//! The executable engine. One [`AjoContract`] value holds the whole state:
//! the admin gate, the pause flag, and one account per group. Every
//! operation takes the already-authenticated acting principal and, where
//! timing matters, the host clock's reading `now`; it performs all checks
//! before any write, so a failed call leaves the state untouched. Each
//! contract ties the call to the ghost transition relation in [`crate::model`].

use vstd::prelude::*;

use crate::errors::AjoError;
use crate::ledger::{
    CycleLedger, GroupAccount, grant_refunds, has_pen, has_rec, has_refund_rec, has_vote, pen_of,
    default_penalty, rec_of, refund_of, refund_index, upsert_refund, lemma_pen_index,
    lemma_rec_index, lemma_refund_index, lemma_upsert_refund,
};
use crate::model::{contributed_count, pending_of, ContractModel};
use crate::seq_facts::lemma_skip_one_more;
use crate::types::{ContributionRecord, Group, GroupMetadata, GroupState, GroupStatus, MemberPenaltyRecord,
    RefundReason, RefundRecord, RefundRequest, RefundVote,
};

verus! {

/// Finds `x` in a member list.
fn contains_u64(v: &Vec<u64>, x: u64) -> (b: bool)
    ensures
        b == v@.contains(x),
{
    let mut i: usize = 0;
    while i < v.len()
        invariant
            i <= v@.len(),
            forall|j: int| 0 <= j < i ==> v@[j] != x,
        decreases v@.len() - i,
    {
        if v[i] == x {
            return true;
        }
        i += 1;
    }
    false
}

/// Finds the position of member `m`'s contribution record.
fn find_record(records: &Vec<ContributionRecord>, m: u64) -> (r: Option<usize>)
    ensures
        match r {
            Some(i) => i < records@.len() && records@[i as int].member == m,
            None => !has_rec(records@, m),
        },
{
    let mut i: usize = 0;
    while i < records.len()
        invariant
            i <= records@.len(),
            forall|j: int| 0 <= j < i ==> records@[j].member != m,
        decreases records@.len() - i,
    {
        if records[i].member == m {
            return Some(i);
        }
        i += 1;
    }
    None
}

/// Finds the position of member `m`'s penalty aggregate.
fn find_penalty(ps: &Vec<MemberPenaltyRecord>, m: u64) -> (r: Option<usize>)
    ensures
        match r {
            Some(i) => i < ps@.len() && ps@[i as int].member == m,
            None => !has_pen(ps@, m),
        },
{
    let mut i: usize = 0;
    while i < ps.len()
        invariant
            i <= ps@.len(),
            forall|j: int| 0 <= j < i ==> ps@[j].member != m,
        decreases ps@.len() - i,
    {
        if ps[i].member == m {
            return Some(i);
        }
        i += 1;
    }
    None
}

/// Finds the position of member `m`'s refund record.
fn find_refund(rs: &Vec<RefundRecord>, m: u64) -> (r: Option<usize>)
    ensures
        match r {
            Some(i) => i < rs@.len() && rs@[i as int].member == m,
            None => !has_refund_rec(rs@, m),
        },
{
    let mut i: usize = 0;
    while i < rs.len()
        invariant
            i <= rs@.len(),
            forall|j: int| 0 <= j < i ==> rs@[j].member != m,
        decreases rs@.len() - i,
    {
        if rs[i].member == m {
            return Some(i);
        }
        i += 1;
    }
    None
}

/// Walks `members` in order and grants every member with a contribution
/// record in `led` a refund record of `amount`, overwriting any earlier
/// refund record of that member.
fn grant_refunds_exec(
    members: &Vec<u64>,
    led: &CycleLedger,
    refunds: &mut Vec<RefundRecord>,
    gid: u64,
    amount: i128,
    now: u64,
    reason: RefundReason,
)
    requires
        forall|i: int, j: int|
            #![trigger old(refunds)@[i].member, old(refunds)@[j].member]
            0 <= i < j < old(refunds)@.len() ==> old(refunds)@[i].member != old(
                refunds,
            )@[j].member,
    ensures
        final(refunds)@ == grant_refunds(old(refunds)@, members@, led@, gid, amount, now, reason),
{
    let ghost orig = refunds@;
    let ghost target = grant_refunds(orig, members@, led@, gid, amount, now, reason);
    proof {
        assert(members@.skip(0) =~= members@);
    }
    let mut i: usize = 0;
    while i < members.len()
        invariant
            i <= members@.len(),
            forall|p: int, q: int|
                #![trigger refunds@[p].member, refunds@[q].member]
                0 <= p < q < refunds@.len() ==> refunds@[p].member != refunds@[q].member,
            target == grant_refunds(
                refunds@,
                members@.skip(i as int),
                led@,
                gid,
                amount,
                now,
                reason,
            ),
        decreases members@.len() - i,
    {
        let m = members[i];
        let ghost pre = refunds@;
        let contributed = match find_record(&led.records, m) {
            Some(k) => {
                proof {
                    assert(led@.records[k as int].member == m);
                }
                true
            },
            None => false,
        };
        proof {
            assert(contributed == led@.contributed(m));
        }
        if contributed {
            let rec = RefundRecord { group_id: gid, member: m, amount, timestamp: now, reason };
            proof {
                lemma_upsert_refund(pre, rec);
            }
            match find_refund(refunds, m) {
                Some(j) => {
                    proof {
                        lemma_refund_index(pre, m);
                        let k = refund_index(pre, m);
                        if k != j {
                            if k < j {
                                assert(pre[k].member != pre[j as int].member);
                            } else {
                                assert(pre[j as int].member != pre[k].member);
                            }
                        }
                    }
                    refunds[j] = rec;
                    proof {
                        assert(refunds@ =~= upsert_refund(pre, rec));
                    }
                },
                None => {
                    refunds.push(rec);
                    proof {
                        assert(refunds@ =~= upsert_refund(pre, rec));
                    }
                },
            }
        }
        proof {
            lemma_skip_one_more(members@, i as int);
            assert(members@.skip(i as int)[0] == members@[i as int]);
        }
        i += 1;
    }
    proof {
        assert(members@.skip(members@.len() as int) =~= Seq::<u64>::empty());
    }
}

/// Whether member `m` has voted.
fn voted(vs: &Vec<crate::types::RefundVote>, m: u64) -> (b: bool)
    ensures
        b == has_vote(vs@, m),
{
    let mut i: usize = 0;
    while i < vs.len()
        invariant
            i <= vs@.len(),
            forall|j: int| 0 <= j < i ==> vs@[j].voter != m,
        decreases vs@.len() - i,
    {
        if vs[i].voter == m {
            return true;
        }
        i += 1;
    }
    false
}

/// Whether every member of `members` has a contribution record in `led`.
fn all_have_records(members: &Vec<u64>, led: &CycleLedger) -> (b: bool)
    ensures
        b == forall|i: int|
            0 <= i < members@.len() ==> has_rec(led@.records, #[trigger] members@[i]),
{
    let mut i: usize = 0;
    while i < members.len()
        invariant
            i <= members@.len(),
            forall|j: int| 0 <= j < i ==> has_rec(led@.records, #[trigger] members@[j]),
        decreases members@.len() - i,
    {
        match find_record(&led.records, members[i]) {
            Some(k) => {
                proof {
                    assert(led@.records[k as int].member == members@[i as int]);
                }
            },
            None => {
                return false;
            },
        }
        i += 1;
    }
    true
}

/// Whether `now` falls before the close of the grace period, computed in
/// 128 bits so the timestamp sum cannot overflow.
fn before_grace_end(g: &Group, now: u64) -> (b: bool)
    ensures
        b == ((now as int) < g@.grace_end()),
{
    (now as u128) < (g.cycle_start_time as u128) + (g.cycle_duration as u128) + (
    g.grace_period as u128)
}

/// Whether `now` falls before the close of the nominal cycle window,
/// computed in 128 bits so the timestamp sum cannot overflow.
fn on_time_at(g: &Group, now: u64) -> (b: bool)
    ensures
        b == g@.is_on_time(now),
{
    (now as u128) < (g.cycle_start_time as u128) + (g.cycle_duration as u128)
}

/// Whether `now` lies beyond the close of the grace period, computed in
/// 128 bits so the timestamp sum cannot overflow.
fn past_grace_at(g: &Group, now: u64) -> (b: bool)
    ensures
        b == g@.past_grace(now),
{
    (now as u128) > (g.cycle_start_time as u128) + (g.cycle_duration as u128) + (
    g.grace_period as u128)
}

/// The whole engine: admin gate, pause flag, and one account per group,
/// with the group of id `i + 1` at index `i`.
pub struct AjoContract {
    /// The admin principal, once `initialize` has set it.
    pub admin: Option<u64>,
    /// Emergency gate: while set, every state-mutating group operation is
    /// rejected; reads and admin operations stay available.
    pub paused: bool,
    /// One account per group, in creation order.
    pub groups: Vec<GroupAccount>,
}

impl View for AjoContract {
    type V = ContractModel;

    open spec fn view(&self) -> ContractModel {
        ContractModel {
            admin: self.admin,
            paused: self.paused,
            groups: self.groups@.map_values(|a: GroupAccount| a@),
        }
    }
}

impl AjoContract {
    /// A fresh engine: no admin, not paused, no groups.
    pub fn new() -> (c: AjoContract)
        ensures
            c@.admin is None,
            !c@.paused,
            c@.groups.len() == 0,
            c@.wf(),
    {
        let c = AjoContract { admin: None, paused: false, groups: Vec::new() };
        proof {
            assert(c@.groups =~= Seq::<crate::ledger::AccountModel>::empty());
        }
        c
    }

    /// Looks a group id up; `Some(i)` is the index of the group's account.
    fn group_index(&self, group_id: u64) -> (r: Option<usize>)
        ensures
            match r {
                Some(i) => self@.has_group(group_id) && i == group_id - 1,
                None => !self@.has_group(group_id),
            },
    {
        if 1 <= group_id && group_id <= self.groups.len() as u64 {
            Some((group_id - 1) as usize)
        } else {
            None
        }
    }

    /// Sets the contract's admin; may be done exactly once.
    pub fn initialize(&mut self, admin: u64) -> (r: Result<(), AjoError>)
        requires
            old(self)@.wf(),
        ensures
            final(self)@.wf(),
            match r {
                Ok(()) => old(self)@.initialize_check() is None && final(self)@ == old(
                    self,
                )@.after_initialize(admin),
                Err(e) => Some(e) == old(self)@.initialize_check() && final(self)@ == old(self)@,
            },
    {
        if self.admin.is_some() {
            return Err(AjoError::AlreadyInitialized);
        }
        self.admin = Some(admin);
        Ok(())
    }

    /// Halts every state-mutating group operation; admin only.
    pub fn pause(&mut self, caller: u64) -> (r: Result<(), AjoError>)
        requires
            old(self)@.wf(),
        ensures
            final(self)@.wf(),
            match r {
                Ok(()) => old(self)@.pause_check(caller) is None && final(self)@ == (
                ContractModel { paused: true, ..old(self)@ }),
                Err(e) => Some(e) == old(self)@.pause_check(caller) && final(self)@ == old(self)@,
            },
    {
        let authorized = match self.admin {
            Some(a) => a == caller,
            None => false,
        };
        if authorized {
            self.paused = true;
            Ok(())
        } else {
            Err(AjoError::UnauthorizedPause)
        }
    }

    /// Restores normal operation after a pause; admin only.
    pub fn unpause(&mut self, caller: u64) -> (r: Result<(), AjoError>)
        requires
            old(self)@.wf(),
        ensures
            final(self)@.wf(),
            match r {
                Ok(()) => old(self)@.unpause_check(caller) is None && final(self)@ == (
                ContractModel { paused: false, ..old(self)@ }),
                Err(e) => Some(e) == old(self)@.unpause_check(caller) && final(self)@ == old(
                    self,
                )@,
            },
    {
        let authorized = match self.admin {
            Some(a) => a == caller,
            None => false,
        };
        if authorized {
            self.paused = false;
            Ok(())
        } else {
            Err(AjoError::UnauthorizedUnpause)
        }
    }

    /// Creates a new group with the given configuration; the creator
    /// becomes the first member and the new group's id (one past the
    /// previous group count) is returned.
    pub fn create_group(
        &mut self,
        creator: u64,
        contribution_amount: i128,
        cycle_duration: u64,
        max_members: u32,
        grace_period: u64,
        penalty_rate: u32,
        now: u64,
    ) -> (r: Result<u64, AjoError>)
        requires
            old(self)@.wf(),
            old(self)@.groups.len() + 1 <= u64::MAX,
        ensures
            final(self)@.wf(),
            match r {
                Ok(gid) => {
                    &&& old(self)@.create_check(
                        contribution_amount,
                        cycle_duration,
                        max_members,
                        grace_period,
                        penalty_rate,
                    ) is None
                    &&& gid == old(self)@.groups.len() + 1
                    &&& final(self)@ == old(self)@.after_create(
                        creator,
                        contribution_amount,
                        cycle_duration,
                        max_members,
                        grace_period,
                        penalty_rate,
                        now,
                    )
                },
                Err(e) => Some(e) == old(self)@.create_check(
                    contribution_amount,
                    cycle_duration,
                    max_members,
                    grace_period,
                    penalty_rate,
                ) && final(self)@ == old(self)@,
            },
    {
        if contribution_amount == 0 {
            return Err(AjoError::ContributionAmountZero);
        }
        if contribution_amount < 0 {
            return Err(AjoError::ContributionAmountNegative);
        }
        if cycle_duration == 0 {
            return Err(AjoError::CycleDurationZero);
        }
        if max_members < crate::types::MIN_MEMBERS {
            return Err(AjoError::MaxMembersBelowMinimum);
        }
        if max_members > crate::types::MAX_MEMBERS_LIMIT {
            return Err(AjoError::MaxMembersAboveLimit);
        }
        if grace_period > crate::types::MAX_GRACE_PERIOD {
            return Err(AjoError::InvalidGracePeriod);
        }
        if penalty_rate > 100 {
            return Err(AjoError::InvalidPenaltyRate);
        }
        if self.paused {
            return Err(AjoError::ContractPaused);
        }

        let group_id = self.groups.len() as u64 + 1;
        let mut members: Vec<u64> = Vec::new();
        members.push(creator);
        let mut cycles: Vec<CycleLedger> = Vec::new();
        cycles.push(CycleLedger { records: Vec::new(), penalty_pool: 0 });
        let account = GroupAccount {
            group: Group {
                id: group_id,
                creator,
                contribution_amount,
                cycle_duration,
                max_members,
                members,
                current_cycle: 1,
                payout_index: 0,
                created_at: now,
                cycle_start_time: now,
                is_complete: false,
                grace_period,
                penalty_rate,
                state: GroupState::Active,
            },
            cycles,
            penalties: Vec::new(),
            paid_out: Vec::new(),
            metadata: None,
            refund_request: None,
            votes: Vec::new(),
            refunds: Vec::new(),
        };
        self.groups.push(account);
        proof {
            let target = old(self)@.after_create(
                creator,
                contribution_amount,
                cycle_duration,
                max_members,
                grace_period,
                penalty_rate,
                now,
            );
            assert(self@.groups =~~= target.groups);
            assert(self@ == target);
            crate::invariants::lemma_after_create_wf(
                old(self)@,
                creator,
                contribution_amount,
                cycle_duration,
                max_members,
                grace_period,
                penalty_rate,
                now,
            );
        }
        Ok(group_id)
    }

    /// Adds `member` to an existing group with room left that is neither
    /// cancelled nor complete; the member list's order (which is the
    /// payout order) gains the member at its end.
    pub fn join_group(&mut self, member: u64, group_id: u64) -> (r: Result<(), AjoError>)
        requires
            old(self)@.wf(),
        ensures
            final(self)@.wf(),
            match r {
                Ok(()) => old(self)@.join_check(member, group_id) is None && final(self)@ == old(
                    self,
                )@.after_join(member, group_id),
                Err(e) => Some(e) == old(self)@.join_check(member, group_id) && final(self)@
                    == old(self)@,
            },
    {
        if self.paused {
            return Err(AjoError::ContractPaused);
        }
        let idx = match self.group_index(group_id) {
            Some(i) => i,
            None => { return Err(AjoError::GroupNotFound) },
        };
        proof {
            assert(self@.groups[idx as int].wf());
        }
        if self.groups[idx].group.state == GroupState::Cancelled {
            return Err(AjoError::GroupCancelled);
        }
        if self.groups[idx].group.is_complete {
            return Err(AjoError::GroupComplete);
        }
        if contains_u64(&self.groups[idx].group.members, member) {
            return Err(AjoError::AlreadyMember);
        }
        if self.groups[idx].group.members.len() >= self.groups[idx].group.max_members as usize {
            return Err(AjoError::MaxMembersExceeded);
        }
        self.groups[idx].group.members.push(member);
        proof {
            assert(self@ =~~= old(self)@.after_join(member, group_id));
            crate::invariants::lemma_after_join_wf(old(self)@, member, group_id);
        }
        Ok(())
    }

    /// Records `member`'s contribution for the group's current cycle at
    /// time `now`. A contribution after the nominal window but within the
    /// grace period is accepted as late and charged the group's penalty;
    /// one beyond the grace period is rejected. The headroom bound on the
    /// contribution amount keeps every sum the ledger forms representable.
    pub fn contribute(&mut self, member: u64, group_id: u64, now: u64) -> (r: Result<
        (),
        AjoError,
    >)
        requires
            old(self)@.wf(),
            old(self)@.has_group(group_id) ==> 101 * old(self)@.group_of(
                group_id,
            ).contribution_amount <= i128::MAX,
        ensures
            final(self)@.wf(),
            match r {
                Ok(()) => old(self)@.contribute_check(member, group_id, now) is None && final(self)@ == old(self)@.after_contribute(member, group_id, now),
                Err(e) => Some(e) == old(self)@.contribute_check(member, group_id, now) && final(self)@ == old(self)@,
            },
    {
        if self.paused {
            return Err(AjoError::ContractPaused);
        }
        let idx = match self.group_index(group_id) {
            Some(i) => i,
            None => { return Err(AjoError::GroupNotFound) },
        };
        proof {
            assert(self@.groups[idx as int].wf());
        }
        if self.groups[idx].group.state == GroupState::Cancelled {
            return Err(AjoError::GroupCancelled);
        }
        if self.groups[idx].group.is_complete {
            return Err(AjoError::GroupComplete);
        }
        if !contains_u64(&self.groups[idx].group.members, member) {
            return Err(AjoError::NotMember);
        }
        let cc = self.groups[idx].group.current_cycle;
        let c = (cc - 1) as usize;
        let already = match find_record(&self.groups[idx].cycles[c].records, member) {
            Some(j) => {
                proof {
                    assert(has_rec(self.groups@[idx as int].cycles@[c as int].records@, member));
                }
                true
            },
            None => false,
        };
        if already {
            return Err(AjoError::AlreadyContributed);
        }
        if past_grace_at(&self.groups[idx].group, now) {
            return Err(AjoError::GracePeriodExpired);
        }

        let late = !on_time_at(&self.groups[idx].group, now);
        let amount = self.groups[idx].group.contribution_amount;
        let rate = self.groups[idx].group.penalty_rate;
        proof {
            crate::ledger::lemma_late_penalty_bounds(amount, rate);
            vstd::arithmetic::mul::lemma_mul_inequality(rate as int, 100, amount as int);
            vstd::arithmetic::mul::lemma_mul_is_commutative(amount as int, rate as int);
            vstd::arithmetic::mul::lemma_mul_is_commutative(100, amount as int);
        }
        let penalty: i128 = if late {
            let prod: u128 = (amount as u128) * (rate as u128);
            (prod / 100) as i128
        } else {
            0
        };
        proof {
            assert(0 <= penalty <= amount);
            assert(penalty == self@.contribution_made(member, group_id, now).penalty_amount);
            crate::ledger::lemma_pool_bound(
                self@.account_of(group_id).cycles[c as int],
                self@.group_of(group_id),
                cc,
            );
        }
        let rec = ContributionRecord {
            member,
            group_id,
            cycle: cc,
            has_paid: true,
            timestamp: now,
            is_late: late,
            penalty_amount: penalty,
        };
        let pool = self.groups[idx].cycles[c].penalty_pool;
        self.groups[idx].cycles[c].records.push(rec);
        self.groups[idx].cycles[c].penalty_pool = pool + penalty;

        let penalized = late && penalty > 0;
        match find_penalty(&self.groups[idx].penalties, member) {
            Some(j) => {
                let p = self.groups[idx].penalties[j];
                proof {
                    assert(old(self)@.account_of(group_id).penalties[j as int] == p);
                    assert(p.late_count + p.on_time_count + 1 <= cc);
                    assert(p.late_count * amount <= 100 * amount) by (nonlinear_arith)
                        requires
                            p.late_count <= 100,
                            amount >= 0,
                    ;
                    assert((p.late_count + 1) * amount == p.late_count * amount + amount)
                        by (nonlinear_arith);
                }
                let lc = if penalized {
                    p.late_count + 1
                } else {
                    p.late_count
                };
                let oc = if penalized {
                    p.on_time_count
                } else {
                    p.on_time_count + 1
                };
                let total = p.total_penalties + if penalized {
                    penalty
                } else {
                    0
                };
                let score = if oc + lc == 0 {
                    100
                } else {
                    oc * 100 / (oc + lc)
                };
                self.groups[idx].penalties[j] = MemberPenaltyRecord {
                    member: p.member,
                    group_id: p.group_id,
                    late_count: lc,
                    on_time_count: oc,
                    total_penalties: total,
                    reliability_score: score,
                };
                proof {
                    let ps = old(self)@.account_of(group_id).penalties;
                    crate::ledger::lemma_pen_index(ps, member);
                    let k = crate::ledger::pen_index(ps, member);
                    if k != j {
                        if k < j {
                            assert(ps[k].member != ps[j as int].member);
                        } else {
                            assert(ps[j as int].member != ps[k].member);
                        }
                    }
                    assert(self.groups@[idx as int].penalties@[j as int]
                        == crate::ledger::bumped_penalty(p, penalized, penalty));
                }
            },
            None => {
                let score = if penalized {
                    0
                } else {
                    100
                };
                self.groups[idx].penalties.push(
                    MemberPenaltyRecord {
                        member,
                        group_id,
                        late_count: if penalized {
                            1
                        } else {
                            0
                        },
                        on_time_count: if penalized {
                            0
                        } else {
                            1
                        },
                        total_penalties: if penalized {
                            penalty
                        } else {
                            0
                        },
                        reliability_score: score,
                    },
                );
                proof {
                    assert(self.groups@[idx as int].penalties@.last()
                        == crate::ledger::bumped_penalty(
                        crate::ledger::default_penalty(group_id, member),
                        penalized,
                        penalty,
                    ));
                }
            },
        }
        proof {
            assert(self@ =~~= old(self)@.after_contribute(member, group_id, now));
            crate::invariants::lemma_after_contribute_wf(old(self)@, member, group_id, now);
        }
        Ok(())
    }

    /// Executes the payout of the group's current cycle: callable by
    /// anyone once every member has contributed and the grace period has
    /// fully elapsed. The recipient (the member at the rotation pointer)
    /// is recorded as paid and the pointer advances; the group either
    /// completes or opens the next cycle at `now`.
    pub fn execute_payout(&mut self, group_id: u64, now: u64) -> (r: Result<(), AjoError>)
        requires
            old(self)@.wf(),
        ensures
            final(self)@.wf(),
            match r {
                Ok(()) => old(self)@.payout_check(group_id, now) is None && final(self)@ == old(
                    self,
                )@.after_payout(group_id, now),
                Err(e) => Some(e) == old(self)@.payout_check(group_id, now) && final(self)@
                    == old(self)@,
            },
    {
        if self.paused {
            return Err(AjoError::ContractPaused);
        }
        let idx = match self.group_index(group_id) {
            Some(i) => i,
            None => { return Err(AjoError::GroupNotFound) },
        };
        proof {
            assert(self@.groups[idx as int].wf());
        }
        if self.groups[idx].group.state == GroupState::Cancelled {
            return Err(AjoError::GroupCancelled);
        }
        if self.groups[idx].group.is_complete {
            return Err(AjoError::GroupComplete);
        }
        let cc = self.groups[idx].group.current_cycle;
        let c = (cc - 1) as usize;
        if !all_have_records(&self.groups[idx].group.members, &self.groups[idx].cycles[c]) {
            return Err(AjoError::IncompleteContributions);
        }
        if before_grace_end(&self.groups[idx].group, now) {
            return Err(AjoError::OutsideCycleWindow);
        }

        let pi = self.groups[idx].group.payout_index;
        let recipient = self.groups[idx].group.members[pi as usize];
        self.groups[idx].paid_out.push(recipient);
        let new_pi = pi + 1;
        self.groups[idx].group.payout_index = new_pi;
        if new_pi as usize >= self.groups[idx].group.members.len() {
            self.groups[idx].group.is_complete = true;
            self.groups[idx].group.state = GroupState::Complete;
        } else {
            self.groups[idx].group.current_cycle = cc + 1;
            self.groups[idx].group.cycle_start_time = now;
            self.groups[idx].cycles.push(CycleLedger { records: Vec::new(), penalty_pool: 0 });
        }
        proof {
            assert(self@ =~~= old(self)@.after_payout(group_id, now));
            crate::invariants::lemma_after_payout_wf(old(self)@, group_id, now);
        }
        Ok(())
    }

    /// Cancels the group: creator only, and only while no payout has ever
    /// happened. Every current-cycle contributor is granted a refund of
    /// the full contribution amount and the group becomes cancelled.
    pub fn cancel_group(&mut self, creator: u64, group_id: u64, now: u64) -> (r: Result<
        (),
        AjoError,
    >)
        requires
            old(self)@.wf(),
        ensures
            final(self)@.wf(),
            match r {
                Ok(()) => old(self)@.cancel_check(creator, group_id) is None && final(self)@
                    == old(self)@.after_cancellation(
                    group_id,
                    now,
                    RefundReason::CreatorCancellation,
                ),
                Err(e) => Some(e) == old(self)@.cancel_check(creator, group_id) && final(self)@
                    == old(self)@,
            },
    {
        if self.paused {
            return Err(AjoError::ContractPaused);
        }
        let idx = match self.group_index(group_id) {
            Some(i) => i,
            None => { return Err(AjoError::GroupNotFound) },
        };
        proof {
            assert(self@.groups[idx as int].wf());
        }
        if self.groups[idx].group.creator != creator {
            return Err(AjoError::OnlyCreatorCanCancel);
        }
        if self.groups[idx].group.state == GroupState::Cancelled {
            return Err(AjoError::GroupCancelled);
        }
        if self.groups[idx].group.state == GroupState::Complete {
            return Err(AjoError::GroupComplete);
        }
        if self.groups[idx].group.payout_index > 0 {
            return Err(AjoError::CannotCancelAfterPayout);
        }
        let amount = self.groups[idx].group.contribution_amount;
        let cc = self.groups[idx].group.current_cycle;
        let c = (cc - 1) as usize;
        let acct = &mut self.groups[idx];
        grant_refunds_exec(
            &acct.group.members,
            &acct.cycles[c],
            &mut acct.refunds,
            group_id,
            amount,
            now,
            RefundReason::CreatorCancellation,
        );
        acct.group.state = GroupState::Cancelled;
        proof {
            assert(self@ =~~= old(self)@.after_cancellation(
                group_id,
                now,
                RefundReason::CreatorCancellation,
            ));
            crate::invariants::lemma_after_cancellation_wf(
                old(self)@,
                group_id,
                now,
                RefundReason::CreatorCancellation,
            );
        }
        Ok(())
    }

    /// Creates a refund request: any member, once the current cycle's
    /// grace period has fully timed out and no request exists yet. Voting
    /// stays open for one voting period from `now`.
    pub fn request_refund(&mut self, requester: u64, group_id: u64, now: u64) -> (r: Result<
        (),
        AjoError,
    >)
        requires
            old(self)@.wf(),
            now + crate::types::VOTING_PERIOD <= u64::MAX,
        ensures
            final(self)@.wf(),
            match r {
                Ok(()) => old(self)@.request_check(requester, group_id, now) is None && final(self)@ == old(self)@.after_request(requester, group_id, now),
                Err(e) => Some(e) == old(self)@.request_check(requester, group_id, now) && final(self)@ == old(self)@,
            },
    {
        if self.paused {
            return Err(AjoError::ContractPaused);
        }
        let idx = match self.group_index(group_id) {
            Some(i) => i,
            None => { return Err(AjoError::GroupNotFound) },
        };
        proof {
            assert(self@.groups[idx as int].wf());
        }
        if !contains_u64(&self.groups[idx].group.members, requester) {
            return Err(AjoError::NotMember);
        }
        if self.groups[idx].group.state == GroupState::Cancelled {
            return Err(AjoError::GroupCancelled);
        }
        if self.groups[idx].group.state == GroupState::Complete {
            return Err(AjoError::GroupComplete);
        }
        if !past_grace_at(&self.groups[idx].group, now) {
            return Err(AjoError::CycleNotExpired);
        }
        if self.groups[idx].refund_request.is_some() {
            return Err(AjoError::RefundRequestExists);
        }
        self.groups[idx].refund_request = Some(
            RefundRequest {
                group_id,
                requester,
                created_at: now,
                voting_deadline: now + crate::types::VOTING_PERIOD,
                votes_for: 0,
                votes_against: 0,
                executed: false,
                approved: false,
            },
        );
        proof {
            assert(self@ =~~= old(self)@.after_request(requester, group_id, now));
            crate::invariants::lemma_after_request_wf(old(self)@, requester, group_id, now);
        }
        Ok(())
    }

    /// Casts `voter`'s vote on the group's refund request: member only,
    /// one vote per member, only until the voting deadline.
    pub fn vote_refund(&mut self, voter: u64, group_id: u64, in_favor: bool, now: u64) -> (r:
        Result<(), AjoError>)
        requires
            old(self)@.wf(),
        ensures
            final(self)@.wf(),
            match r {
                Ok(()) => old(self)@.vote_check(voter, group_id, now) is None && final(self)@
                    == old(self)@.after_vote(voter, group_id, in_favor, now),
                Err(e) => Some(e) == old(self)@.vote_check(voter, group_id, now) && final(self)@
                    == old(self)@,
            },
    {
        if self.paused {
            return Err(AjoError::ContractPaused);
        }
        let idx = match self.group_index(group_id) {
            Some(i) => i,
            None => { return Err(AjoError::GroupNotFound) },
        };
        proof {
            assert(self@.groups[idx as int].wf());
        }
        if !contains_u64(&self.groups[idx].group.members, voter) {
            return Err(AjoError::NotMember);
        }
        let rq = match self.groups[idx].refund_request {
            Some(rq) => rq,
            None => { return Err(AjoError::NoRefundRequest) },
        };
        if voted(&self.groups[idx].votes, voter) {
            return Err(AjoError::AlreadyVoted);
        }
        if now > rq.voting_deadline {
            return Err(AjoError::VotingPeriodEnded);
        }
        proof {
            crate::invariants::lemma_votes_bounded(old(self)@.account_of(group_id));
        }
        self.groups[idx].votes.push(RefundVote { group_id, voter, in_favor, timestamp: now });
        let r2 = if in_favor {
            RefundRequest { votes_for: rq.votes_for + 1, ..rq }
        } else {
            RefundRequest { votes_against: rq.votes_against + 1, ..rq }
        };
        self.groups[idx].refund_request = Some(r2);
        proof {
            assert(self@ =~~= old(self)@.after_vote(voter, group_id, in_favor, now));
            crate::invariants::lemma_after_vote_wf(old(self)@, voter, group_id, in_favor, now);
        }
        Ok(())
    }

    /// Decides the group's refund request once its voting deadline has
    /// passed: callable by anyone. With at least 51 percent approval the
    /// group is cancelled and current-cycle contributors are refunded
    /// (reason: member vote); otherwise the request is marked executed and
    /// rejected, which is this operation's one failure with a state
    /// change.
    pub fn execute_refund(&mut self, executor: u64, group_id: u64, now: u64) -> (r: Result<
        (),
        AjoError,
    >)
        requires
            old(self)@.wf(),
        ensures
            final(self)@.wf(),
            match r {
                Ok(()) => old(self)@.execute_refund_check(group_id, now) is None && final(self)@
                    == old(self)@.after_refund_decided(group_id, now, true),
                Err(e) => Some(e) == old(self)@.execute_refund_check(group_id, now) && final(self)@ == if e == AjoError::RefundNotApproved {
                    old(self)@.after_refund_decided(group_id, now, false)
                } else {
                    old(self)@
                },
            },
    {
        let _ = executor;
        if self.paused {
            return Err(AjoError::ContractPaused);
        }
        let idx = match self.group_index(group_id) {
            Some(i) => i,
            None => { return Err(AjoError::GroupNotFound) },
        };
        proof {
            assert(self@.groups[idx as int].wf());
        }
        let rq = match self.groups[idx].refund_request {
            Some(rq) => rq,
            None => { return Err(AjoError::NoRefundRequest) },
        };
        if rq.executed {
            return Err(AjoError::RefundAlreadyExecuted);
        }
        if now <= rq.voting_deadline {
            return Err(AjoError::VotingPeriodActive);
        }
        proof {
            crate::invariants::lemma_votes_bounded(old(self)@.account_of(group_id));
        }
        let total = rq.votes_for + rq.votes_against;
        let approved = if total > 0 {
            rq.votes_for * 100 / total >= crate::types::REFUND_APPROVAL_THRESHOLD
        } else {
            false
        };
        if !approved {
            self.groups[idx].refund_request = Some(
                RefundRequest { executed: true, approved: false, ..rq },
            );
            proof {
                assert(self@ =~~= old(self)@.after_refund_decided(group_id, now, false));
                crate::invariants::lemma_after_refund_decided_wf(old(self)@, group_id, now, false);
            }
            return Err(AjoError::RefundNotApproved);
        }
        self.groups[idx].refund_request = Some(
            RefundRequest { executed: true, approved: true, ..rq },
        );
        let amount = self.groups[idx].group.contribution_amount;
        let cc = self.groups[idx].group.current_cycle;
        let c = (cc - 1) as usize;
        let acct = &mut self.groups[idx];
        grant_refunds_exec(
            &acct.group.members,
            &acct.cycles[c],
            &mut acct.refunds,
            group_id,
            amount,
            now,
            RefundReason::MemberVote,
        );
        acct.group.state = GroupState::Cancelled;
        proof {
            assert(self@ =~~= old(self)@.after_refund_decided(group_id, now, true));
            crate::invariants::lemma_after_refund_decided_wf(old(self)@, group_id, now, true);
        }
        Ok(())
    }

    /// Forces a refund of every current-cycle contributor and cancels the
    /// group: admin only, available in any state but an already-cancelled
    /// one, and bypasses the voting protocol. Like every other mutating
    /// group operation it is halted while the engine is paused.
    pub fn emergency_refund(&mut self, admin: u64, group_id: u64, now: u64) -> (r: Result<
        (),
        AjoError,
    >)
        requires
            old(self)@.wf(),
        ensures
            final(self)@.wf(),
            match r {
                Ok(()) => old(self)@.emergency_check(admin, group_id) is None && final(self)@
                    == old(self)@.after_cancellation(group_id, now, RefundReason::EmergencyRefund),
                Err(e) => Some(e) == old(self)@.emergency_check(admin, group_id) && final(self)@
                    == old(self)@,
            },
    {
        if self.paused {
            return Err(AjoError::ContractPaused);
        }
        let authorized = match self.admin {
            Some(a) => a == admin,
            None => false,
        };
        if !authorized {
            return Err(AjoError::Unauthorized);
        }
        let idx = match self.group_index(group_id) {
            Some(i) => i,
            None => { return Err(AjoError::GroupNotFound) },
        };
        proof {
            assert(self@.groups[idx as int].wf());
        }
        if self.groups[idx].group.state == GroupState::Cancelled {
            return Err(AjoError::GroupCancelled);
        }
        let amount = self.groups[idx].group.contribution_amount;
        let cc = self.groups[idx].group.current_cycle;
        let c = (cc - 1) as usize;
        let acct = &mut self.groups[idx];
        grant_refunds_exec(
            &acct.group.members,
            &acct.cycles[c],
            &mut acct.refunds,
            group_id,
            amount,
            now,
            RefundReason::EmergencyRefund,
        );
        acct.group.state = GroupState::Cancelled;
        proof {
            assert(self@ =~~= old(self)@.after_cancellation(
                group_id,
                now,
                RefundReason::EmergencyRefund,
            ));
            crate::invariants::lemma_after_cancellation_wf(
                old(self)@,
                group_id,
                now,
                RefundReason::EmergencyRefund,
            );
        }
        Ok(())
    }

    /// Sets or replaces the group's descriptive metadata: creator only,
    /// with each field held to its length limit.
    pub fn set_group_metadata(
        &mut self,
        caller: u64,
        group_id: u64,
        name: String,
        description: String,
        rules: String,
    ) -> (r: Result<(), AjoError>)
        requires
            old(self)@.wf(),
        ensures
            final(self)@.wf(),
            match r {
                Ok(()) => old(self)@.metadata_check(
                    caller,
                    group_id,
                    crate::types::MetadataModel {
                        name: name@,
                        description: description@,
                        rules: rules@,
                    },
                ) is None && final(self)@ == old(self)@.after_metadata(
                    group_id,
                    crate::types::MetadataModel {
                        name: name@,
                        description: description@,
                        rules: rules@,
                    },
                ),
                Err(e) => Some(e) == old(self)@.metadata_check(
                    caller,
                    group_id,
                    crate::types::MetadataModel {
                        name: name@,
                        description: description@,
                        rules: rules@,
                    },
                ) && final(self)@ == old(self)@,
            },
    {
        if self.paused {
            return Err(AjoError::ContractPaused);
        }
        if name.as_str().unicode_len() > crate::types::MAX_NAME_LENGTH
            || description.as_str().unicode_len() > crate::types::MAX_DESCRIPTION_LENGTH
            || rules.as_str().unicode_len() > crate::types::MAX_RULES_LENGTH {
            return Err(AjoError::MetadataTooLong);
        }
        let idx = match self.group_index(group_id) {
            Some(i) => i,
            None => { return Err(AjoError::GroupNotFound) },
        };
        proof {
            assert(self@.groups[idx as int].wf());
        }
        if self.groups[idx].group.creator != caller {
            return Err(AjoError::Unauthorized);
        }
        self.groups[idx].metadata = Some(GroupMetadata { name, description, rules });
        proof {
            let md = crate::types::MetadataModel {
                name: name@,
                description: description@,
                rules: rules@,
            };
            assert(self@ =~~= old(self)@.after_metadata(group_id, md));
            crate::invariants::lemma_after_metadata_wf(old(self)@, group_id, md);
        }
        Ok(())
    }

    /// Returns a group's full record.
    pub fn get_group(&self, group_id: u64) -> (r: Result<Group, AjoError>)
        requires
            self@.wf(),
        ensures
            match r {
                Ok(g) => self@.has_group(group_id) && g@ == self@.group_of(group_id),
                Err(e) => e == AjoError::GroupNotFound && !self@.has_group(group_id),
            },
    {
        match self.group_index(group_id) {
            Some(i) => Ok(self.groups[i].group.clone()),
            None => Err(AjoError::GroupNotFound),
        }
    }

    /// Returns a group's members in join (and payout) order.
    pub fn list_members(&self, group_id: u64) -> (r: Result<Vec<u64>, AjoError>)
        requires
            self@.wf(),
        ensures
            match r {
                Ok(ms) => self@.has_group(group_id) && ms@ == self@.group_of(group_id).members,
                Err(e) => e == AjoError::GroupNotFound && !self@.has_group(group_id),
            },
    {
        match self.group_index(group_id) {
            Some(i) => {
                let ms = self.groups[i].group.members.clone();
                proof {
                    assert(ms@ =~= self@.group_of(group_id).members);
                }
                Ok(ms)
            },
            None => Err(AjoError::GroupNotFound),
        }
    }

    /// Whether `address` is a member of the group.
    pub fn is_member(&self, group_id: u64, address: u64) -> (r: Result<bool, AjoError>)
        requires
            self@.wf(),
        ensures
            match r {
                Ok(b) => self@.has_group(group_id) && b == self@.group_of(group_id).members.contains(
                    address,
                ),
                Err(e) => e == AjoError::GroupNotFound && !self@.has_group(group_id),
            },
    {
        match self.group_index(group_id) {
            Some(i) => Ok(contains_u64(&self.groups[i].group.members, address)),
            None => Err(AjoError::GroupNotFound),
        }
    }

    /// Whether the group has completed its full rotation.
    pub fn is_complete(&self, group_id: u64) -> (r: Result<bool, AjoError>)
        requires
            self@.wf(),
        ensures
            match r {
                Ok(b) => self@.has_group(group_id) && b == self@.group_of(group_id).is_complete,
                Err(e) => e == AjoError::GroupNotFound && !self@.has_group(group_id),
            },
    {
        match self.group_index(group_id) {
            Some(i) => Ok(self.groups[i].group.is_complete),
            None => Err(AjoError::GroupNotFound),
        }
    }

    /// Returns the penalty pool collected in `cycle` of the group; zero for
    /// a cycle that has not started.
    pub fn get_cycle_penalty_pool(&self, group_id: u64, cycle: u32) -> (r: Result<i128, AjoError>)
        requires
            self@.wf(),
        ensures
            match r {
                Ok(p) => self@.has_group(group_id) && p == self@.account_of(group_id).pool_of(
                    cycle,
                ),
                Err(e) => e == AjoError::GroupNotFound && !self@.has_group(group_id),
            },
    {
        match self.group_index(group_id) {
            Some(i) => {
                let a = &self.groups[i];
                if 1 <= cycle && (cycle as usize) <= a.cycles.len() {
                    Ok(a.cycles[(cycle - 1) as usize].penalty_pool)
                } else {
                    Ok(0)
                }
            },
            None => Err(AjoError::GroupNotFound),
        }
    }

    /// Returns, for every member in member order, whether that member has
    /// contributed in `cycle`.
    pub fn get_contribution_status(&self, group_id: u64, cycle: u32) -> (r: Result<
        Vec<(u64, bool)>,
        AjoError,
    >)
        requires
            self@.wf(),
        ensures
            match r {
                Ok(v) => {
                    &&& self@.has_group(group_id)
                    &&& v@.len() == self@.group_of(group_id).members.len()
                    &&& forall|i: int|
                        0 <= i < v@.len() ==> #[trigger] v@[i] == (
                            self@.group_of(group_id).members[i],
                            self@.account_of(group_id).contributed_in(
                                cycle,
                                self@.group_of(group_id).members[i],
                            ),
                        )
                },
                Err(e) => e == AjoError::GroupNotFound && !self@.has_group(group_id),
            },
    {
        let idx = match self.group_index(group_id) {
            Some(i) => i,
            None => { return Err(AjoError::GroupNotFound) },
        };
        let a = &self.groups[idx];
        let in_range = 1 <= cycle && (cycle as usize) <= a.cycles.len();
        let mut out: Vec<(u64, bool)> = Vec::new();
        let mut i: usize = 0;
        while i < a.group.members.len()
            invariant
                i <= a.group.members@.len(),
                out@.len() == i,
                in_range == (1 <= cycle <= a@.cycles.len()),
                forall|j: int|
                    0 <= j < i ==> #[trigger] out@[j] == (
                        a.group.members@[j],
                        a@.contributed_in(cycle, a.group.members@[j]),
                    ),
            decreases a.group.members@.len() - i,
        {
            let m = a.group.members[i];
            let paid = if in_range {
                match find_record(&a.cycles[(cycle - 1) as usize].records, m) {
                    Some(k) => {
                        proof {
                            assert(a@.cycles[cycle - 1].records[k as int].member == m);
                        }
                        true
                    },
                    None => false,
                }
            } else {
                false
            };
            proof {
                assert(paid == a@.contributed_in(cycle, m));
            }
            out.push((m, paid));
            i += 1;
        }
        Ok(out)
    }

    /// Computes a consolidated snapshot of the group at time `now`: cycle
    /// timing, who has contributed and who is pending (in member order),
    /// the next recipient, and the current penalty pool. The bound on the
    /// group's timestamps keeps the reported window ends representable.
    pub fn get_group_status(&self, group_id: u64, now: u64) -> (r: Result<GroupStatus, AjoError>)
        requires
            self@.wf(),
            self@.has_group(group_id) ==> self@.group_of(group_id).grace_end() <= u64::MAX,
        ensures
            match r {
                Ok(st) => {
                    &&& self@.has_group(group_id)
                    &&& st.group_id == self@.group_of(group_id).id
                    &&& st.current_cycle == self@.group_of(group_id).current_cycle
                    &&& st.has_next_recipient == !self@.group_of(group_id).is_complete
                    &&& st.next_recipient == if self@.group_of(group_id).is_complete {
                        self@.group_of(group_id).creator
                    } else {
                        self@.group_of(group_id).members[self@.group_of(group_id).payout_index as int]
                    }
                    &&& st.contributions_received == contributed_count(
                        self@.group_of(group_id).members,
                        self@.account_of(group_id).cur(),
                    )
                    &&& st.total_members == self@.group_of(group_id).members.len()
                    &&& st.pending_contributors@ == pending_of(
                        self@.group_of(group_id).members,
                        self@.account_of(group_id).cur(),
                    )
                    &&& st.is_complete == self@.group_of(group_id).is_complete
                    &&& st.is_cycle_active == self@.group_of(group_id).is_on_time(now)
                    &&& st.cycle_start_time == self@.group_of(group_id).cycle_start_time
                    &&& st.cycle_end_time == self@.group_of(group_id).cycle_end()
                    &&& st.current_time == now
                    &&& st.cycle_penalty_pool == self@.account_of(group_id).cur().penalty_pool
                    &&& st.is_in_grace_period == self@.group_of(group_id).is_within_grace(now)
                    &&& st.grace_period_end_time == self@.group_of(group_id).grace_end()
                },
                Err(e) => e == AjoError::GroupNotFound && !self@.has_group(group_id),
            },
    {
        let idx = match self.group_index(group_id) {
            Some(i) => i,
            None => { return Err(AjoError::GroupNotFound) },
        };
        proof {
            assert(self@.groups[idx as int].wf());
        }
        let a = &self.groups[idx];
        let cycle_end_time = a.group.cycle_start_time + a.group.cycle_duration;
        let grace_period_end_time = cycle_end_time + a.group.grace_period;
        let is_cycle_active = now < cycle_end_time;
        let is_in_grace_period = now >= cycle_end_time && now <= grace_period_end_time;
        let c = (a.group.current_cycle - 1) as usize;
        let led = &a.cycles[c];

        let ghost mems = a.group.members@;
        let ghost curled = a@.cur();
        let mut pending: Vec<u64> = Vec::new();
        let mut received: u32 = 0;
        proof {
            assert(mems.take(0) =~= Seq::<u64>::empty());
            reveal(Seq::filter);
            assert(pending@ == pending_of(mems.take(0), curled));
            assert(received == contributed_count(mems.take(0), curled));
        }
        let mut i: usize = 0;
        while i < a.group.members.len()
            invariant
                i <= mems.len(),
                mems.len() <= 100,
                mems == a.group.members@,
                curled == a@.cur(),
                led@ == curled,
                received <= i,
                pending@ == pending_of(mems.take(i as int), curled),
                received == contributed_count(mems.take(i as int), curled),
            decreases mems.len() - i,
        {
            let m = a.group.members[i];
            let paid = match find_record(&led.records, m) {
                Some(k) => {
                    proof {
                        assert(curled.records[k as int].member == m);
                    }
                    true
                },
                None => false,
            };
            proof {
                assert(paid == curled.contributed(m));
            }
            if paid {
                received = received + 1;
            } else {
                pending.push(m);
            }
            proof {
                crate::seq_facts::lemma_take_one_more(mems, i as int);
                reveal(Seq::filter);
                assert(mems.take(i + 1).drop_last() =~= mems.take(i as int));
                assert(mems.take(i + 1).last() == m);
            }
            i += 1;
        }
        proof {
            assert(mems.take(mems.len() as int) =~= mems);
        }

        let (has_next_recipient, next_recipient) = if a.group.is_complete {
            (false, a.group.creator)
        } else {
            (true, a.group.members[a.group.payout_index as usize])
        };

        Ok(
            GroupStatus {
                group_id: a.group.id,
                current_cycle: a.group.current_cycle,
                has_next_recipient,
                next_recipient,
                contributions_received: received,
                total_members: a.group.members.len() as u32,
                pending_contributors: pending,
                is_complete: a.group.is_complete,
                is_cycle_active,
                cycle_start_time: a.group.cycle_start_time,
                cycle_end_time,
                current_time: now,
                cycle_penalty_pool: led.penalty_pool,
                is_in_grace_period,
                grace_period_end_time,
            },
        )
    }

    /// Returns the full contribution record of `member` for `cycle`, when
    /// one exists.
    pub fn get_contribution_detail(&self, group_id: u64, cycle: u32, member: u64) -> (r: Result<
        ContributionRecord,
        AjoError,
    >)
        requires
            self@.wf(),
        ensures
            match r {
                Ok(rec) => {
                    &&& self@.has_group(group_id)
                    &&& self@.account_of(group_id).contributed_in(cycle, member)
                    &&& rec == rec_of(
                        self@.account_of(group_id).cycles[cycle - 1].records,
                        member,
                    )
                },
                Err(e) => e == AjoError::GroupNotFound && !(self@.has_group(group_id)
                    && self@.account_of(group_id).contributed_in(cycle, member)),
            },
    {
        match self.group_index(group_id) {
            Some(i) => {
                let a = &self.groups[i];
                if 1 <= cycle && (cycle as usize) <= a.cycles.len() {
                    let led = &a.cycles[(cycle - 1) as usize];
                    match find_record(&led.records, member) {
                        Some(j) => {
                            proof {
                                lemma_rec_index(led.records@, member);
                                let k = crate::ledger::rec_index(led.records@, member);
                                if k != j {
                                    assert(led.records@[k].member == led.records@[j as int].member);
                                }
                            }
                            Ok(led.records[j])
                        },
                        None => Err(AjoError::GroupNotFound),
                    }
                } else {
                    Err(AjoError::GroupNotFound)
                }
            },
            None => Err(AjoError::GroupNotFound),
        }
    }

    /// Returns `member`'s penalty statistics for the group; a fresh default
    /// (no contributions counted, full reliability) when the member has not
    /// contributed yet.
    pub fn get_member_penalty_record(&self, group_id: u64, member: u64) -> (r: Result<
        MemberPenaltyRecord,
        AjoError,
    >)
        requires
            self@.wf(),
        ensures
            match r {
                Ok(p) => {
                    &&& self@.has_group(group_id)
                    &&& self@.group_of(group_id).members.contains(member)
                    &&& p == if has_pen(self@.account_of(group_id).penalties, member) {
                        pen_of(self@.account_of(group_id).penalties, member)
                    } else {
                        default_penalty(group_id, member)
                    }
                },
                Err(e) => if !self@.has_group(group_id) {
                    e == AjoError::GroupNotFound
                } else {
                    e == AjoError::NotMember && !self@.group_of(group_id).members.contains(member)
                },
            },
    {
        match self.group_index(group_id) {
            Some(i) => {
                let a = &self.groups[i];
                if !contains_u64(&a.group.members, member) {
                    return Err(AjoError::NotMember);
                }
                match find_penalty(&a.penalties, member) {
                    Some(j) => {
                        proof {
                            lemma_pen_index(a.penalties@, member);
                            let k = crate::ledger::pen_index(a.penalties@, member);
                            if k != j {
                                assert(a.penalties@[k].member == a.penalties@[j as int].member);
                            }
                        }
                        Ok(a.penalties[j])
                    },
                    None => Ok(
                        MemberPenaltyRecord {
                            member,
                            group_id,
                            late_count: 0,
                            on_time_count: 0,
                            total_penalties: 0,
                            reliability_score: 100,
                        },
                    ),
                }
            },
            None => Err(AjoError::GroupNotFound),
        }
    }

    /// Returns the group's refund request, when one exists.
    pub fn get_refund_request(&self, group_id: u64) -> (r: Result<RefundRequest, AjoError>)
        requires
            self@.wf(),
        ensures
            match r {
                Ok(req) => self@.has_group(group_id) && self@.account_of(group_id).refund_request
                    == Some(req),
                Err(e) => e == AjoError::NoRefundRequest && (!self@.has_group(group_id)
                    || self@.account_of(group_id).refund_request is None),
            },
    {
        match self.group_index(group_id) {
            Some(i) => {
                match &self.groups[i].refund_request {
                    Some(req) => Ok(*req),
                    None => Err(AjoError::NoRefundRequest),
                }
            },
            None => Err(AjoError::NoRefundRequest),
        }
    }

    /// Returns `member`'s refund record, when one exists.
    pub fn get_refund_record(&self, group_id: u64, member: u64) -> (r: Result<
        RefundRecord,
        AjoError,
    >)
        requires
            self@.wf(),
        ensures
            match r {
                Ok(rec) => {
                    &&& self@.has_group(group_id)
                    &&& has_refund_rec(self@.account_of(group_id).refunds, member)
                    &&& rec == refund_of(self@.account_of(group_id).refunds, member)
                },
                Err(e) => e == AjoError::GroupNotFound && !(self@.has_group(group_id)
                    && has_refund_rec(self@.account_of(group_id).refunds, member)),
            },
    {
        match self.group_index(group_id) {
            Some(i) => {
                let a = &self.groups[i];
                match find_refund(&a.refunds, member) {
                    Some(j) => {
                        proof {
                            lemma_refund_index(a.refunds@, member);
                            let k = crate::ledger::refund_index(a.refunds@, member);
                            if k != j {
                                assert(a.refunds@[k].member == a.refunds@[j as int].member);
                            }
                        }
                        Ok(a.refunds[j])
                    },
                    None => Err(AjoError::GroupNotFound),
                }
            },
            None => Err(AjoError::GroupNotFound),
        }
    }

    /// Returns the group's metadata, when it was ever set.
    pub fn get_group_metadata(&self, group_id: u64) -> (r: Result<GroupMetadata, AjoError>)
        requires
            self@.wf(),
        ensures
            match r {
                Ok(md) => self@.has_group(group_id) && self@.account_of(group_id).metadata
                    == Some(md@),
                Err(e) => e == AjoError::GroupNotFound && (!self@.has_group(group_id)
                    || self@.account_of(group_id).metadata is None),
            },
    {
        match self.group_index(group_id) {
            Some(i) => {
                match &self.groups[i].metadata {
                    Some(md) => Ok(md.clone()),
                    None => Err(AjoError::GroupNotFound),
                }
            },
            None => Err(AjoError::GroupNotFound),
        }
    }
}

} // verus!
