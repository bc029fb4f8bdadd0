//! Per-group bookkeeping: the cycle-scoped contribution ledgers, member
//! penalty aggregates, payout audit trail, metadata, and refund governance
//! records of one group, together with the ghost models and the structural
//! invariants that tie them to the group's configuration.

use vstd::prelude::*;
use vstd::arithmetic::div_mod::{
    lemma_div_is_ordered, lemma_div_multiples_vanish, lemma_div_pos_is_pos,
};
use vstd::arithmetic::mul::{lemma_mul_inequality, lemma_mul_is_commutative, lemma_mul_nonnegative};

use crate::seq_facts::lemma_distinct_within_len;
use crate::types::{
    ContributionRecord, Group, GroupMetadata, GroupModel, GroupState, MemberPenaltyRecord,
    MetadataModel, RefundReason, RefundRecord, RefundRequest, RefundVote, VOTING_PERIOD,
    reliability_of,
};

verus! {

/// All contribution bookkeeping of one cycle of one group: the contribution
/// records in arrival order and the penalty pool they have fed.
#[derive(Clone, Debug, PartialEq, Eq)]
pub struct CycleLedger {
    /// Contribution records of this cycle, in arrival order; at most one
    /// per member.
    pub records: Vec<ContributionRecord>,
    /// Sum of the penalty amounts of this cycle's records.
    pub penalty_pool: i128,
}

/// Ghost model of a [`CycleLedger`].
#[verifier::ext_equal]
pub struct CycleModel {
    pub records: Seq<ContributionRecord>,
    pub penalty_pool: i128,
}

impl View for CycleLedger {
    type V = CycleModel;

    open spec fn view(&self) -> CycleModel {
        CycleModel { records: self.records@, penalty_pool: self.penalty_pool }
    }
}

/// Whether `records` holds a contribution record of member `m`.
pub open spec fn has_rec(records: Seq<ContributionRecord>, m: u64) -> bool {
    exists|i: int| 0 <= i < records.len() && records[i].member == m
}

/// Index of member `m`'s contribution record in `records`.
pub open spec fn rec_index(records: Seq<ContributionRecord>, m: u64) -> int {
    choose|i: int| 0 <= i < records.len() && records[i].member == m
}

/// Sum of the penalty amounts of a sequence of contribution records.
pub open spec fn sum_penalties(records: Seq<ContributionRecord>) -> int
    decreases records.len(),
{
    if records.len() == 0 {
        0
    } else {
        sum_penalties(records.drop_last()) + records.last().penalty_amount
    }
}

impl CycleModel {
    /// Whether member `m` has contributed in this cycle.
    pub open spec fn contributed(self, m: u64) -> bool {
        has_rec(self.records, m)
    }

    /// The empty ledger a fresh cycle starts from.
    pub open spec fn empty() -> CycleModel {
        CycleModel { records: Seq::empty(), penalty_pool: 0 }
    }

    /// Structural invariant of one cycle's ledger relative to the group `g`
    /// it belongs to and the cycle number it covers: one record per member,
    /// each from a current member, correctly keyed, with a penalty bounded
    /// by the contribution amount, and a pool equal to the records' sum.
    pub open spec fn wf(self, g: GroupModel, cycle: u32) -> bool {
        &&& forall|i: int, j: int|
            #![trigger self.records[i].member, self.records[j].member]
            0 <= i < j < self.records.len() ==> self.records[i].member != self.records[j].member
        &&& forall|i: int|
            0 <= i < self.records.len() ==> {
                let r = #[trigger] self.records[i];
                &&& g.members.contains(r.member)
                &&& r.group_id == g.id
                &&& r.cycle == cycle
                &&& r.has_paid
                &&& 0 <= r.penalty_amount <= g.contribution_amount
                &&& (!r.is_late ==> r.penalty_amount == 0)
            }
        &&& self.penalty_pool == sum_penalties(self.records)
    }
}

/// Whether `ps` holds a penalty aggregate of member `m`.
pub open spec fn has_pen(ps: Seq<MemberPenaltyRecord>, m: u64) -> bool {
    exists|i: int| 0 <= i < ps.len() && ps[i].member == m
}

/// Index of member `m`'s penalty aggregate in `ps`.
pub open spec fn pen_index(ps: Seq<MemberPenaltyRecord>, m: u64) -> int {
    choose|i: int| 0 <= i < ps.len() && ps[i].member == m
}

/// The penalty aggregate a member starts from before any contribution has
/// been counted.
pub open spec fn default_penalty(gid: u64, m: u64) -> MemberPenaltyRecord {
    MemberPenaltyRecord {
        member: m,
        group_id: gid,
        late_count: 0,
        on_time_count: 0,
        total_penalties: 0,
        reliability_score: 100,
    }
}

/// A penalty aggregate after counting one more contribution: a penalized
/// late one when `late` holds (adding `pen`), an on-time one otherwise.
pub open spec fn bumped_penalty(p: MemberPenaltyRecord, late: bool, pen: i128) -> MemberPenaltyRecord {
    let lc: u32 = if late { (p.late_count + 1) as u32 } else { p.late_count };
    let oc: u32 = if late { p.on_time_count } else { (p.on_time_count + 1) as u32 };
    MemberPenaltyRecord {
        member: p.member,
        group_id: p.group_id,
        late_count: lc,
        on_time_count: oc,
        total_penalties: (p.total_penalties + if late { pen as int } else { 0 }) as i128,
        reliability_score: reliability_of(oc, lc) as u32,
    }
}

/// The penalty aggregates after counting one more contribution of member
/// `m`: the member's aggregate is bumped, or created from the default when
/// none exists yet; all other aggregates are untouched.
pub open spec fn upsert_penalty(
    ps: Seq<MemberPenaltyRecord>,
    gid: u64,
    m: u64,
    late: bool,
    pen: i128,
) -> Seq<MemberPenaltyRecord> {
    if has_pen(ps, m) {
        ps.update(pen_index(ps, m), bumped_penalty(ps[pen_index(ps, m)], late, pen))
    } else {
        ps.push(bumped_penalty(default_penalty(gid, m), late, pen))
    }
}

/// Whether `rs` holds a refund record of member `m`.
pub open spec fn has_refund_rec(rs: Seq<RefundRecord>, m: u64) -> bool {
    exists|i: int| 0 <= i < rs.len() && rs[i].member == m
}

/// Index of member `m`'s refund record in `rs`.
pub open spec fn refund_index(rs: Seq<RefundRecord>, m: u64) -> int {
    choose|i: int| 0 <= i < rs.len() && rs[i].member == m
}

/// Refund records after granting `r`: the member's record is replaced, or
/// appended when none exists.
pub open spec fn upsert_refund(rs: Seq<RefundRecord>, r: RefundRecord) -> Seq<RefundRecord> {
    if has_refund_rec(rs, r.member) {
        rs.update(refund_index(rs, r.member), r)
    } else {
        rs.push(r)
    }
}

/// Refund records after walking `members` in order and granting each member
/// with a contribution record in `led` a refund of `amount`.
pub open spec fn grant_refunds(
    rs: Seq<RefundRecord>,
    members: Seq<u64>,
    led: CycleModel,
    gid: u64,
    amount: i128,
    now: u64,
    reason: RefundReason,
) -> Seq<RefundRecord>
    decreases members.len(),
{
    if members.len() == 0 {
        rs
    } else {
        let rs1 = if led.contributed(members[0]) {
            upsert_refund(
                rs,
                RefundRecord {
                    group_id: gid,
                    member: members[0],
                    amount,
                    timestamp: now,
                    reason,
                },
            )
        } else {
            rs
        };
        grant_refunds(rs1, members.drop_first(), led, gid, amount, now, reason)
    }
}

/// Whether `vs` holds a vote of member `m`.
pub open spec fn has_vote(vs: Seq<RefundVote>, m: u64) -> bool {
    exists|i: int| 0 <= i < vs.len() && vs[i].voter == m
}

/// Number of votes in `vs` cast in favor.
pub open spec fn count_in_favor(vs: Seq<RefundVote>) -> int
    decreases vs.len(),
{
    if vs.len() == 0 {
        0
    } else {
        count_in_favor(vs.drop_last()) + if vs.last().in_favor { 1int } else { 0int }
    }
}

/// The contribution record of member `m` in `records`.
pub open spec fn rec_of(records: Seq<ContributionRecord>, m: u64) -> ContributionRecord {
    records[rec_index(records, m)]
}

/// The penalty aggregate of member `m` in `ps`.
pub open spec fn pen_of(ps: Seq<MemberPenaltyRecord>, m: u64) -> MemberPenaltyRecord {
    ps[pen_index(ps, m)]
}

/// The refund record of member `m` in `rs`.
pub open spec fn refund_of(rs: Seq<RefundRecord>, m: u64) -> RefundRecord {
    rs[refund_index(rs, m)]
}

/// The index a record of member `m` was found at is in bounds and holds `m`.
pub proof fn lemma_rec_index(records: Seq<ContributionRecord>, m: u64)
    requires
        has_rec(records, m),
    ensures
        0 <= rec_index(records, m) < records.len(),
        records[rec_index(records, m)].member == m,
{
}

/// The index a penalty aggregate of member `m` was found at is in bounds
/// and holds `m`.
pub proof fn lemma_pen_index(ps: Seq<MemberPenaltyRecord>, m: u64)
    requires
        has_pen(ps, m),
    ensures
        0 <= pen_index(ps, m) < ps.len(),
        ps[pen_index(ps, m)].member == m,
{
}

/// The index a refund record of member `m` was found at is in bounds and
/// holds `m`.
pub proof fn lemma_refund_index(rs: Seq<RefundRecord>, m: u64)
    requires
        has_refund_rec(rs, m),
    ensures
        0 <= refund_index(rs, m) < rs.len(),
        rs[refund_index(rs, m)].member == m,
{
}

/// Appending a contribution record leaves every other member's presence
/// unchanged and makes the new record's member present.
pub proof fn lemma_has_rec_push(records: Seq<ContributionRecord>, r: ContributionRecord)
    ensures
        forall|x: u64|
            has_rec(#[trigger] records.push(r), x) <==> (has_rec(records, x) || r.member == x),
{
    assert forall|x: u64| has_rec(records.push(r), x) implies (has_rec(records, x) || r.member
        == x) by {
        let i = choose|i: int| 0 <= i < records.push(r).len() && records.push(r)[i].member == x;
        if i < records.len() {
            assert(records[i].member == x);
        }
    }
    assert forall|x: u64| has_rec(records, x) implies has_rec(records.push(r), x) by {
        let i = choose|i: int| 0 <= i < records.len() && records[i].member == x;
        assert(records.push(r)[i].member == x);
    }
    assert(records.push(r)[records.len() as int].member == r.member);
}

/// Appending a record adds its penalty to the sum.
pub proof fn lemma_sum_penalties_push(records: Seq<ContributionRecord>, r: ContributionRecord)
    ensures
        sum_penalties(records.push(r)) == sum_penalties(records) + r.penalty_amount,
{
    assert(records.push(r).drop_last() =~= records);
}

/// The sum of penalties of records each bounded by `cap` lies between 0 and
/// `len * cap`.
pub proof fn lemma_sum_penalties_bound(records: Seq<ContributionRecord>, cap: int)
    requires
        cap >= 0,
        forall|i: int|
            0 <= i < records.len() ==> 0 <= (#[trigger] records[i]).penalty_amount <= cap,
    ensures
        0 <= sum_penalties(records) <= records.len() * cap,
    decreases records.len(),
{
    if records.len() == 0 {
    } else {
        let rest = records.drop_last();
        assert(forall|i: int| 0 <= i < rest.len() ==> rest[i] == records[i]);
        lemma_sum_penalties_bound(rest, cap);
        assert(rest.len() * cap + cap == records.len() * cap) by (nonlinear_arith)
            requires rest.len() == records.len() - 1
        ;
    }
}

/// The penalty a late contribution is charged lies between zero and the
/// contribution amount.
pub proof fn lemma_late_penalty_bounds(amount: i128, rate: u32)
    requires
        amount > 0,
        rate <= 100,
    ensures
        0 <= amount * rate / 100 <= amount,
{
    lemma_mul_nonnegative(amount as int, rate as int);
    lemma_div_pos_is_pos(amount * rate, 100);
    lemma_mul_inequality(rate as int, 100, amount as int);
    lemma_mul_is_commutative(amount as int, rate as int);
    lemma_mul_is_commutative(100, amount as int);
    lemma_div_is_ordered(amount * rate, 100 * amount, 100);
    lemma_div_multiples_vanish(amount as int, 100);
}

/// A reliability score always lies between zero and one hundred.
pub proof fn lemma_reliability_bounds(on_time_count: u32, late_count: u32)
    ensures
        0 <= reliability_of(on_time_count, late_count) <= 100,
{
    if on_time_count + late_count == 0 {
    } else {
        let t = on_time_count + late_count as int;
        lemma_mul_nonnegative(on_time_count as int, 100);
        lemma_div_pos_is_pos((on_time_count as int) * 100, t);
        lemma_mul_inequality(on_time_count as int, t, 100);
        lemma_mul_is_commutative(t, 100);
        lemma_div_is_ordered((on_time_count as int) * 100, t * 100, t);
        lemma_div_multiples_vanish(100, t);
    }
}

/// A well-formed cycle ledger holds at most one record per current member,
/// so its penalty pool is bounded by one hundred contribution amounts.
pub proof fn lemma_pool_bound(led: CycleModel, g: GroupModel, cycle: u32)
    requires
        led.wf(g, cycle),
        g.wf(),
    ensures
        led.records.len() <= g.members.len(),
        0 <= led.penalty_pool <= 100 * g.contribution_amount,
{
    let mapped = led.records.map_values(|r: ContributionRecord| r.member);
    assert(forall|i: int| 0 <= i < mapped.len() ==> mapped[i] == led.records[i].member);
    assert(mapped.no_duplicates()) by {
        assert forall|i: int, j: int|
            0 <= i < mapped.len() && 0 <= j < mapped.len() && i != j implies mapped[i]
            != mapped[j] by {
            if i < j {
                assert(led.records[i].member != led.records[j].member);
            } else {
                assert(led.records[j].member != led.records[i].member);
            }
        }
    }
    assert(forall|i: int|
        0 <= i < mapped.len() ==> g.members.contains(#[trigger] mapped[i]));
    lemma_distinct_within_len(mapped, g.members);
    lemma_sum_penalties_bound(led.records, g.contribution_amount as int);
    assert(led.records.len() * g.contribution_amount <= 100 * g.contribution_amount)
        by (nonlinear_arith)
        requires
            led.records.len() <= 100,
            g.contribution_amount >= 0,
    ;
}

/// Appending a vote adds one to the in-favor count exactly when it is in
/// favor.
pub proof fn lemma_count_in_favor_push(vs: Seq<RefundVote>, v: RefundVote)
    ensures
        count_in_favor(vs.push(v)) == count_in_favor(vs) + if v.in_favor {
            1int
        } else {
            0int
        },
{
    assert(vs.push(v).drop_last() =~= vs);
}

/// What granting one refund does: the member's record becomes `r`, every
/// other record is untouched, and no duplicate member appears.
pub proof fn lemma_upsert_refund(rs: Seq<RefundRecord>, r: RefundRecord)
    requires
        forall|i: int, j: int|
            #![trigger rs[i].member, rs[j].member]
            0 <= i < j < rs.len() ==> rs[i].member != rs[j].member,
    ensures
        forall|i: int, j: int|
            #![trigger upsert_refund(rs, r)[i].member, upsert_refund(rs, r)[j].member]
            0 <= i < j < upsert_refund(rs, r).len() ==> upsert_refund(rs, r)[i].member
                != upsert_refund(rs, r)[j].member,
        forall|m: u64|
            has_refund_rec(upsert_refund(rs, r), m) <==> (has_refund_rec(rs, m) || m
                == r.member),
        refund_of(upsert_refund(rs, r), r.member) == r,
        forall|m: u64|
            m != r.member && has_refund_rec(rs, m) ==> refund_of(upsert_refund(rs, r), m)
                == refund_of(rs, m),
        rs.len() <= upsert_refund(rs, r).len(),
{
    let out = upsert_refund(rs, r);
    if has_refund_rec(rs, r.member) {
        let idx = refund_index(rs, r.member);
        lemma_refund_index(rs, r.member);
        assert(forall|i: int| 0 <= i < out.len() && i != idx ==> out[i] == rs[i]);
        assert(out[idx] == r);
        assert(forall|i: int| 0 <= i < out.len() ==> (#[trigger] out[i]).member == rs[i].member);
        assert forall|m: u64| has_refund_rec(out, m) implies (has_refund_rec(rs, m) || m
            == r.member) by {
            let i = choose|i: int| 0 <= i < out.len() && out[i].member == m;
            assert(rs[i].member == m);
        }
        assert forall|m: u64| has_refund_rec(rs, m) implies has_refund_rec(out, m) by {
            let i = choose|i: int| 0 <= i < rs.len() && rs[i].member == m;
            assert(out[i].member == m);
        }
        assert(refund_of(out, r.member) == r) by {
            lemma_refund_index(out, r.member);
            let j = refund_index(out, r.member);
            if j != idx {
                assert(rs[j].member == r.member && rs[idx].member == r.member);
            }
        }
        assert forall|m: u64| m != r.member && has_refund_rec(rs, m) implies refund_of(out, m)
            == refund_of(rs, m) by {
            lemma_refund_index(rs, m);
            lemma_refund_index(out, m);
            let i0 = refund_index(rs, m);
            let i1 = refund_index(out, m);
            assert(out[i1].member == rs[i1].member);
            if i0 != i1 {
                assert(rs[i0].member != rs[i1].member);
            }
        }
    } else {
        assert(out == rs.push(r));
        assert(forall|i: int| 0 <= i < rs.len() ==> out[i] == rs[i]);
        assert(out[rs.len() as int] == r);
        assert forall|m: u64| has_refund_rec(out, m) implies (has_refund_rec(rs, m) || m
            == r.member) by {
            let i = choose|i: int| 0 <= i < out.len() && out[i].member == m;
            if i < rs.len() {
                assert(rs[i].member == m);
            }
        }
        assert forall|m: u64| has_refund_rec(rs, m) implies has_refund_rec(out, m) by {
            let i = choose|i: int| 0 <= i < rs.len() && rs[i].member == m;
            assert(out[i].member == m);
        }
        assert forall|i: int, j: int|
            0 <= i < j < out.len() implies #[trigger] out[i].member != #[trigger] out[
            j].member by {
            if j == rs.len() {
                assert(out[j].member == r.member);
                assert(!has_refund_rec(rs, r.member));
                assert(rs[i].member != r.member);
            }
        }
        assert(refund_of(out, r.member) == r) by {
            assert(out[rs.len() as int].member == r.member);
            lemma_refund_index(out, r.member);
            let j = refund_index(out, r.member);
            if j != rs.len() {
                assert(rs[j].member == r.member);
            }
        }
        assert forall|m: u64| m != r.member && has_refund_rec(rs, m) implies refund_of(out, m)
            == refund_of(rs, m) by {
            lemma_refund_index(rs, m);
            lemma_refund_index(out, m);
            let i0 = refund_index(rs, m);
            let i1 = refund_index(out, m);
            if i1 == rs.len() {
                assert(out[i1].member == r.member);
            }
            assert(out[i1] == rs[i1]);
            if i0 != i1 {
                assert(rs[i0].member != rs[i1].member);
            }
        }
    }
}

/// What walking the member list and granting refunds does: exactly the
/// members with a contribution record in `led` gain (or have overwritten)
/// a refund record of `amount`, every other record is untouched, and no
/// duplicate member appears.
pub proof fn lemma_grant_refunds(
    rs: Seq<RefundRecord>,
    members: Seq<u64>,
    led: CycleModel,
    gid: u64,
    amount: i128,
    now: u64,
    reason: RefundReason,
)
    requires
        forall|i: int, j: int|
            #![trigger rs[i].member, rs[j].member]
            0 <= i < j < rs.len() ==> rs[i].member != rs[j].member,
    ensures
        forall|i: int, j: int|
            #![trigger
                grant_refunds(rs, members, led, gid, amount, now, reason)[i].member,
                grant_refunds(rs, members, led, gid, amount, now, reason)[j].member
            ]
            0 <= i < j < grant_refunds(rs, members, led, gid, amount, now, reason).len()
                ==> grant_refunds(rs, members, led, gid, amount, now, reason)[i].member
                != grant_refunds(rs, members, led, gid, amount, now, reason)[j].member,
        forall|m: u64|
            has_refund_rec(grant_refunds(rs, members, led, gid, amount, now, reason), m)
                <==> (has_refund_rec(rs, m) || (members.contains(m) && led.contributed(m))),
        forall|m: u64|
            members.contains(m) && led.contributed(m) ==> refund_of(
                grant_refunds(rs, members, led, gid, amount, now, reason),
                m,
            ) == (RefundRecord { group_id: gid, member: m, amount, timestamp: now, reason }),
        forall|m: u64|
            !(members.contains(m) && led.contributed(m)) && has_refund_rec(rs, m)
                ==> refund_of(grant_refunds(rs, members, led, gid, amount, now, reason), m)
                == refund_of(rs, m),
    decreases members.len(),
{
    let out = grant_refunds(rs, members, led, gid, amount, now, reason);
    if members.len() == 0 {
        assert(forall|m: u64| !members.contains(m));
    } else {
        let m0 = members[0];
        let r0 = RefundRecord { group_id: gid, member: m0, amount, timestamp: now, reason };
        let rs1 = if led.contributed(m0) {
            upsert_refund(rs, r0)
        } else {
            rs
        };
        if led.contributed(m0) {
            lemma_upsert_refund(rs, r0);
        }
        lemma_grant_refunds(rs1, members.drop_first(), led, gid, amount, now, reason);
        assert forall|m: u64| members.contains(m) implies (m == m0 || members.drop_first().contains(
            m,
        )) by {
            let i = choose|i: int| 0 <= i < members.len() && members[i] == m;
            if i > 0 {
                assert(members.drop_first()[i - 1] == m);
            }
        }
        assert forall|m: u64| members.drop_first().contains(m) implies members.contains(m) by {
            let i = choose|i: int|
                0 <= i < members.drop_first().len() && members.drop_first()[i] == m;
            assert(members[i + 1] == m);
        }
        assert(members.contains(m0));
    }
}

/// What counting one more contribution of member `m` does to the penalty
/// aggregates: the member's aggregate is bumped (from the default when it
/// is new), every other aggregate is untouched, and no duplicate member
/// appears.
pub proof fn lemma_upsert_penalty(
    ps: Seq<MemberPenaltyRecord>,
    gid: u64,
    m: u64,
    late: bool,
    pen: i128,
)
    requires
        forall|i: int, j: int|
            #![trigger ps[i].member, ps[j].member]
            0 <= i < j < ps.len() ==> ps[i].member != ps[j].member,
        has_pen(ps, m) ==> pen_of(ps, m).member == m,
    ensures
        forall|i: int, j: int|
            #![trigger
                upsert_penalty(ps, gid, m, late, pen)[i].member,
                upsert_penalty(ps, gid, m, late, pen)[j].member
            ]
            0 <= i < j < upsert_penalty(ps, gid, m, late, pen).len() ==> upsert_penalty(
                ps,
                gid,
                m,
                late,
                pen,
            )[i].member != upsert_penalty(ps, gid, m, late, pen)[j].member,
        forall|x: u64|
            has_pen(upsert_penalty(ps, gid, m, late, pen), x) <==> (has_pen(ps, x) || x == m),
        pen_of(upsert_penalty(ps, gid, m, late, pen), m) == bumped_penalty(
            if has_pen(ps, m) {
                pen_of(ps, m)
            } else {
                default_penalty(gid, m)
            },
            late,
            pen,
        ),
        forall|x: u64|
            x != m && has_pen(ps, x) ==> pen_of(upsert_penalty(ps, gid, m, late, pen), x)
                == pen_of(ps, x),
{
    let out = upsert_penalty(ps, gid, m, late, pen);
    if has_pen(ps, m) {
        let idx = pen_index(ps, m);
        lemma_pen_index(ps, m);
        let b = bumped_penalty(ps[idx], late, pen);
        assert(b.member == m);
        assert(forall|i: int| 0 <= i < out.len() && i != idx ==> out[i] == ps[i]);
        assert(out[idx] == b);
        assert(forall|i: int| 0 <= i < out.len() ==> (#[trigger] out[i]).member == ps[i].member);
        assert forall|x: u64| has_pen(out, x) implies (has_pen(ps, x) || x == m) by {
            let i = choose|i: int| 0 <= i < out.len() && out[i].member == x;
            assert(ps[i].member == x);
        }
        assert forall|x: u64| has_pen(ps, x) implies has_pen(out, x) by {
            let i = choose|i: int| 0 <= i < ps.len() && ps[i].member == x;
            assert(out[i].member == x);
        }
        assert(pen_of(out, m) == b) by {
            lemma_pen_index(out, m);
            let j = pen_index(out, m);
            if j != idx {
                assert(ps[j].member == m && ps[idx].member == m);
            }
        }
        assert forall|x: u64| x != m && has_pen(ps, x) implies pen_of(out, x) == pen_of(
            ps,
            x,
        ) by {
            lemma_pen_index(ps, x);
            lemma_pen_index(out, x);
            let i0 = pen_index(ps, x);
            let i1 = pen_index(out, x);
            assert(out[i1].member == ps[i1].member);
            if i0 != i1 {
                assert(ps[i0].member != ps[i1].member);
            }
        }
    } else {
        let b = bumped_penalty(default_penalty(gid, m), late, pen);
        assert(b.member == m);
        assert(out == ps.push(b));
        assert(forall|i: int| 0 <= i < ps.len() ==> out[i] == ps[i]);
        assert(out[ps.len() as int] == b);
        assert forall|x: u64| has_pen(out, x) implies (has_pen(ps, x) || x == m) by {
            let i = choose|i: int| 0 <= i < out.len() && out[i].member == x;
            if i < ps.len() {
                assert(ps[i].member == x);
            }
        }
        assert forall|x: u64| has_pen(ps, x) implies has_pen(out, x) by {
            let i = choose|i: int| 0 <= i < ps.len() && ps[i].member == x;
            assert(out[i].member == x);
        }
        assert forall|i: int, j: int|
            0 <= i < j < out.len() implies #[trigger] out[i].member != #[trigger] out[
            j].member by {
            if j == ps.len() {
                assert(out[j].member == m);
                assert(!has_pen(ps, m));
                assert(ps[i].member != m);
            }
        }
        assert(pen_of(out, m) == b) by {
            assert(out[ps.len() as int].member == m);
            lemma_pen_index(out, m);
            let j = pen_index(out, m);
            if j != ps.len() {
                assert(ps[j].member == m);
            }
        }
        assert forall|x: u64| x != m && has_pen(ps, x) implies pen_of(out, x) == pen_of(
            ps,
            x,
        ) by {
            lemma_pen_index(ps, x);
            lemma_pen_index(out, x);
            let i0 = pen_index(ps, x);
            let i1 = pen_index(out, x);
            if i1 == ps.len() {
                assert(out[i1].member == m);
            }
            assert(out[i1] == ps[i1]);
            if i0 != i1 {
                assert(ps[i0].member != ps[i1].member);
            }
        }
    }
}

/// Everything the engine keeps about one group.
#[derive(Clone, Debug, PartialEq, Eq)]
pub struct GroupAccount {
    /// Configuration and lifecycle state of the group.
    pub group: Group,
    /// One contribution ledger per cycle started so far; index `c` covers
    /// cycle `c + 1`.
    pub cycles: Vec<CycleLedger>,
    /// Running penalty aggregates, one per member that has contributed.
    pub penalties: Vec<MemberPenaltyRecord>,
    /// Members that have received their payout, in payout order.
    pub paid_out: Vec<u64>,
    /// Optional descriptive metadata.
    pub metadata: Option<GroupMetadata>,
    /// The group's refund request, if one was ever created.
    pub refund_request: Option<RefundRequest>,
    /// Votes cast on the refund request, in arrival order.
    pub votes: Vec<RefundVote>,
    /// Refunds granted to members, one record per refunded member.
    pub refunds: Vec<RefundRecord>,
}

/// Ghost model of a [`GroupAccount`].
#[verifier::ext_equal]
pub struct AccountModel {
    pub group: GroupModel,
    pub cycles: Seq<CycleModel>,
    pub penalties: Seq<MemberPenaltyRecord>,
    pub paid_out: Seq<u64>,
    pub metadata: Option<MetadataModel>,
    pub refund_request: Option<RefundRequest>,
    pub votes: Seq<RefundVote>,
    pub refunds: Seq<RefundRecord>,
}

impl View for GroupAccount {
    type V = AccountModel;

    open spec fn view(&self) -> AccountModel {
        AccountModel {
            group: self.group@,
            cycles: self.cycles@.map_values(|c: CycleLedger| c@),
            penalties: self.penalties@,
            paid_out: self.paid_out@,
            metadata: match self.metadata {
                Option::Some(md) => Option::Some(md@),
                Option::None => Option::None,
            },
            refund_request: self.refund_request,
            votes: self.votes@,
            refunds: self.refunds@,
        }
    }
}

impl AccountModel {
    /// The contribution ledger of the current cycle.
    pub open spec fn cur(self) -> CycleModel {
        self.cycles[self.group.current_cycle - 1]
    }

    /// Whether member `m` has a contribution record for `cycle`.
    pub open spec fn contributed_in(self, cycle: u32, m: u64) -> bool {
        &&& 1 <= cycle <= self.cycles.len()
        &&& self.cycles[cycle - 1].contributed(m)
    }

    /// Penalty pool of `cycle`; zero for a cycle that has not started.
    pub open spec fn pool_of(self, cycle: u32) -> int {
        if 1 <= cycle <= self.cycles.len() {
            self.cycles[cycle - 1].penalty_pool as int
        } else {
            0
        }
    }

    /// Whether every current member has contributed in the current cycle.
    pub open spec fn all_contributed(self) -> bool {
        forall|i: int|
            0 <= i < self.group.members.len() ==> self.cur().contributed(
                #[trigger] self.group.members[i],
            )
    }

    /// The account a fresh group starts from: the creator as sole member,
    /// cycle 1 open since `now`, and no bookkeeping yet.
    pub open spec fn initial(
        gid: u64,
        creator: u64,
        contribution_amount: i128,
        cycle_duration: u64,
        max_members: u32,
        grace_period: u64,
        penalty_rate: u32,
        now: u64,
    ) -> AccountModel {
        AccountModel {
            group: GroupModel {
                id: gid,
                creator,
                contribution_amount,
                cycle_duration,
                max_members,
                members: seq![creator],
                current_cycle: 1,
                payout_index: 0,
                created_at: now,
                cycle_start_time: now,
                is_complete: false,
                grace_period,
                penalty_rate,
                state: GroupState::Active,
            },
            cycles: seq![CycleModel::empty()],
            penalties: Seq::empty(),
            paid_out: Seq::empty(),
            metadata: Option::None,
            refund_request: Option::None,
            votes: Seq::empty(),
            refunds: Seq::empty(),
        }
    }

    /// Structural invariant of a group's bookkeeping.
    pub open spec fn wf(self) -> bool {
        &&& self.group.wf()
        &&& self.cycles.len() == self.group.current_cycle
        &&& forall|c: int|
            0 <= c < self.cycles.len() ==> (#[trigger] self.cycles[c]).wf(
                self.group,
                (c + 1) as u32,
            )
        &&& forall|i: int, j: int|
            #![trigger self.penalties[i].member, self.penalties[j].member]
            0 <= i < j < self.penalties.len() ==> self.penalties[i].member
                != self.penalties[j].member
        &&& forall|i: int|
            0 <= i < self.penalties.len() ==> {
                let p = #[trigger] self.penalties[i];
                &&& self.group.members.contains(p.member)
                &&& p.group_id == self.group.id
                &&& p.late_count + p.on_time_count + (if self.cur().contributed(p.member) {
                    0int
                } else {
                    1int
                }) <= self.group.current_cycle
                &&& 0 <= p.total_penalties <= p.late_count * self.group.contribution_amount
                &&& p.reliability_score == reliability_of(p.on_time_count, p.late_count)
            }
        &&& self.paid_out == self.group.members.take(self.group.payout_index as int)
        &&& forall|i: int, j: int|
            #![trigger self.votes[i].voter, self.votes[j].voter]
            0 <= i < j < self.votes.len() ==> self.votes[i].voter != self.votes[j].voter
        &&& forall|i: int|
            0 <= i < self.votes.len() ==> {
                let v = #[trigger] self.votes[i];
                &&& self.group.members.contains(v.voter)
                &&& v.group_id == self.group.id
            }
        &&& (self.refund_request is None ==> self.votes.len() == 0)
        &&& match self.refund_request {
            Option::Some(r) => {
                &&& r.group_id == self.group.id
                &&& r.voting_deadline == r.created_at + VOTING_PERIOD
                &&& r.votes_for + r.votes_against == self.votes.len()
                &&& r.votes_for == count_in_favor(self.votes)
            },
            Option::None => true,
        }
        &&& forall|i: int, j: int|
            #![trigger self.refunds[i].member, self.refunds[j].member]
            0 <= i < j < self.refunds.len() ==> self.refunds[i].member != self.refunds[j].member
        &&& forall|i: int|
            0 <= i < self.refunds.len() ==> {
                let r = #[trigger] self.refunds[i];
                &&& self.group.members.contains(r.member)
                &&& r.group_id == self.group.id
            }
    }
}

} // verus!
