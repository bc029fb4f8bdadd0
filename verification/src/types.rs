//! Data model of the engine: group configuration and lifecycle state,
//! per-cycle contribution records, per-member penalty aggregates, refund
//! governance records, and optional descriptive metadata.
//!
//! Member principals are plain `u64` identifiers: the host authenticates the
//! acting principal of each call and hands the engine its identifier.
//! Each executable type has a ghost model (its `View`) over which all
//! contracts are stated.

use vstd::prelude::*;

verus! {

/// Seconds in seven days: the upper bound on a group's grace period.
pub const MAX_GRACE_PERIOD: u64 = 604_800;

/// Voting window of a refund request, in seconds (seven days).
pub const VOTING_PERIOD: u64 = 604_800;

/// Minimum approval percentage required for a member-vote refund.
pub const REFUND_APPROVAL_THRESHOLD: u32 = 51;

/// Smallest member capacity a group may be configured with.
pub const MIN_MEMBERS: u32 = 2;

/// Largest member capacity a group may be configured with.
pub const MAX_MEMBERS_LIMIT: u32 = 100;

/// Maximum length of a group's metadata name, in characters.
pub const MAX_NAME_LENGTH: usize = 50;

/// Maximum length of a group's metadata description, in characters.
pub const MAX_DESCRIPTION_LENGTH: usize = 250;

/// Maximum length of a group's metadata rules, in characters.
pub const MAX_RULES_LENGTH: usize = 1000;

/// State of a group in its lifecycle.
#[derive(Clone, Copy, Debug, PartialEq, Eq, Structural)]
pub enum GroupState {
    /// Group is active and accepting contributions.
    Active,
    /// Group has been cancelled and refunds are being processed.
    Cancelled,
    /// Group has completed all cycles successfully.
    Complete,
}

/// Reason for a refund.
#[derive(Clone, Copy, Debug, PartialEq, Eq, Structural)]
pub enum RefundReason {
    /// Group was cancelled by its creator before the first payout.
    CreatorCancellation,
    /// Refund approved by member vote.
    MemberVote,
    /// Emergency refund by the admin.
    EmergencyRefund,
}

/// Configuration and mutable lifecycle state of one savings group.
#[derive(Debug, PartialEq, Eq)]
pub struct Group {
    /// Unique group identifier, assigned sequentially starting at 1.
    pub id: u64,
    /// Principal that created the group; always the first member.
    pub creator: u64,
    /// Fixed amount each member contributes per cycle; always positive.
    pub contribution_amount: i128,
    /// Duration of each cycle in seconds; always positive.
    pub cycle_duration: u64,
    /// Maximum number of members allowed in the group (2..=100).
    pub max_members: u32,
    /// Ordered list of member principals; join order is payout order.
    pub members: Vec<u64>,
    /// Current cycle number; starts at 1 and increments after each payout.
    pub current_cycle: u32,
    /// Zero-based index into `members` of the next payout recipient.
    pub payout_index: u32,
    /// Timestamp at which the group was created.
    pub created_at: u64,
    /// Timestamp at which the current cycle started.
    pub cycle_start_time: u64,
    /// Whether every member has received a payout.
    pub is_complete: bool,
    /// Seconds after a cycle's end during which late, penalized
    /// contributions are still accepted; at most seven days.
    pub grace_period: u64,
    /// Percentage (0..=100) applied to late contributions as a penalty.
    pub penalty_rate: u32,
    /// Lifecycle state of the group.
    pub state: GroupState,
}

/// Ghost model of a [`Group`]: the same fields with the member list as a
/// mathematical sequence.
#[verifier::ext_equal]
pub struct GroupModel {
    pub id: u64,
    pub creator: u64,
    pub contribution_amount: i128,
    pub cycle_duration: u64,
    pub max_members: u32,
    pub members: Seq<u64>,
    pub current_cycle: u32,
    pub payout_index: u32,
    pub created_at: u64,
    pub cycle_start_time: u64,
    pub is_complete: bool,
    pub grace_period: u64,
    pub penalty_rate: u32,
    pub state: GroupState,
}

impl View for Group {
    type V = GroupModel;

    open spec fn view(&self) -> GroupModel {
        GroupModel {
            id: self.id,
            creator: self.creator,
            contribution_amount: self.contribution_amount,
            cycle_duration: self.cycle_duration,
            max_members: self.max_members,
            members: self.members@,
            current_cycle: self.current_cycle,
            payout_index: self.payout_index,
            created_at: self.created_at,
            cycle_start_time: self.cycle_start_time,
            is_complete: self.is_complete,
            grace_period: self.grace_period,
            penalty_rate: self.penalty_rate,
            state: self.state,
        }
    }
}

impl Clone for Group {
    /// A clone of a group has the same model.
    fn clone(&self) -> (res: Self)
        ensures
            res@ == self@,
    {
        let members = self.members.clone();
        proof {
            assert(members@ =~= self.members@);
        }
        Group {
            id: self.id,
            creator: self.creator,
            contribution_amount: self.contribution_amount,
            cycle_duration: self.cycle_duration,
            max_members: self.max_members,
            members,
            current_cycle: self.current_cycle,
            payout_index: self.payout_index,
            created_at: self.created_at,
            cycle_start_time: self.cycle_start_time,
            is_complete: self.is_complete,
            grace_period: self.grace_period,
            penalty_rate: self.penalty_rate,
            state: self.state,
        }
    }
}

impl Clone for GroupMetadata {
    /// A clone of a metadata record equals the value it was made from.
    fn clone(&self) -> (res: Self)
        ensures
            res == *self,
    {
        GroupMetadata {
            name: self.name.clone(),
            description: self.description.clone(),
            rules: self.rules.clone(),
        }
    }
}

impl GroupModel {
    /// Timestamp (as an unbounded integer) at which the current cycle's
    /// nominal contribution window closes.
    pub open spec fn cycle_end(self) -> int {
        self.cycle_start_time + self.cycle_duration
    }

    /// Timestamp (as an unbounded integer) at which the grace period after
    /// the current cycle closes.
    pub open spec fn grace_end(self) -> int {
        self.cycle_start_time + self.cycle_duration + self.grace_period
    }

    /// A contribution at `now` falls within the nominal cycle window.
    pub open spec fn is_on_time(self, now: u64) -> bool {
        (now as int) < self.cycle_end()
    }

    /// A contribution at `now` is late but still within the grace period.
    pub open spec fn is_within_grace(self, now: u64) -> bool {
        self.cycle_end() <= now as int <= self.grace_end()
    }

    /// The grace period of the current cycle has fully elapsed at `now`.
    pub open spec fn past_grace(self, now: u64) -> bool {
        (now as int) > self.grace_end()
    }

    /// Penalty charged on a late contribution:
    /// `contribution_amount * penalty_rate / 100`.
    pub open spec fn late_penalty(self) -> int {
        self.contribution_amount * self.penalty_rate / 100
    }

    /// Base payout of a cycle: one contribution from every current member.
    pub open spec fn base_payout(self) -> int {
        self.contribution_amount * self.members.len()
    }

    /// Structural invariant of a group record.
    pub open spec fn wf(self) -> bool {
        &&& self.contribution_amount > 0
        &&& self.cycle_duration > 0
        &&& MIN_MEMBERS <= self.max_members <= MAX_MEMBERS_LIMIT
        &&& self.grace_period <= MAX_GRACE_PERIOD
        &&& self.penalty_rate <= 100
        &&& 1 <= self.members.len() <= self.max_members
        &&& self.members.no_duplicates()
        &&& self.members[0] == self.creator
        &&& self.payout_index <= self.members.len()
        &&& (self.is_complete <==> self.payout_index == self.members.len())
        &&& (self.state == GroupState::Complete ==> self.is_complete)
        &&& (self.is_complete ==> self.state != GroupState::Active)
        &&& self.current_cycle == if self.is_complete {
            self.payout_index as int
        } else {
            self.payout_index + 1
        }
    }
}

/// One member's contribution for one cycle of one group. Created on the
/// first successful contribution and immutable thereafter.
#[derive(Clone, Copy, Debug, PartialEq, Eq)]
pub struct ContributionRecord {
    /// Principal that made the contribution.
    pub member: u64,
    /// The group this contribution belongs to.
    pub group_id: u64,
    /// The cycle number this contribution is for.
    pub cycle: u32,
    /// Whether the contribution has been recorded.
    pub has_paid: bool,
    /// Timestamp at which the contribution was recorded.
    pub timestamp: u64,
    /// Whether the contribution arrived during the grace period.
    pub is_late: bool,
    /// Penalty charged for a late contribution; zero when on time.
    pub penalty_amount: i128,
}

/// Running penalty statistics of one member in one group; updated after
/// every contribution and never reset.
#[derive(Clone, Copy, Debug, PartialEq, Eq)]
pub struct MemberPenaltyRecord {
    /// Principal this record aggregates.
    pub member: u64,
    /// The group this record belongs to.
    pub group_id: u64,
    /// Number of penalized late contributions.
    pub late_count: u32,
    /// Number of on-time (unpenalized) contributions.
    pub on_time_count: u32,
    /// Total penalty amount accumulated.
    pub total_penalties: i128,
    /// Percentage of on-time contributions (0..=100); 100 before any
    /// contribution has been counted.
    pub reliability_score: u32,
}

/// Reliability score derived from contribution counts: the percentage of
/// on-time contributions, or 100 when nothing has been counted yet.
pub open spec fn reliability_of(on_time_count: u32, late_count: u32) -> int {
    if on_time_count + late_count == 0 {
        100
    } else {
        (on_time_count as int) * 100 / (on_time_count + late_count)
    }
}

/// A pending refund request with its running vote tally.
#[derive(Clone, Copy, Debug, PartialEq, Eq)]
pub struct RefundRequest {
    /// The group this refund request is for.
    pub group_id: u64,
    /// Principal that initiated the request.
    pub requester: u64,
    /// Timestamp at which the request was created.
    pub created_at: u64,
    /// Timestamp at which voting ends: `created_at + VOTING_PERIOD`.
    pub voting_deadline: u64,
    /// Number of votes in favor of the refund.
    pub votes_for: u32,
    /// Number of votes against the refund.
    pub votes_against: u32,
    /// Whether the request has been executed.
    pub executed: bool,
    /// Whether the request was approved.
    pub approved: bool,
}

/// One member's vote on a group's refund request.
#[derive(Clone, Copy, Debug, PartialEq, Eq)]
pub struct RefundVote {
    /// The group this vote is for.
    pub group_id: u64,
    /// Principal that voted.
    pub voter: u64,
    /// Whether the vote is in favor of the refund.
    pub in_favor: bool,
    /// Timestamp at which the vote was cast.
    pub timestamp: u64,
}

/// A refund owed to one member, produced when a refund path cancels the
/// group.
#[derive(Clone, Copy, Debug, PartialEq, Eq)]
pub struct RefundRecord {
    /// The group this refund is for.
    pub group_id: u64,
    /// Principal receiving the refund.
    pub member: u64,
    /// Amount refunded: the group's full per-cycle contribution.
    pub amount: i128,
    /// Timestamp at which the refund was processed.
    pub timestamp: u64,
    /// Which refund path produced this record.
    pub reason: RefundReason,
}

/// Optional descriptive metadata of a group; informational only.
#[derive(Debug, PartialEq, Eq)]
pub struct GroupMetadata {
    /// Name of the group (at most [`MAX_NAME_LENGTH`] characters).
    pub name: String,
    /// Description of the group (at most [`MAX_DESCRIPTION_LENGTH`]).
    pub description: String,
    /// Custom rules of the group (at most [`MAX_RULES_LENGTH`]).
    pub rules: String,
}

/// Ghost model of [`GroupMetadata`]: the three fields as character
/// sequences.
#[verifier::ext_equal]
pub struct MetadataModel {
    pub name: Seq<char>,
    pub description: Seq<char>,
    pub rules: Seq<char>,
}

impl View for GroupMetadata {
    type V = MetadataModel;

    open spec fn view(&self) -> MetadataModel {
        MetadataModel { name: self.name@, description: self.description@, rules: self.rules@ }
    }
}

/// Consolidated snapshot of a group's progress, as returned by the status
/// projection.
#[derive(Clone, Debug, PartialEq, Eq)]
pub struct GroupStatus {
    /// The group being described.
    pub group_id: u64,
    /// Current cycle number (1-based).
    pub current_cycle: u32,
    /// Whether a next payout recipient exists (the group is not complete).
    pub has_next_recipient: bool,
    /// Next payout recipient; the creator as a placeholder when complete.
    pub next_recipient: u64,
    /// Number of members that have contributed in the current cycle.
    pub contributions_received: u32,
    /// Total number of members currently in the group.
    pub total_members: u32,
    /// Members that have not yet contributed in the current cycle, in
    /// member order.
    pub pending_contributors: Vec<u64>,
    /// Whether the group has finished all cycles.
    pub is_complete: bool,
    /// Whether the nominal cycle window is still open at `current_time`.
    pub is_cycle_active: bool,
    /// Timestamp at which the current cycle started.
    pub cycle_start_time: u64,
    /// Timestamp at which the current cycle's nominal window closes.
    pub cycle_end_time: u64,
    /// The clock reading the snapshot was computed against.
    pub current_time: u64,
    /// Penalties collected in the current cycle so far.
    pub cycle_penalty_pool: i128,
    /// Whether `current_time` falls in the grace period.
    pub is_in_grace_period: bool,
    /// Timestamp at which the grace period closes.
    pub grace_period_end_time: u64,
}

} // verus!
