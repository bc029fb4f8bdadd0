//! Enumerated result codes: every failure of an engine operation is reported
//! as one of these, with no partial state change.

use vstd::prelude::*;

verus! {

/// Error codes for the engine's operations.
#[derive(Clone, Copy, Debug, PartialEq, Eq, Structural)]
pub enum AjoError {
    /// The specified group wasn't found in storage.
    GroupNotFound,
    /// Can't join because the group is already at its member limit.
    MaxMembersExceeded,
    /// This account is already part of the group.
    AlreadyMember,
    /// Address isn't a member of the group.
    NotMember,
    /// A contribution for this cycle has already been made.
    AlreadyContributed,
    /// Payout can't move forward until everyone has contributed.
    IncompleteContributions,
    /// Member has already been paid out.
    AlreadyReceivedPayout,
    /// All cycles for this group are finished.
    GroupComplete,
    /// Contribution amount can't be zero.
    ContributionAmountZero,
    /// Cycle duration must be greater than zero.
    CycleDurationZero,
    /// Groups need at least 2 members to work.
    MaxMembersBelowMinimum,
    /// Max members exceeds the upper limit.
    MaxMembersAboveLimit,
    /// Member doesn't have enough balance.
    InsufficientBalance,
    /// The token transfer didn't go through.
    TransferFailed,
    /// This group has no members initialized.
    NoMembers,
    /// Only the creator or authorized members can do this.
    Unauthorized,
    /// Contribution outside the active cycle window.
    OutsideCycleWindow,
    /// Negative amounts aren't allowed for contributions.
    ContributionAmountNegative,
    /// This group has been cancelled.
    GroupCancelled,
    /// The contract has already been initialized.
    AlreadyInitialized,
    /// The contract is currently paused and cannot execute this operation.
    ContractPaused,
    /// Only the admin can pause the contract.
    UnauthorizedPause,
    /// Only the admin can unpause the contract.
    UnauthorizedUnpause,
    /// Contribution is too late - the grace period has expired.
    GracePeriodExpired,
    /// Invalid grace period duration.
    InvalidGracePeriod,
    /// Invalid penalty rate (must be 0-100).
    InvalidPenaltyRate,
    /// Metadata field exceeds its maximum length.
    MetadataTooLong,
    /// Cannot cancel a group after the first payout.
    CannotCancelAfterPayout,
    /// Only the group creator can cancel the group.
    OnlyCreatorCanCancel,
    /// A refund request already exists for this group.
    RefundRequestExists,
    /// No active refund request for this group.
    NoRefundRequest,
    /// Member has already voted on this refund request.
    AlreadyVoted,
    /// Voting period has not ended yet.
    VotingPeriodActive,
    /// Voting period has ended.
    VotingPeriodEnded,
    /// Refund request was not approved.
    RefundNotApproved,
    /// Refund has already been executed.
    RefundAlreadyExecuted,
    /// Cannot request a refund before the cycle deadline.
    CycleNotExpired,
}

} // verus!
