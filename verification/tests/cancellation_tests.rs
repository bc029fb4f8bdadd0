//! Refund governance: creator cancellation, refund requests, voting,
//! vote-threshold execution, and admin emergency refunds.

use ajo::contract::AjoContract;
use ajo::errors::AjoError;
use ajo::types::{GroupState, RefundReason};

const AMOUNT: i128 = 100_000_000;
const WEEK: u64 = 604_800;
const DAY: u64 = 86_400;
const CREATOR: u64 = 1;
const MEMBER2: u64 = 2;
const MEMBER3: u64 = 3;
/// First instant past the grace period of a cycle started at zero.
const PAST_GRACE: u64 = WEEK + DAY + 1;
/// First instant past a voting window opened at `PAST_GRACE`.
const PAST_VOTING: u64 = PAST_GRACE + WEEK + 1;

fn setup() -> AjoContract {
    AjoContract::new()
}

fn new_group(c: &mut AjoContract) -> u64 {
    c.create_group(CREATOR, AMOUNT, WEEK, 3, DAY, 5, 0).unwrap()
}

#[test]
fn test_cancel_group_before_payout() {
    let mut c = setup();
    let group_id = new_group(&mut c);
    c.join_group(MEMBER2, group_id).unwrap();
    c.join_group(MEMBER3, group_id).unwrap();

    c.contribute(CREATOR, group_id, 0).unwrap();
    c.contribute(MEMBER2, group_id, 0).unwrap();

    c.cancel_group(CREATOR, group_id, 0).unwrap();

    let group = c.get_group(group_id).unwrap();
    assert_eq!(group.state, GroupState::Cancelled);

    let refund1 = c.get_refund_record(group_id, CREATOR).unwrap();
    assert_eq!(refund1.amount, AMOUNT);
    assert_eq!(refund1.reason, RefundReason::CreatorCancellation);

    let refund2 = c.get_refund_record(group_id, MEMBER2).unwrap();
    assert_eq!(refund2.amount, AMOUNT);
}

#[test]
fn test_cannot_cancel_after_payout() {
    let mut c = setup();
    let group_id = new_group(&mut c);
    c.join_group(MEMBER2, group_id).unwrap();
    c.join_group(MEMBER3, group_id).unwrap();

    c.contribute(CREATOR, group_id, 0).unwrap();
    c.contribute(MEMBER2, group_id, 0).unwrap();
    c.contribute(MEMBER3, group_id, 0).unwrap();

    c.execute_payout(group_id, PAST_GRACE).unwrap();

    let result = c.cancel_group(CREATOR, group_id, PAST_GRACE);
    assert_eq!(result, Err(AjoError::CannotCancelAfterPayout));
}

#[test]
fn test_only_creator_can_cancel() {
    let mut c = setup();
    let group_id = new_group(&mut c);
    c.join_group(MEMBER2, group_id).unwrap();

    let result = c.cancel_group(MEMBER2, group_id, 0);
    assert_eq!(result, Err(AjoError::OnlyCreatorCanCancel));
}

#[test]
fn test_request_refund_after_cycle_expires() {
    let mut c = setup();
    let group_id = new_group(&mut c);
    c.join_group(MEMBER2, group_id).unwrap();
    c.join_group(MEMBER3, group_id).unwrap();

    c.contribute(CREATOR, group_id, 0).unwrap();
    c.contribute(MEMBER2, group_id, 0).unwrap();

    c.request_refund(CREATOR, group_id, PAST_GRACE).unwrap();

    let request = c.get_refund_request(group_id).unwrap();
    assert_eq!(request.requester, CREATOR);
    assert_eq!(request.votes_for, 0);
    assert_eq!(request.votes_against, 0);
}

#[test]
fn test_cannot_request_refund_before_cycle_expires() {
    let mut c = setup();
    let group_id = new_group(&mut c);
    c.join_group(MEMBER2, group_id).unwrap();

    let result = c.request_refund(CREATOR, group_id, 0);
    assert_eq!(result, Err(AjoError::CycleNotExpired));
}

#[test]
fn test_voting_on_refund_request() {
    let mut c = setup();
    let group_id = new_group(&mut c);
    c.join_group(MEMBER2, group_id).unwrap();
    c.join_group(MEMBER3, group_id).unwrap();

    c.contribute(CREATOR, group_id, 0).unwrap();

    c.request_refund(CREATOR, group_id, PAST_GRACE).unwrap();

    c.vote_refund(CREATOR, group_id, true, PAST_GRACE).unwrap();
    c.vote_refund(MEMBER2, group_id, true, PAST_GRACE).unwrap();
    c.vote_refund(MEMBER3, group_id, false, PAST_GRACE).unwrap();

    let request = c.get_refund_request(group_id).unwrap();
    assert_eq!(request.votes_for, 2);
    assert_eq!(request.votes_against, 1);
}

#[test]
fn test_cannot_vote_twice() {
    let mut c = setup();
    let group_id = new_group(&mut c);
    c.join_group(MEMBER2, group_id).unwrap();

    c.request_refund(CREATOR, group_id, PAST_GRACE).unwrap();
    c.vote_refund(CREATOR, group_id, true, PAST_GRACE).unwrap();

    let result = c.vote_refund(CREATOR, group_id, false, PAST_GRACE);
    assert_eq!(result, Err(AjoError::AlreadyVoted));
}

#[test]
fn test_execute_approved_refund() {
    let mut c = setup();
    let group_id = new_group(&mut c);
    c.join_group(MEMBER2, group_id).unwrap();
    c.join_group(MEMBER3, group_id).unwrap();

    c.contribute(CREATOR, group_id, 0).unwrap();
    c.contribute(MEMBER2, group_id, 0).unwrap();
    c.contribute(MEMBER3, group_id, 0).unwrap();

    c.request_refund(CREATOR, group_id, PAST_GRACE).unwrap();

    c.vote_refund(CREATOR, group_id, true, PAST_GRACE).unwrap();
    c.vote_refund(MEMBER2, group_id, true, PAST_GRACE).unwrap();
    c.vote_refund(MEMBER3, group_id, true, PAST_GRACE).unwrap();

    c.execute_refund(CREATOR, group_id, PAST_VOTING).unwrap();

    let group = c.get_group(group_id).unwrap();
    assert_eq!(group.state, GroupState::Cancelled);

    let refund1 = c.get_refund_record(group_id, CREATOR).unwrap();
    assert_eq!(refund1.reason, RefundReason::MemberVote);
}

#[test]
fn test_execute_rejected_refund() {
    let mut c = setup();
    let group_id = new_group(&mut c);
    c.join_group(MEMBER2, group_id).unwrap();
    c.join_group(MEMBER3, group_id).unwrap();

    c.request_refund(CREATOR, group_id, PAST_GRACE).unwrap();

    c.vote_refund(CREATOR, group_id, true, PAST_GRACE).unwrap();
    c.vote_refund(MEMBER2, group_id, false, PAST_GRACE).unwrap();
    c.vote_refund(MEMBER3, group_id, false, PAST_GRACE).unwrap();

    let result = c.execute_refund(CREATOR, group_id, PAST_VOTING);
    assert_eq!(result, Err(AjoError::RefundNotApproved));
}

#[test]
fn test_cannot_execute_before_voting_ends() {
    let mut c = setup();
    let group_id = new_group(&mut c);
    c.join_group(MEMBER2, group_id).unwrap();

    c.request_refund(CREATOR, group_id, PAST_GRACE).unwrap();
    c.vote_refund(CREATOR, group_id, true, PAST_GRACE).unwrap();

    let result = c.execute_refund(CREATOR, group_id, PAST_GRACE);
    assert_eq!(result, Err(AjoError::VotingPeriodActive));
}

#[test]
fn test_emergency_refund_by_admin() {
    let mut c = setup();
    let admin = 100;
    c.initialize(admin).unwrap();

    let group_id = new_group(&mut c);
    c.join_group(MEMBER2, group_id).unwrap();
    c.contribute(CREATOR, group_id, 0).unwrap();
    c.contribute(MEMBER2, group_id, 0).unwrap();

    c.emergency_refund(admin, group_id, 0).unwrap();

    let group = c.get_group(group_id).unwrap();
    assert_eq!(group.state, GroupState::Cancelled);

    let refund1 = c.get_refund_record(group_id, CREATOR).unwrap();
    assert_eq!(refund1.reason, RefundReason::EmergencyRefund);
}

#[test]
fn test_non_admin_cannot_emergency_refund() {
    let mut c = setup();
    let admin = 100;
    c.initialize(admin).unwrap();

    let group_id = new_group(&mut c);

    let result = c.emergency_refund(MEMBER2, group_id, 0);
    assert_eq!(result, Err(AjoError::Unauthorized));
}

#[test]
fn test_cannot_contribute_to_cancelled_group() {
    let mut c = setup();
    let group_id = new_group(&mut c);
    c.join_group(MEMBER2, group_id).unwrap();

    c.contribute(CREATOR, group_id, 0).unwrap();
    c.cancel_group(CREATOR, group_id, 0).unwrap();

    let result = c.contribute(MEMBER2, group_id, 0);
    assert_eq!(result, Err(AjoError::GroupCancelled));
}

#[test]
fn test_cannot_execute_payout_on_cancelled_group() {
    let mut c = setup();
    let group_id = new_group(&mut c);
    c.join_group(MEMBER2, group_id).unwrap();
    c.join_group(MEMBER3, group_id).unwrap();
    c.contribute(CREATOR, group_id, 0).unwrap();
    c.contribute(MEMBER2, group_id, 0).unwrap();
    c.contribute(MEMBER3, group_id, 0).unwrap();

    c.cancel_group(CREATOR, group_id, 0).unwrap();

    let result = c.execute_payout(group_id, PAST_GRACE);
    assert_eq!(result, Err(AjoError::GroupCancelled));
}

#[test]
fn test_refund_request_duplicate_prevention() {
    let mut c = setup();
    let group_id = new_group(&mut c);
    c.join_group(MEMBER2, group_id).unwrap();

    c.request_refund(CREATOR, group_id, PAST_GRACE).unwrap();

    let result = c.request_refund(MEMBER2, group_id, PAST_GRACE);
    assert_eq!(result, Err(AjoError::RefundRequestExists));
}
