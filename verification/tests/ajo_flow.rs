//! Core flow: group creation, joining, contribution timing, payout
//! rotation, and completion.

use ajo::contract::AjoContract;
use ajo::errors::AjoError;

const AMOUNT: i128 = 100_000_000;
const WEEK: u64 = 604_800;
const DAY: u64 = 86_400;
const CREATOR: u64 = 1;
const MEMBER2: u64 = 2;
const MEMBER3: u64 = 3;

fn setup() -> AjoContract {
    AjoContract::new()
}

#[test]
fn test_create_group() {
    let mut c = setup();

    let group_id = c.create_group(CREATOR, AMOUNT, WEEK, 10, DAY, 5, 0).unwrap();
    assert_eq!(group_id, 1);

    let group = c.get_group(group_id).unwrap();
    assert_eq!(group.id, 1);
    assert_eq!(group.creator, CREATOR);
    assert_eq!(group.contribution_amount, AMOUNT);
    assert_eq!(group.cycle_duration, WEEK);
    assert_eq!(group.max_members, 10);
    assert_eq!(group.members.len(), 1);
    assert_eq!(group.current_cycle, 1);
    assert_eq!(group.payout_index, 0);
    assert_eq!(group.is_complete, false);
}

#[test]
fn test_join_group() {
    let mut c = setup();
    let group_id = c.create_group(CREATOR, AMOUNT, WEEK, 10, DAY, 5, 0).unwrap();

    c.join_group(MEMBER2, group_id).unwrap();
    c.join_group(MEMBER3, group_id).unwrap();

    let members = c.list_members(group_id).unwrap();
    assert_eq!(members.len(), 3);

    assert_eq!(c.is_member(group_id, CREATOR).unwrap(), true);
    assert_eq!(c.is_member(group_id, MEMBER2).unwrap(), true);
    assert_eq!(c.is_member(group_id, MEMBER3).unwrap(), true);
}

#[test]
fn test_join_group_already_member() {
    let mut c = setup();
    let group_id = c.create_group(CREATOR, AMOUNT, WEEK, 10, DAY, 5, 0).unwrap();

    let result = c.join_group(CREATOR, group_id);
    assert_eq!(result, Err(AjoError::AlreadyMember));
}

#[test]
fn test_join_group_max_members_exceeded() {
    let mut c = setup();
    let group_id = c.create_group(CREATOR, AMOUNT, WEEK, 2, DAY, 5, 0).unwrap();
    c.join_group(MEMBER2, group_id).unwrap();

    let result = c.join_group(MEMBER3, group_id);
    assert_eq!(result, Err(AjoError::MaxMembersExceeded));
}

#[test]
fn test_contribution_flow() {
    let mut c = setup();
    let group_id = c.create_group(CREATOR, AMOUNT, WEEK, 3, DAY, 5, 0).unwrap();
    c.join_group(MEMBER2, group_id).unwrap();
    c.join_group(MEMBER3, group_id).unwrap();

    c.contribute(CREATOR, group_id, 0).unwrap();
    c.contribute(MEMBER2, group_id, 0).unwrap();
    c.contribute(MEMBER3, group_id, 0).unwrap();

    let status = c.get_contribution_status(group_id, 1).unwrap();
    assert_eq!(status.len(), 3);
    for (_, has_paid) in status.iter() {
        assert_eq!(*has_paid, true);
    }
}

#[test]
fn test_double_contribution() {
    let mut c = setup();
    let group_id = c.create_group(CREATOR, AMOUNT, WEEK, 3, DAY, 5, 0).unwrap();

    c.contribute(CREATOR, group_id, 0).unwrap();

    let result = c.contribute(CREATOR, group_id, 0);
    assert_eq!(result, Err(AjoError::AlreadyContributed));
}

#[test]
fn test_payout_incomplete_contributions() {
    let mut c = setup();
    let group_id = c.create_group(CREATOR, AMOUNT, WEEK, 3, DAY, 5, 0).unwrap();
    c.join_group(MEMBER2, group_id).unwrap();

    c.contribute(CREATOR, group_id, 0).unwrap();

    let result = c.execute_payout(group_id, WEEK + DAY);
    assert_eq!(result, Err(AjoError::IncompleteContributions));
}

#[test]
fn test_payout_execution() {
    let mut c = setup();
    let group_id = c.create_group(CREATOR, AMOUNT, WEEK, 3, DAY, 5, 0).unwrap();
    c.join_group(MEMBER2, group_id).unwrap();
    c.join_group(MEMBER3, group_id).unwrap();

    c.contribute(CREATOR, group_id, 0).unwrap();
    c.contribute(MEMBER2, group_id, 0).unwrap();
    c.contribute(MEMBER3, group_id, 0).unwrap();
    c.execute_payout(group_id, WEEK + DAY).unwrap();

    let group = c.get_group(group_id).unwrap();
    assert_eq!(group.current_cycle, 2);
    assert_eq!(group.payout_index, 1);
    assert_eq!(group.is_complete, false);
}

#[test]
fn test_full_lifecycle() {
    let mut c = setup();
    let group_id = c.create_group(CREATOR, AMOUNT, WEEK, 3, DAY, 5, 0).unwrap();
    c.join_group(MEMBER2, group_id).unwrap();
    c.join_group(MEMBER3, group_id).unwrap();

    assert_eq!(c.is_complete(group_id).unwrap(), false);

    let mut t: u64 = 0;

    c.contribute(CREATOR, group_id, t).unwrap();
    c.contribute(MEMBER2, group_id, t).unwrap();
    c.contribute(MEMBER3, group_id, t).unwrap();
    t += WEEK + DAY;
    c.execute_payout(group_id, t).unwrap();
    assert_eq!(c.is_complete(group_id).unwrap(), false);

    c.contribute(CREATOR, group_id, t).unwrap();
    c.contribute(MEMBER2, group_id, t).unwrap();
    c.contribute(MEMBER3, group_id, t).unwrap();
    t += WEEK + DAY;
    c.execute_payout(group_id, t).unwrap();
    assert_eq!(c.is_complete(group_id).unwrap(), false);

    c.contribute(CREATOR, group_id, t).unwrap();
    c.contribute(MEMBER2, group_id, t).unwrap();
    c.contribute(MEMBER3, group_id, t).unwrap();
    t += WEEK + DAY;
    c.execute_payout(group_id, t).unwrap();

    assert_eq!(c.is_complete(group_id).unwrap(), true);

    let group = c.get_group(group_id).unwrap();
    assert_eq!(group.is_complete, true);
    assert_eq!(group.payout_index, 3);
}

#[test]
fn test_contribute_after_completion() {
    let mut c = setup();
    let group_id = c.create_group(CREATOR, AMOUNT, WEEK, 3, DAY, 5, 0).unwrap();
    c.join_group(MEMBER2, group_id).unwrap();
    c.join_group(MEMBER3, group_id).unwrap();

    let mut t: u64 = 0;
    for _ in 0..3 {
        c.contribute(CREATOR, group_id, t).unwrap();
        c.contribute(MEMBER2, group_id, t).unwrap();
        c.contribute(MEMBER3, group_id, t).unwrap();
        t += WEEK + DAY;
        c.execute_payout(group_id, t).unwrap();
    }

    let result = c.contribute(CREATOR, group_id, t);
    assert_eq!(result, Err(AjoError::GroupComplete));
}

#[test]
fn test_create_group_zero_contribution_fails() {
    let mut c = setup();
    let res = c.create_group(CREATOR, 0, WEEK, 10, DAY, 5, 0);
    assert_eq!(res, Err(AjoError::ContributionAmountZero));
}

#[test]
fn test_create_group_negative_contribution_fails() {
    let mut c = setup();
    let res = c.create_group(CREATOR, -500, WEEK, 10, DAY, 5, 0);
    assert_eq!(res, Err(AjoError::ContributionAmountNegative));
}

#[test]
fn test_create_group_invalid_duration_fails() {
    let mut c = setup();
    let res = c.create_group(CREATOR, AMOUNT, 0, 5, DAY, 5, 0);
    assert_eq!(res, Err(AjoError::CycleDurationZero));
}

#[test]
fn test_create_group_tiny_limit_fails() {
    let mut c = setup();
    let res = c.create_group(CREATOR, AMOUNT, WEEK, 1, DAY, 5, 0);
    assert_eq!(res, Err(AjoError::MaxMembersBelowMinimum));
}

#[test]
fn test_contribute_not_member() {
    let mut c = setup();
    let group_id = c.create_group(CREATOR, AMOUNT, WEEK, 10, DAY, 5, 0).unwrap();

    let result = c.contribute(99, group_id, 0);
    assert_eq!(result, Err(AjoError::NotMember));
}

#[test]
fn test_multiple_groups() {
    let mut c = setup();

    let group_id1 = c.create_group(CREATOR, AMOUNT, WEEK, 5, DAY, 5, 0).unwrap();
    let group_id2 = c.create_group(MEMBER2, 200_000_000, 1_209_600, 3, DAY, 5, 0).unwrap();

    assert_eq!(group_id1, 1);
    assert_eq!(group_id2, 2);

    let group1 = c.get_group(group_id1).unwrap();
    let group2 = c.get_group(group_id2).unwrap();

    assert_eq!(group1.creator, CREATOR);
    assert_eq!(group2.creator, MEMBER2);
    assert_eq!(group1.contribution_amount, AMOUNT);
    assert_eq!(group2.contribution_amount, 200_000_000);
}

#[test]
fn test_contribution_within_cycle_window() {
    let mut c = setup();
    let group_id = c.create_group(CREATOR, AMOUNT, WEEK, 3, DAY, 5, 0).unwrap();
    c.join_group(MEMBER2, group_id).unwrap();

    c.contribute(CREATOR, group_id, 0).unwrap();

    // Later, but still inside the cycle window.
    c.contribute(MEMBER2, group_id, 300_000).unwrap();
}

#[test]
fn test_contribution_after_cycle_ends() {
    let mut c = setup();
    // No grace period: anything past the cycle's end is too late.
    let group_id = c.create_group(CREATOR, AMOUNT, WEEK, 3, 0, 5, 0).unwrap();

    let result = c.contribute(CREATOR, group_id, WEEK + 1);
    assert_eq!(result, Err(AjoError::GracePeriodExpired));
}

#[test]
fn test_contribution_late() {
    let mut c = setup();
    // No grace period: a contribution an hour past the cycle's end fails.
    let group_id = c.create_group(CREATOR, AMOUNT, DAY, 3, 0, 5, 0).unwrap();
    c.join_group(MEMBER2, group_id).unwrap();
    c.join_group(MEMBER3, group_id).unwrap();

    let result = c.contribute(CREATOR, group_id, DAY + 3600);
    assert_eq!(result, Err(AjoError::GracePeriodExpired));
}

#[test]
fn test_contribution_at_cycle_boundary() {
    let mut c = setup();
    let group_id = c.create_group(CREATOR, AMOUNT, WEEK, 3, DAY, 5, 0).unwrap();

    // At the exact end of the nominal window the contribution is accepted
    // as late and penalized.
    c.contribute(CREATOR, group_id, WEEK).unwrap();
    let detail = c.get_contribution_detail(group_id, 1, CREATOR).unwrap();
    assert_eq!(detail.is_late, true);
    assert_eq!(detail.penalty_amount, AMOUNT * 5 / 100);
}

#[test]
fn test_new_cycle_resets_window() {
    let mut c = setup();
    let group_id = c.create_group(CREATOR, AMOUNT, DAY, 3, DAY, 5, 0).unwrap();
    c.join_group(MEMBER2, group_id).unwrap();
    c.join_group(MEMBER3, group_id).unwrap();

    c.contribute(CREATOR, group_id, 0).unwrap();
    c.contribute(MEMBER2, group_id, 0).unwrap();
    c.contribute(MEMBER3, group_id, 0).unwrap();
    let t = DAY + DAY;
    c.execute_payout(group_id, t).unwrap();

    // The new cycle opens at the payout time.
    c.contribute(CREATOR, group_id, t).unwrap();

    // Still inside the new cycle's window half a day later.
    c.contribute(MEMBER2, group_id, t + 43_200).unwrap();
}
