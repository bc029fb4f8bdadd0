//! The status projection: contribution counts, pending lists, recipient
//! tracking, timing flags, and consistency with the group record.

use ajo::contract::AjoContract;
use ajo::errors::AjoError;

const AMOUNT: i128 = 100_000_000;
const WEEK: u64 = 604_800;
const DAY: u64 = 86_400;
const CREATOR: u64 = 1;
const MEMBER2: u64 = 2;
const MEMBER3: u64 = 3;

fn setup() -> AjoContract {
    AjoContract::new()
}

fn three_member_group(c: &mut AjoContract) -> u64 {
    let group_id = c.create_group(CREATOR, AMOUNT, WEEK, 3, DAY, 5, 0).unwrap();
    c.join_group(MEMBER2, group_id).unwrap();
    c.join_group(MEMBER3, group_id).unwrap();
    group_id
}

#[test]
fn test_group_status_initial_state() {
    let mut c = setup();
    let group_id = three_member_group(&mut c);

    let status = c.get_group_status(group_id, 0).unwrap();

    assert_eq!(status.group_id, group_id);
    assert_eq!(status.current_cycle, 1);
    assert_eq!(status.has_next_recipient, true);
    assert_eq!(status.next_recipient, CREATOR);
    assert_eq!(status.contributions_received, 0);
    assert_eq!(status.total_members, 3);
    assert_eq!(status.pending_contributors.len(), 3);
    assert_eq!(status.is_complete, false);
    assert_eq!(status.is_cycle_active, true);
}

#[test]
fn test_group_status_partial_contributions() {
    let mut c = setup();
    let group_id = three_member_group(&mut c);

    c.contribute(CREATOR, group_id, 0).unwrap();
    c.contribute(MEMBER2, group_id, 0).unwrap();

    let status = c.get_group_status(group_id, 0).unwrap();

    assert_eq!(status.contributions_received, 2);
    assert_eq!(status.total_members, 3);
    assert_eq!(status.pending_contributors.len(), 1);
    assert_eq!(status.pending_contributors[0], MEMBER3);
    assert_eq!(status.is_complete, false);
}

#[test]
fn test_group_status_all_contributed() {
    let mut c = setup();
    let group_id = three_member_group(&mut c);

    c.contribute(CREATOR, group_id, 0).unwrap();
    c.contribute(MEMBER2, group_id, 0).unwrap();
    c.contribute(MEMBER3, group_id, 0).unwrap();

    let status = c.get_group_status(group_id, 0).unwrap();

    assert_eq!(status.contributions_received, 3);
    assert_eq!(status.total_members, 3);
    assert_eq!(status.pending_contributors.len(), 0);
    assert_eq!(status.is_complete, false);
}

#[test]
fn test_group_status_after_payout() {
    let mut c = setup();
    let group_id = three_member_group(&mut c);

    c.contribute(CREATOR, group_id, 0).unwrap();
    c.contribute(MEMBER2, group_id, 0).unwrap();
    c.contribute(MEMBER3, group_id, 0).unwrap();
    let t = WEEK + DAY;
    c.execute_payout(group_id, t).unwrap();

    let status = c.get_group_status(group_id, t).unwrap();

    assert_eq!(status.current_cycle, 2);
    assert_eq!(status.has_next_recipient, true);
    assert_eq!(status.next_recipient, MEMBER2);
    assert_eq!(status.contributions_received, 0);
    assert_eq!(status.pending_contributors.len(), 3);
    assert_eq!(status.is_complete, false);
}

#[test]
fn test_group_status_mid_lifecycle() {
    let mut c = setup();
    let group_id = three_member_group(&mut c);
    let mut t: u64 = 0;

    for _ in 0..2 {
        c.contribute(CREATOR, group_id, t).unwrap();
        c.contribute(MEMBER2, group_id, t).unwrap();
        c.contribute(MEMBER3, group_id, t).unwrap();
        t += WEEK + DAY;
        c.execute_payout(group_id, t).unwrap();
    }

    c.contribute(CREATOR, group_id, t).unwrap();

    let status = c.get_group_status(group_id, t).unwrap();

    assert_eq!(status.current_cycle, 3);
    assert_eq!(status.has_next_recipient, true);
    assert_eq!(status.next_recipient, MEMBER3);
    assert_eq!(status.contributions_received, 1);
    assert_eq!(status.pending_contributors.len(), 2);
    assert_eq!(status.is_complete, false);
}

#[test]
fn test_group_status_completed() {
    let mut c = setup();
    let group_id = three_member_group(&mut c);
    let mut t: u64 = 0;

    for _ in 0..3 {
        c.contribute(CREATOR, group_id, t).unwrap();
        c.contribute(MEMBER2, group_id, t).unwrap();
        c.contribute(MEMBER3, group_id, t).unwrap();
        t += WEEK + DAY;
        c.execute_payout(group_id, t).unwrap();
    }

    let status = c.get_group_status(group_id, t).unwrap();

    assert_eq!(status.is_complete, true);
    assert_eq!(status.has_next_recipient, false);
    assert_eq!(status.current_cycle, 3);
}

#[test]
fn test_group_status_cycle_timing() {
    let mut c = setup();
    let group_id = c.create_group(CREATOR, AMOUNT, WEEK, 3, DAY, 5, 0).unwrap();

    let status = c.get_group_status(group_id, 0).unwrap();

    assert_eq!(status.cycle_end_time - status.cycle_start_time, WEEK);
    assert_eq!(status.is_cycle_active, true);
    assert!(status.current_time >= status.cycle_start_time);
    assert!(status.current_time < status.cycle_end_time);
}

#[test]
fn test_group_status_cycle_expired() {
    let mut c = setup();
    let group_id = c.create_group(CREATOR, AMOUNT, WEEK, 3, DAY, 5, 0).unwrap();

    let status = c.get_group_status(group_id, WEEK + 1).unwrap();

    assert_eq!(status.is_cycle_active, false);
    assert!(status.current_time >= status.cycle_end_time);
}

#[test]
fn test_group_status_single_member_group() {
    let mut c = setup();
    let group_id = c.create_group(CREATOR, AMOUNT, WEEK, 2, DAY, 5, 0).unwrap();

    let status = c.get_group_status(group_id, 0).unwrap();

    assert_eq!(status.total_members, 1);
    assert_eq!(status.contributions_received, 0);
    assert_eq!(status.pending_contributors.len(), 1);
    assert_eq!(status.has_next_recipient, true);
    assert_eq!(status.next_recipient, CREATOR);
}

#[test]
fn test_group_status_large_group() {
    let mut c = setup();
    let group_id = c.create_group(CREATOR, AMOUNT, WEEK, 10, DAY, 5, 0).unwrap();

    let members: Vec<u64> = vec![CREATOR, 11, 12, 13, 14];
    for &m in &members[1..] {
        c.join_group(m, group_id).unwrap();
    }

    c.contribute(members[0], group_id, 0).unwrap();
    c.contribute(members[1], group_id, 0).unwrap();
    c.contribute(members[2], group_id, 0).unwrap();

    let status = c.get_group_status(group_id, 0).unwrap();

    assert_eq!(status.total_members, 5);
    assert_eq!(status.contributions_received, 3);
    assert_eq!(status.pending_contributors.len(), 2);
}

#[test]
fn test_group_status_multiple_cycles_tracking() {
    let mut c = setup();
    let group_id = three_member_group(&mut c);
    let mut t: u64 = 0;

    for cycle in 1..=3u32 {
        let status_before = c.get_group_status(group_id, t).unwrap();
        assert_eq!(status_before.current_cycle, cycle);
        assert_eq!(status_before.contributions_received, 0);

        c.contribute(CREATOR, group_id, t).unwrap();
        c.contribute(MEMBER2, group_id, t).unwrap();
        c.contribute(MEMBER3, group_id, t).unwrap();

        let status_after = c.get_group_status(group_id, t).unwrap();
        assert_eq!(status_after.contributions_received, 3);
        assert_eq!(status_after.pending_contributors.len(), 0);

        t += WEEK + DAY;
        c.execute_payout(group_id, t).unwrap();
    }

    let final_status = c.get_group_status(group_id, t).unwrap();
    assert_eq!(final_status.is_complete, true);
}

#[test]
fn test_group_status_consistency_with_get_group() {
    let mut c = setup();
    let group_id = three_member_group(&mut c);
    c.contribute(CREATOR, group_id, 0).unwrap();

    let status = c.get_group_status(group_id, 0).unwrap();
    let group = c.get_group(group_id).unwrap();

    assert_eq!(status.group_id, group.id);
    assert_eq!(status.current_cycle, group.current_cycle);
    assert_eq!(status.total_members as usize, group.members.len());
    assert_eq!(status.is_complete, group.is_complete);
    assert_eq!(status.cycle_start_time, group.cycle_start_time);
}

#[test]
fn test_group_status_invalid_group_id() {
    let c = setup();

    let result = c.get_group_status(999, 0);
    assert_eq!(result, Err(AjoError::GroupNotFound));
}

#[test]
fn test_group_status_zero_group_id() {
    let c = setup();

    let result = c.get_group_status(0, 0);
    assert!(result.is_err());
}

#[test]
fn test_group_status_max_group_id() {
    let c = setup();

    let result = c.get_group_status(u64::MAX, 0);
    assert!(result.is_err());
}

#[test]
fn test_group_status_no_overflow_with_many_contributions() {
    let mut c = setup();
    let group_id = c.create_group(CREATOR, AMOUNT, WEEK, 10, DAY, 5, 0).unwrap();

    let members: Vec<u64> = vec![CREATOR, 21, 22, 23, 24, 25, 26, 27];
    for &m in &members[1..] {
        c.join_group(m, group_id).unwrap();
    }

    for &m in &members {
        c.contribute(m, group_id, 0).unwrap();
    }

    let status = c.get_group_status(group_id, 0).unwrap();

    assert_eq!(status.contributions_received, 8);
    assert_eq!(status.total_members, 8);
    assert_eq!(status.pending_contributors.len(), 0);
}

#[test]
fn test_group_status_placeholder_address_when_complete() {
    let mut c = setup();
    let group_id = three_member_group(&mut c);
    let mut t: u64 = 0;

    for _ in 0..3 {
        c.contribute(CREATOR, group_id, t).unwrap();
        c.contribute(MEMBER2, group_id, t).unwrap();
        c.contribute(MEMBER3, group_id, t).unwrap();
        t += WEEK + DAY;
        c.execute_payout(group_id, t).unwrap();
    }

    let status = c.get_group_status(group_id, t).unwrap();

    assert_eq!(status.is_complete, true);
    assert_eq!(status.has_next_recipient, false);
    assert_eq!(status.next_recipient, CREATOR);
}

#[test]
fn test_group_status_atomic_consistency() {
    let mut c = setup();
    let group_id = three_member_group(&mut c);

    c.contribute(CREATOR, group_id, 0).unwrap();
    c.contribute(MEMBER2, group_id, 0).unwrap();

    let status = c.get_group_status(group_id, 0).unwrap();

    assert_eq!(
        status.contributions_received as usize + status.pending_contributors.len(),
        status.total_members as usize
    );

    assert_eq!(status.pending_contributors.len(), 1);
    assert_eq!(status.pending_contributors[0], MEMBER3);
}
