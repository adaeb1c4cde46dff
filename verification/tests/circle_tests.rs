//! End-to-end tests of the circle engine on concrete states.

use safrimba::error::ContractError;
use safrimba::registry::{create_circle, CreateParams};
use safrimba::state::{
    CircleState, CircleStatus, Coin, LockedAmount, PayoutOrderType, Visibility,
};

fn create_params() -> CreateParams {
    CreateParams {
        circle_name: "test".to_string(),
        circle_description: "d".to_string(),
        circle_image: None,
        max_members: 3,
        min_members_required: 2,
        invite_only: false,
        contribution_amount: 100,
        penalty_fee_amount: 5,
        late_fee_amount: 10,
        total_cycles: 3,
        cycle_duration_days: 7,
        start_date: None,
        grace_period_hours: 24,
        auto_start_when_full: false,
        auto_start_type: None,
        auto_start_date: None,
        payout_order_type: PayoutOrderType::PredefinedOrder,
        payout_order_list: None,
        auto_payout_enabled: false,
        manual_trigger_enabled: false,
        arbiter_address: None,
        emergency_stop_enabled: false,
        auto_refund_if_min_not_met: false,
        max_missed_payments_allowed: 3,
        strict_mode: false,
        member_exit_allowed_before_start: true,
        visibility: Visibility::Public,
        show_member_identities: true,
        arbiter_fee_percent: None,
        creator_lock_amount: 50_000_000,
        first_distribution_threshold_percent: None,
    }
}

fn fresh_state() -> CircleState {
    create_circle(
        0,
        1,
        &"alice".to_string(),
        &pay(50_000_000),
        create_params(),
        0,
        &"escrow".to_string(),
    )
    .unwrap()
}

fn pay(amount: u128) -> Vec<Coin> {
    vec![Coin { denom: "usaf".to_string(), amount }]
}

fn running_state() -> CircleState {
    let mut s = fresh_state();
    s.join_circle(10, &"bob".to_string()).unwrap();
    s.join_circle(11, &"carol".to_string()).unwrap();
    s.start_circle(100, &"alice".to_string()).unwrap();
    s
}

#[test]
fn join_progresses_status() {
    let mut s = fresh_state();
    assert!(s.join_circle(10, &"bob".to_string()).is_ok());
    assert!(matches!(s.circle.circle_status, CircleStatus::Open));
    assert_eq!(s.circle.members_list.len(), 2);
    assert!(s.join_circle(11, &"carol".to_string()).is_ok());
    assert!(matches!(s.circle.circle_status, CircleStatus::Full));
}

#[test]
fn join_full_circle_fails_with_capacity() {
    // P5: joining a full circle always fails with the capacity error.
    let mut s = fresh_state();
    s.join_circle(10, &"bob".to_string()).unwrap();
    s.join_circle(11, &"carol".to_string()).unwrap();
    let r = s.join_circle(12, &"dave".to_string());
    assert!(matches!(r, Err(ContractError::CircleFull { max: 3 })));
}

#[test]
fn join_duplicate_member_rejected() {
    let mut s = fresh_state();
    s.join_circle(10, &"bob".to_string()).unwrap();
    let r = s.join_circle(11, &"bob".to_string());
    assert!(matches!(r, Err(ContractError::AlreadyMember { .. })));
}

#[test]
fn auto_start_by_members() {
    let mut s = fresh_state();
    s.circle.auto_start_when_full = true;
    s.circle.auto_start_type = Some("by_members".to_string());
    s.join_circle(10, &"bob".to_string()).unwrap();
    s.join_circle(11, &"carol".to_string()).unwrap();
    assert!(matches!(s.circle.circle_status, CircleStatus::Running));
    assert_eq!(s.circle.current_cycle_index, 1);
    // FIFO order: join order of the final member list
    let ord = s.circle.payout_order_list.as_ref().unwrap();
    assert_eq!(ord[0], "alice");
    assert_eq!(ord[1], "bob");
    assert_eq!(ord[2], "carol");
    assert_eq!(s.circle.start_date, Some(11));
}

#[test]
fn exit_after_start_fails_even_if_allowed() {
    // P6: exit after Running always fails with exit-not-allowed, even with
    // the pre-start exit flag set.
    let mut s = running_state();
    assert!(s.circle.member_exit_allowed_before_start);
    let r = s.exit_circle(200, &"bob".to_string());
    assert!(matches!(r, Err(ContractError::ExitNotAllowed { circle_id: 1 })));
}

#[test]
fn exit_refunds_locked_deposit() {
    let mut s = fresh_state();
    s.join_circle(10, &"bob".to_string()).unwrap();
    s.lock_join_deposit(11, &"bob".to_string(), &pay(100)).unwrap();
    assert_eq!(s.circle.total_amount_locked, 100);
    let t = s.exit_circle(12, &"bob".to_string()).unwrap();
    assert_eq!(t.len(), 1);
    assert_eq!(t[0].to_address, "bob");
    assert_eq!(t[0].amount, 100);
    assert_eq!(s.circle.total_amount_locked, 0);
    assert_eq!(s.circle.members_list.len(), 1);
}

#[test]
fn lock_join_deposit_rejects_duplicate_and_short_payment() {
    let mut s = fresh_state();
    s.join_circle(10, &"bob".to_string()).unwrap();
    let r = s.lock_join_deposit(11, &"bob".to_string(), &pay(50));
    assert!(matches!(
        r,
        Err(ContractError::InsufficientFunds { required: 100, sent: 50 })
    ));
    s.lock_join_deposit(11, &"bob".to_string(), &pay(100)).unwrap();
    let r2 = s.lock_join_deposit(12, &"bob".to_string(), &pay(100));
    assert!(matches!(r2, Err(ContractError::InvalidParameters { .. })));
}

#[test]
fn deposit_and_duplicate_rejected() {
    // P2: a second deposit for the same (member, cycle) is always rejected.
    let mut s = running_state();
    s.deposit_contribution(150, &"bob".to_string(), &pay(100)).unwrap();
    assert_eq!(s.circle.total_amount_locked, 100);
    let r = s.deposit_contribution(151, &"bob".to_string(), &pay(100));
    assert!(matches!(
        r,
        Err(ContractError::AlreadyDeposited { cycle: 1, .. })
    ));
    // regardless of amount sent
    let r2 = s.deposit_contribution(152, &"bob".to_string(), &pay(100_000));
    assert!(matches!(r2, Err(ContractError::AlreadyDeposited { .. })));
}

#[test]
fn late_deposit_non_strict_charges_fee() {
    // P8: after next_payout_date + grace the deposit needs the late fee,
    // the member lands in the late set, and a penalty is recorded.
    let mut s = running_state();
    let late_time = 100 + 24 * 3600 + 1;
    let r = s.deposit_contribution(late_time, &"bob".to_string(), &pay(100));
    assert!(matches!(
        r,
        Err(ContractError::InsufficientFunds { required: 110, sent: 100 })
    ));
    s.deposit_contribution(late_time, &"bob".to_string(), &pay(110)).unwrap();
    assert_eq!(s.circle.members_late_this_cycle.len(), 1);
    assert_eq!(s.circle.members_paid_this_cycle.len(), 0);
    assert_eq!(s.circle.total_penalties_collected, 10);
    assert_eq!(s.penalties.len(), 1);
    assert_eq!(s.penalties[0].amount, 10);
    assert!(!s.deposits[0].on_time);
}

#[test]
fn late_deposit_strict_rejected() {
    // P8, strict mode: the same late deposit is rejected outright.
    let mut s = running_state();
    s.circle.strict_mode = true;
    let late_time = 100 + 24 * 3600 + 1;
    let r = s.deposit_contribution(late_time, &"bob".to_string(), &pay(110));
    assert!(matches!(r, Err(ContractError::MemberLate { .. })));
}

#[test]
fn payout_requires_all_active_deposits() {
    // P3: process_payout never succeeds while an active member is missing
    // a deposit for the current cycle.
    let mut s = running_state();
    s.deposit_contribution(150, &"alice".to_string(), &pay(100)).unwrap();
    s.deposit_contribution(150, &"bob".to_string(), &pay(100)).unwrap();
    let r = s.process_payout(160, &"alice".to_string());
    assert!(r.is_err());
}

#[test]
fn full_cycle_payout() {
    // P7: three members deposit 100 each; the payout pays 300 minus the
    // platform fee to order[0], escrow returns to 0, the cycle advances.
    let mut s = running_state();
    s.circle.platform_fee_percent = 100; // 1% in basis points
    s.deposit_contribution(150, &"alice".to_string(), &pay(100)).unwrap();
    s.deposit_contribution(150, &"bob".to_string(), &pay(100)).unwrap();
    s.deposit_contribution(150, &"carol".to_string(), &pay(100)).unwrap();
    assert_eq!(s.circle.total_amount_locked, 300);
    let t = s.process_payout(160, &"alice".to_string()).unwrap();
    assert_eq!(t.len(), 1);
    assert_eq!(t[0].to_address, "alice"); // order[0]
    assert_eq!(t[0].amount, 297); // 300 - 1% platform fee
    assert_eq!(s.circle.total_amount_locked, 0);
    assert_eq!(s.circle.current_cycle_index, 2);
    assert_eq!(s.circle.cycles_completed, 1);
    assert_eq!(s.circle.total_platform_fees_collected, 3);
    assert_eq!(s.payouts.len(), 1);
    assert_eq!(s.payouts[0].recipient, "alice");
    assert_eq!(s.circle.next_payout_date, Some(100 + 7 * 86400));
    assert!(matches!(s.circle.circle_status, CircleStatus::Running));
}

#[test]
fn payout_rotation_follows_order() {
    // P4: consecutive successful payouts follow the finalized order cycled
    // from index 0.
    let mut s = running_state();
    let members = ["alice", "bob", "carol"];
    for cycle in 0..3u32 {
        for m in members.iter() {
            s.deposit_contribution(150, &m.to_string(), &pay(100)).unwrap();
        }
        let t = s.process_payout(10_000_000, &"alice".to_string()).unwrap();
        assert_eq!(t[0].to_address, members[cycle as usize]);
    }
    assert!(matches!(s.circle.circle_status, CircleStatus::Completed));
    assert_eq!(s.payouts.len(), 3);
    for (i, p) in s.payouts.iter().enumerate() {
        assert_eq!(p.recipient, members[i]);
        assert_eq!(p.cycle as usize, i + 1);
    }
}

#[test]
fn blocked_member_funds_swept_into_pot() {
    // P9: a blocked member's deposit is no longer required, and their
    // undeposited locked join deposit is swept into the cycle's pot.
    let mut s = running_state();
    // cycle 1: everyone deposits and is paid out
    for m in ["alice", "bob", "carol"] {
        s.deposit_contribution(120, &m.to_string(), &pay(100)).unwrap();
    }
    s.process_payout(125, &"alice".to_string()).unwrap();
    assert_eq!(s.circle.current_cycle_index, 2);
    // carol holds a 100 join lock and is blocked at cycle 2 (from cycle 3)
    s.locked_amounts.push(LockedAmount { member: "carol".to_string(), amount: 100 });
    s.circle.total_amount_locked += 100;
    s.block_member(130, &"alice".to_string(), &"carol".to_string()).unwrap();
    assert_eq!(s.blocked_members[0].from_cycle, 3);
    // cycle 2: carol is not yet blocked and still deposits
    s.deposit_contribution(150, &"alice".to_string(), &pay(100)).unwrap();
    s.deposit_contribution(150, &"bob".to_string(), &pay(100)).unwrap();
    s.deposit_contribution(150, &"carol".to_string(), &pay(100)).unwrap();
    let t = s.process_payout(700_000, &"alice".to_string()).unwrap();
    assert_eq!(t[0].to_address, "bob"); // order[1] for cycle 2
    assert_eq!(t[0].amount, 300);
    // cycle 3: carol blocked, cannot deposit; her lock joins the pot
    s.deposit_contribution(1_250_000, &"alice".to_string(), &pay(100)).unwrap();
    s.deposit_contribution(1_250_000, &"bob".to_string(), &pay(100)).unwrap();
    let r = s.deposit_contribution(1_250_000, &"carol".to_string(), &pay(100));
    assert!(r.is_err()); // blocked from cycle 3
    let t3 = s.process_payout(1_400_000, &"alice".to_string()).unwrap();
    assert_eq!(t3[0].to_address, "carol"); // order[2]
    assert_eq!(t3[0].amount, 300); // 2 x 100 active + 100 swept lock
    assert_eq!(s.circle.total_amount_locked, 0);
    assert!(s.locked_amounts.is_empty());
    assert!(matches!(s.circle.circle_status, CircleStatus::Completed));
}

#[test]
fn pause_and_unpause() {
    let mut s = running_state();
    s.pause_circle(300, &"alice".to_string()).unwrap();
    assert!(matches!(s.circle.circle_status, CircleStatus::Paused));
    let r = s.pause_circle(301, &"bob".to_string());
    assert!(matches!(r, Err(ContractError::InvalidCircleStatus { .. }) | Err(ContractError::Unauthorized { .. })));
    s.unpause_circle(302, &"alice".to_string()).unwrap();
    assert!(matches!(s.circle.circle_status, CircleStatus::Running));
}

#[test]
fn emergency_stop_needs_arbiter() {
    let mut s = running_state();
    s.circle.emergency_stop_enabled = true;
    s.circle.arbiter_address = Some("arb".to_string());
    let r = s.emergency_stop(300, &"alice".to_string());
    assert!(matches!(r, Err(ContractError::ArbiterOnly {})));
    s.emergency_stop(301, &"arb".to_string()).unwrap();
    assert!(s.circle.emergency_stop_triggered);
    assert!(matches!(s.circle.circle_status, CircleStatus::Paused));
}

#[test]
fn cancel_allowed_except_completed() {
    let mut s = running_state();
    s.cancel_circle(300, &"alice".to_string()).unwrap();
    assert!(matches!(s.circle.circle_status, CircleStatus::Cancelled));
}

#[test]
fn invite_only_gating() {
    let mut s = fresh_state();
    s.circle.invite_only = true;
    let r = s.join_circle(10, &"bob".to_string());
    assert!(matches!(r, Err(ContractError::InviteOnly { circle_id: 1 })));
    s.invite_member(11, &"alice".to_string(), &"bob".to_string()).unwrap();
    s.join_circle(12, &"bob".to_string()).unwrap();
    assert!(s.circle.pending_members.is_empty());
    assert_eq!(s.circle.members_list.len(), 2);
}

#[test]
fn invite_requires_authority_and_flag() {
    let mut s = fresh_state();
    let r = s.invite_member(10, &"alice".to_string(), &"bob".to_string());
    assert!(matches!(r, Err(ContractError::InvalidParameters { .. })));
    s.circle.invite_only = true;
    let r2 = s.invite_member(11, &"mallory".to_string(), &"bob".to_string());
    assert!(matches!(r2, Err(ContractError::Unauthorized { .. })));
}

#[test]
fn block_member_is_prospective() {
    let mut s = running_state();
    s.circle.current_cycle_index = 2;
    s.circle.cycles_completed = 1;
    s.block_member(130, &"alice".to_string(), &"carol".to_string()).unwrap();
    assert_eq!(s.blocked_members.len(), 1);
    assert_eq!(s.blocked_members[0].from_cycle, 3); // current + 1, never retroactive
    // carol can still deposit for the current cycle 2
    assert!(s.deposit_contribution(150, &"carol".to_string(), &pay(100)).is_ok());
}

#[test]
fn add_private_member_rules() {
    let mut s = fresh_state();
    let r = s.add_private_member(10, &"alice".to_string(), &"bob".to_string(), None);
    assert!(matches!(r, Err(ContractError::InvalidParameters { .. })));
    s.circle.visibility = Visibility::Private;
    let r2 = s.add_private_member(10, &"bob".to_string(), &"carol".to_string(), None);
    assert!(matches!(r2, Err(ContractError::Unauthorized { .. })));
    s.add_private_member(11, &"alice".to_string(), &"bob".to_string(), Some("b".to_string()))
        .unwrap();
    assert_eq!(s.circle.members_list.len(), 2);
    assert_eq!(s.private_members.len(), 1);
}

#[test]
fn pseudonym_update() {
    let mut s = fresh_state();
    s.join_circle(10, &"bob".to_string()).unwrap();
    s.update_member_pseudonym(11, &"alice".to_string(), &"bob".to_string(), "nick".to_string())
        .unwrap();
    assert_eq!(s.pseudonyms.len(), 1);
    assert_eq!(s.pseudonyms[0].pseudonym, "nick");
    let r = s.update_member_pseudonym(12, &"alice".to_string(), &"zed".to_string(), "z".to_string());
    assert!(matches!(r, Err(ContractError::InvalidParameters { .. })));
}

#[test]
fn fee_formula_exact() {
    // gross x basis points / 10000, rounded down
    assert_eq!(safrimba::mul_bps(10_000, 100), Some(100));
    assert_eq!(safrimba::mul_bps(300, 100), Some(3));
    assert_eq!(safrimba::mul_bps(299, 100), Some(2));
    assert_eq!(safrimba::mul_bps(u128::MAX, 10_000), Some(u128::MAX));
    assert_eq!(safrimba::mul_bps(u128::MAX, 20_000), None);
}

#[test]
fn events_are_sequential() {
    let mut s = fresh_state();
    assert_eq!(s.event_counter, 1);
    assert_eq!(s.events[0].event_type, "circle_created");
    s.join_circle(10, &"bob".to_string()).unwrap();
    s.join_circle(11, &"carol".to_string()).unwrap();
    assert_eq!(s.event_counter, 3);
    assert_eq!(s.events.len(), 3);
    assert_eq!(s.events[1].event_type, "member_joined");
}

#[test]
fn create_validates_parameters() {
    let mut p = create_params();
    p.min_members_required = 4;
    let r = create_circle(0, 1, &"a".to_string(), &pay(50_000_000), p, 0, &"e".to_string());
    assert!(matches!(r, Err(ContractError::InvalidParameters { .. })));
    let mut p2 = create_params();
    p2.first_distribution_threshold_percent = Some(61);
    let r2 = create_circle(0, 1, &"a".to_string(), &pay(50_000_000), p2, 0, &"e".to_string());
    assert!(matches!(r2, Err(ContractError::InvalidParameters { .. })));
    let p3 = create_params();
    let r3 = create_circle(0, 1, &"a".to_string(), &pay(49_999_999), p3, 0, &"e".to_string());
    assert!(matches!(
        r3,
        Err(ContractError::InsufficientFunds { required: 50_000_000, sent: 49_999_999 })
    ));
    let mut p4 = create_params();
    p4.payout_order_list = Some(vec!["a".to_string(), "b".to_string()]);
    let r4 = create_circle(0, 1, &"a".to_string(), &pay(50_000_000), p4, 0, &"e".to_string());
    assert!(matches!(r4, Err(ContractError::InvalidParameters { .. })));
}

#[test]
fn create_initializes_draft_circle() {
    let s = fresh_state();
    assert!(matches!(s.circle.circle_status, CircleStatus::Draft));
    assert_eq!(s.circle.circle_id, 1);
    assert_eq!(s.circle.members_list, vec!["alice".to_string()]);
    assert_eq!(s.circle.payout_amount, 300);
    assert_eq!(s.circle.total_amount_locked, 0);
    assert_eq!(s.circle.current_cycle_index, 0);
    assert_eq!(s.circle.denomination, "usaf");
}

#[test]
fn create_computes_end_date_from_preset_start() {
    let mut p = create_params();
    p.start_date = Some(1_000);
    let s = create_circle(0, 1, &"a".to_string(), &pay(50_000_000), p, 0, &"e".to_string())
        .unwrap();
    // cycle_duration_days x max_members x total_cycles days after start
    assert_eq!(s.circle.end_date, Some(1_000 + 7 * 3 * 3 * 86400));
    assert_eq!(s.circle.next_payout_date, Some(1_000));
}

#[test]
fn start_requires_creator_and_minimum() {
    let mut s = fresh_state();
    s.join_circle(10, &"bob".to_string()).unwrap();
    let r = s.start_circle(100, &"bob".to_string());
    assert!(matches!(r, Err(ContractError::Unauthorized { .. })));
    let mut s2 = fresh_state();
    let r2 = s2.start_circle(100, &"alice".to_string());
    // only the creator on board: Draft, not yet startable
    assert!(matches!(r2, Err(ContractError::InvalidCircleStatus { .. })));
    s.start_circle(100, &"alice".to_string()).unwrap();
    assert!(matches!(s.circle.circle_status, CircleStatus::Running));
    assert_eq!(s.circle.current_cycle_index, 1);
    let ord = s.circle.payout_order_list.as_ref().unwrap();
    assert_eq!(ord.len(), 2); // FIFO join order of the final member list
    assert_eq!(ord[0], "alice");
    assert_eq!(s.circle.start_date, Some(100));
    assert_eq!(s.circle.end_date, Some(100 + 7 * 3 * 3 * 86400));
    assert_eq!(s.events.last().unwrap().event_type, "distribution_calendar");
}

#[test]
fn update_circle_edits_descriptive_fields() {
    let mut s = fresh_state();
    s.update_circle(5, &"alice".to_string(), Some("new".to_string()), None, None).unwrap();
    assert_eq!(s.circle.circle_name, "new");
    assert_eq!(s.circle.circle_description, "d");
    let r = s.update_circle(6, &"bob".to_string(), None, None, None);
    assert!(matches!(r, Err(ContractError::Unauthorized { .. })));
    let mut run = running_state();
    let r2 = run.update_circle(7, &"alice".to_string(), Some("x".to_string()), None, None);
    assert!(matches!(r2, Err(ContractError::InvalidCircleStatus { .. })));
}

#[test]
fn distribute_blocked_funds_even_split() {
    // P10: total blocked funds 90 across 2 eligible depositors: 45 and 45.
    let mut s = running_state();
    s.block_member(120, &"alice".to_string(), &"carol".to_string()).unwrap();
    for m in ["alice", "bob", "carol"] {
        s.deposit_contribution(150, &m.to_string(), &pay(100)).unwrap();
    }
    s.process_payout(160, &"alice".to_string()).unwrap();
    // carol (blocked from cycle 2) holds a 90 join lock
    s.locked_amounts.push(LockedAmount { member: "carol".to_string(), amount: 90 });
    s.circle.total_amount_locked += 90;
    s.deposit_contribution(170, &"alice".to_string(), &pay(100)).unwrap();
    s.deposit_contribution(170, &"bob".to_string(), &pay(100)).unwrap();
    let t = s.distribute_blocked_funds(180, &"alice".to_string(), 2).unwrap();
    assert_eq!(t.len(), 2);
    assert_eq!(t[0].to_address, "alice");
    assert_eq!(t[0].amount, 45);
    assert_eq!(t[1].to_address, "bob");
    assert_eq!(t[1].amount, 45);
    assert_eq!(s.circle.total_amount_locked, 200); // the two cycle-2 deposits remain
    assert!(s.locked_amounts.is_empty());
}

#[test]
fn distribute_blocked_funds_remainder_to_first() {
    // P10: 91 across 2 recipients: the first gets 46, the second 45.
    let mut s = running_state();
    s.block_member(120, &"alice".to_string(), &"carol".to_string()).unwrap();
    for m in ["alice", "bob", "carol"] {
        s.deposit_contribution(150, &m.to_string(), &pay(100)).unwrap();
    }
    s.process_payout(160, &"alice".to_string()).unwrap();
    s.locked_amounts.push(LockedAmount { member: "carol".to_string(), amount: 91 });
    s.circle.total_amount_locked += 91;
    s.deposit_contribution(170, &"alice".to_string(), &pay(100)).unwrap();
    s.deposit_contribution(170, &"bob".to_string(), &pay(100)).unwrap();
    let t = s.distribute_blocked_funds(180, &"alice".to_string(), 2).unwrap();
    assert_eq!(t[0].amount, 46);
    assert_eq!(t[1].amount, 45);
}

#[test]
fn distribute_rejects_empty_pool() {
    let mut s = running_state();
    let r = s.distribute_blocked_funds(150, &"alice".to_string(), 1);
    assert!(matches!(r, Err(ContractError::InvalidParameters { .. })));
    let r2 = s.distribute_blocked_funds(150, &"bob".to_string(), 1);
    assert!(matches!(r2, Err(ContractError::Unauthorized { .. })));
}
