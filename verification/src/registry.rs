//! The circle registry: creation of a new circle under a fresh id, and
//! pre-start edits of its descriptive fields.

use vstd::prelude::*;
use vstd::string::StringExecFns;

use crate::auth::is_creator;
use crate::error::ContractError;
use crate::escrow::payment_of;
use crate::events::{events_appended, ledgers_unchanged};
use crate::state::{
    has_addr, Circle, CircleState, CircleStatus, Coin, PayoutOrderType, Visibility,
};

verus! {

/// The smallest creator lock accepted at creation, in the smallest currency
/// unit.
pub const MIN_CREATOR_LOCK: u128 = 50_000_000;

/// The creation-time parameters of a circle, as plain values.
pub struct CreateParams {
    pub circle_name: String,
    pub circle_description: String,
    pub circle_image: Option<String>,
    pub max_members: u32,
    pub min_members_required: u32,
    pub invite_only: bool,
    pub contribution_amount: u128,
    pub penalty_fee_amount: u128,
    pub late_fee_amount: u128,
    pub total_cycles: u32,
    pub cycle_duration_days: u32,
    pub start_date: Option<u64>,
    pub grace_period_hours: u32,
    pub auto_start_when_full: bool,
    pub auto_start_type: Option<String>,
    pub auto_start_date: Option<u64>,
    pub payout_order_type: PayoutOrderType,
    pub payout_order_list: Option<Vec<String>>,
    pub auto_payout_enabled: bool,
    pub manual_trigger_enabled: bool,
    pub arbiter_address: Option<String>,
    pub emergency_stop_enabled: bool,
    pub auto_refund_if_min_not_met: bool,
    pub max_missed_payments_allowed: u32,
    pub strict_mode: bool,
    pub member_exit_allowed_before_start: bool,
    pub visibility: Visibility,
    pub show_member_identities: bool,
    pub arbiter_fee_percent: Option<u64>,
    pub creator_lock_amount: u128,
    pub first_distribution_threshold_percent: Option<u64>,
}

/// The parameter and payment checks of circle creation.
pub open spec fn create_allowed(p: CreateParams, funds: Seq<Coin>) -> bool {
    &&& p.max_members >= 1
    &&& p.min_members_required >= 1
    &&& p.min_members_required <= p.max_members
    &&& p.total_cycles >= 1
    &&& p.contribution_amount >= 1
    &&& p.creator_lock_amount >= MIN_CREATOR_LOCK
    &&& (p.first_distribution_threshold_percent matches Some(t) ==> t <= 60)
    &&& (p.payout_order_list matches Some(l) ==> l@.len() == p.max_members)
    &&& (payment_of(funds, "usaf"@) matches Some(pay) && pay >= p.creator_lock_amount)
    &&& p.contribution_amount * p.max_members <= u128::MAX
    &&& (p.start_date matches Some(d) ==> d + p.cycle_duration_days * p.max_members
        * p.total_cycles * 86400 <= u64::MAX)
}

/// The state a successful creation returns: a Draft circle with the creator
/// as its only member, empty ledgers, zero escrow, and one audit entry.
pub open spec fn created_state(
    st: CircleState,
    p: CreateParams,
    now: u64,
    circle_id: u64,
    sender: String,
    platform_fee_percent: u64,
    escrow_address: String,
) -> bool {
    &&& st.circle.circle_id == circle_id
    &&& st.circle.circle_name == p.circle_name
    &&& st.circle.circle_description == p.circle_description
    &&& st.circle.creator_address@ == sender@
    &&& st.circle.created_at == now
    &&& st.circle.updated_at == now
    &&& st.circle.max_members == p.max_members
    &&& st.circle.min_members_required == p.min_members_required
    &&& st.circle.invite_only == p.invite_only
    &&& st.circle.members_list@.len() == 1
    &&& st.circle.members_list@[0]@ == sender@
    &&& st.circle.pending_members@.len() == 0
    &&& st.circle.contribution_amount == p.contribution_amount
    &&& st.circle.denomination@ == "usaf"@
    &&& st.circle.payout_amount == p.contribution_amount * p.max_members
    &&& st.circle.penalty_fee_amount == p.penalty_fee_amount
    &&& st.circle.late_fee_amount == p.late_fee_amount
    &&& st.circle.platform_fee_percent == platform_fee_percent
    &&& st.circle.arbiter_fee_percent == p.arbiter_fee_percent
    &&& st.circle.total_cycles == p.total_cycles
    &&& st.circle.cycle_duration_days == p.cycle_duration_days
    &&& st.circle.start_date == p.start_date
    &&& st.circle.first_cycle_date == p.start_date
    &&& st.circle.next_payout_date == p.start_date
    &&& st.circle.end_date == (match p.start_date {
        Some(d) => Some(
            (d + p.cycle_duration_days * p.max_members * p.total_cycles * 86400) as u64,
        ),
        None => None::<u64>,
    })
    &&& st.circle.grace_period_hours == p.grace_period_hours
    &&& st.circle.payout_order_type == p.payout_order_type
    &&& st.circle.payout_order_list == (match p.payout_order_type {
        PayoutOrderType::RandomOrder => None::<Vec<String>>,
        PayoutOrderType::PredefinedOrder => p.payout_order_list,
    })
    &&& st.circle.arbiter_address == p.arbiter_address
    &&& st.circle.emergency_stop_enabled == p.emergency_stop_enabled
    &&& !st.circle.emergency_stop_triggered
    &&& st.circle.auto_refund_if_min_not_met == p.auto_refund_if_min_not_met
    &&& st.circle.strict_mode == p.strict_mode
    &&& st.circle.member_exit_allowed_before_start == p.member_exit_allowed_before_start
    &&& st.circle.escrow_address matches Some(e) && e@ == escrow_address@
    &&& st.circle.total_amount_locked == 0
    &&& st.circle.total_penalties_collected == 0
    &&& st.circle.total_platform_fees_collected == 0
    &&& st.circle.creator_lock_amount == p.creator_lock_amount
    &&& st.circle.first_distribution_threshold_percent
        == p.first_distribution_threshold_percent
    &&& st.circle.circle_status is Draft
    &&& st.circle.current_cycle_index == 0
    &&& st.circle.cycles_completed == 0
    &&& st.circle.visibility == p.visibility
    &&& st.deposits@.len() == 0
    &&& st.penalties@.len() == 0
    &&& st.payouts@.len() == 0
    &&& st.refunds@.len() == 0
    &&& st.locked_amounts@.len() == 0
    &&& st.blocked_members@.len() == 0
    &&& st.pseudonyms@.len() == 0
    &&& st.private_members@.len() == 0
    &&& st.events@.len() == 1
    &&& st.events@[0].event_type@ == "circle_created"@
    &&& st.events@[0].circle_id == circle_id
    &&& st.events@[0].timestamp == now
    &&& st.event_counter == 1
}

/// Creates a circle under `circle_id` (the caller supplies the next free id
/// from the registry counter; incrementing that counter fails closed on
/// overflow at the boundary that holds it). The creator must attach at
/// least the creator lock amount in the accepted denomination.
#[verifier::rlimit(100)]
pub fn create_circle(
    now: u64,
    circle_id: u64,
    sender: &String,
    funds: &Vec<Coin>,
    p: CreateParams,
    platform_fee_percent: u64,
    escrow_address: &String,
) -> (res: Result<CircleState, ContractError>)
    ensures
        res is Ok <==> create_allowed(p, funds@),
        (!(payment_of(funds@, "usaf"@) matches Some(pay) && pay >= p.creator_lock_amount)
            && p.max_members >= 1 && p.min_members_required >= 1 && p.min_members_required
            <= p.max_members && p.total_cycles >= 1 && p.contribution_amount >= 1
            && p.creator_lock_amount >= MIN_CREATOR_LOCK && (
        p.first_distribution_threshold_percent matches Some(t) ==> t <= 60)) ==> (res matches
            Err(e) && e matches ContractError::InsufficientFunds { required, sent: _ }
            && required == p.creator_lock_amount),
        res matches Ok(st) ==> st.wf() && created_state(
            st,
            p,
            now,
            circle_id,
            *sender,
            platform_fee_percent,
            *escrow_address,
        ),
{
    if p.max_members == 0 || p.min_members_required == 0 {
        return Err(ContractError::InvalidParameters {
            msg: String::from_str("max_members and min_members_required must be positive"),
        });
    }
    if p.min_members_required > p.max_members {
        return Err(ContractError::InvalidParameters {
            msg: String::from_str("min_members_required cannot exceed max_members"),
        });
    }
    if p.total_cycles == 0 {
        return Err(ContractError::InvalidParameters {
            msg: String::from_str("total_cycles must be positive"),
        });
    }
    if p.contribution_amount == 0 {
        return Err(ContractError::InvalidParameters {
            msg: String::from_str("contribution_amount must be positive"),
        });
    }
    if p.creator_lock_amount < MIN_CREATOR_LOCK {
        return Err(ContractError::InvalidParameters {
            msg: String::from_str("creator_lock_amount below the minimum"),
        });
    }
    match p.first_distribution_threshold_percent {
        Some(t) => {
            if t > 60 {
                return Err(ContractError::InvalidParameters {
                    msg: String::from_str("first_distribution_threshold_percent above 60"),
                });
            }
        },
        None => {},
    }
    let denom = String::from_str("usaf");
    let payment = match crate::escrow::attached_payment(funds, &denom) {
        Some(pay) => pay,
        None => {
            return Err(ContractError::InsufficientFunds {
                required: p.creator_lock_amount,
                sent: 0,
            });
        },
    };
    if payment < p.creator_lock_amount {
        return Err(ContractError::InsufficientFunds {
            required: p.creator_lock_amount,
            sent: payment,
        });
    }
    match &p.payout_order_list {
        Some(l) => {
            if l.len() != p.max_members as usize {
                return Err(ContractError::InvalidParameters {
                    msg: String::from_str("payout_order_list length must match max_members"),
                });
            }
        },
        None => {},
    }
    let payout_amount = match p.contribution_amount.checked_mul(p.max_members as u128) {
        Some(a) => a,
        None => {
            return Err(ContractError::InvalidParameters {
                msg: String::from_str("Payout amount overflow"),
            });
        },
    };
    let end_date: Option<u64> = match p.start_date {
        Some(d) => {
            proof {
                let a = p.cycle_duration_days as int;
                let b = p.max_members as int;
                let cc = p.total_cycles as int;
                assert(a * b <= 0xffff_ffff * 0xffff_ffff) by (nonlinear_arith)
                    requires
                        0 <= a <= 0xffff_ffff,
                        0 <= b <= 0xffff_ffff,
                ;
                assert(a * b * cc <= 0xffff_ffff * 0xffff_ffff * 0xffff_ffff)
                    by (nonlinear_arith)
                    requires
                        0 <= a * b <= 0xffff_ffff * 0xffff_ffff,
                        0 <= cc <= 0xffff_ffff,
                ;
                assert(a * b * cc * 86400 <= 0xffff_ffff * 0xffff_ffff * 0xffff_ffff * 86400)
                    by (nonlinear_arith)
                    requires
                        0 <= a * b * cc <= 0xffff_ffff * 0xffff_ffff * 0xffff_ffff,
                ;
            }
            let dur: u128 = (p.cycle_duration_days as u128) * (p.max_members as u128)
                * (p.total_cycles as u128) * 86400;
            if dur > u64::MAX as u128 || d > u64::MAX - (dur as u64) {
                return Err(ContractError::InvalidParameters {
                    msg: String::from_str("End date overflow"),
                });
            }
            Some(d + (dur as u64))
        },
        None => None,
    };
    let final_order: Option<Vec<String>> = match p.payout_order_type {
        PayoutOrderType::RandomOrder => None,
        PayoutOrderType::PredefinedOrder => p.payout_order_list,
    };
    let mut members: Vec<String> = Vec::new();
    members.push(sender.clone());
    let circle = Circle {
        circle_id,
        circle_name: p.circle_name,
        circle_description: p.circle_description,
        circle_image: p.circle_image,
        creator_address: sender.clone(),
        created_at: now,
        updated_at: now,
        max_members: p.max_members,
        min_members_required: p.min_members_required,
        invite_only: p.invite_only,
        members_list: members,
        pending_members: Vec::new(),
        member_exit_allowed_before_start: p.member_exit_allowed_before_start,
        contribution_amount: p.contribution_amount,
        denomination: denom,
        payout_amount,
        penalty_fee_amount: p.penalty_fee_amount,
        late_fee_amount: p.late_fee_amount,
        platform_fee_percent,
        arbiter_fee_percent: p.arbiter_fee_percent,
        total_cycles: p.total_cycles,
        cycle_duration_days: p.cycle_duration_days,
        start_date: p.start_date,
        first_cycle_date: p.start_date,
        next_payout_date: p.start_date,
        end_date,
        grace_period_hours: p.grace_period_hours,
        auto_start_when_full: p.auto_start_when_full,
        auto_start_type: p.auto_start_type,
        auto_start_date: p.auto_start_date,
        payout_order_type: p.payout_order_type,
        payout_order_list: final_order,
        auto_payout_enabled: p.auto_payout_enabled,
        manual_trigger_enabled: p.manual_trigger_enabled,
        arbiter_address: p.arbiter_address,
        emergency_stop_enabled: p.emergency_stop_enabled,
        emergency_stop_triggered: false,
        auto_refund_if_min_not_met: p.auto_refund_if_min_not_met,
        max_missed_payments_allowed: p.max_missed_payments_allowed,
        strict_mode: p.strict_mode,
        escrow_address: Some(escrow_address.clone()),
        total_amount_locked: 0,
        total_penalties_collected: 0,
        total_platform_fees_collected: 0,
        withdrawal_lock: false,
        refund_mode: crate::state::RefundMode::FullRefund,
        creator_lock_amount: p.creator_lock_amount,
        first_distribution_threshold_percent: p.first_distribution_threshold_percent,
        circle_status: CircleStatus::Draft,
        current_cycle_index: 0,
        cycles_completed: 0,
        members_paid_this_cycle: Vec::new(),
        members_late_this_cycle: Vec::new(),
        visibility: p.visibility,
        show_member_identities: p.show_member_identities,
    };
    let mut st = CircleState {
        circle,
        deposits: Vec::new(),
        penalties: Vec::new(),
        payouts: Vec::new(),
        refunds: Vec::new(),
        locked_amounts: Vec::new(),
        blocked_members: Vec::new(),
        pseudonyms: Vec::new(),
        private_members: Vec::new(),
        events: Vec::new(),
        event_counter: 0,
    };
    st.append_event(String::from_str("circle_created"), sender.clone(), now);
    Ok(st)
}

impl CircleState {
    /// Edits the circle's descriptive fields (creator only, not while
    /// Running or after Completed). Only the given fields change.
    #[verifier::rlimit(100)]
    pub fn update_circle(
        &mut self,
        now: u64,
        sender: &String,
        circle_name: Option<String>,
        circle_description: Option<String>,
        circle_image: Option<String>,
    ) -> (res: Result<(), ContractError>)
        requires
            old(self).wf(),
        ensures
            final(self).wf(),
            res is Err ==> *final(self) == *old(self),
            res is Ok <==> {
                &&& is_creator(old(self).circle, sender@)
                &&& !(old(self).circle.circle_status is Running || old(
                    self,
                ).circle.circle_status is Completed)
            },
            !is_creator(old(self).circle, sender@) ==> (res matches Err(e)
                && e is Unauthorized),
            is_creator(old(self).circle, sender@) && (old(self).circle.circle_status is Running
                || old(self).circle.circle_status is Completed) ==> (res matches Err(e)
                && e matches ContractError::InvalidCircleStatus { expected: _, actual }
                && actual == old(self).circle.circle_status),
            res is Ok ==> {
                &&& final(self).circle == (Circle {
                    circle_name: final(self).circle.circle_name,
                    circle_description: final(self).circle.circle_description,
                    circle_image: final(self).circle.circle_image,
                    updated_at: now,
                    ..old(self).circle
                })
                &&& final(self).circle.circle_name == (match circle_name {
                    Some(n) => n,
                    None => old(self).circle.circle_name,
                })
                &&& final(self).circle.circle_description == (match circle_description {
                    Some(d) => d,
                    None => old(self).circle.circle_description,
                })
                &&& final(self).circle.circle_image == (match circle_image {
                    Some(i) => Some(i),
                    None => old(self).circle.circle_image,
                })
                &&& ledgers_unchanged(*old(self), *final(self))
                &&& final(self).events == old(self).events
                &&& final(self).event_counter == old(self).event_counter
            },
    {
        if !crate::auth::check_creator(&self.circle, sender) {
            return Err(ContractError::Unauthorized {
                msg: String::from_str("Only creator can update circle"),
            });
        }
        match self.circle.circle_status {
            CircleStatus::Running | CircleStatus::Completed => {
                return Err(ContractError::InvalidCircleStatus {
                    expected: String::from_str("Not Running or Completed"),
                    actual: self.circle.circle_status,
                });
            },
            _ => {},
        }
        self.apply_update(now, circle_name, circle_description, circle_image);
        Ok(())
    }

    /// The committed effect of a validated descriptive edit.
    #[verifier::rlimit(100)]
    fn apply_update(
        &mut self,
        now: u64,
        circle_name: Option<String>,
        circle_description: Option<String>,
        circle_image: Option<String>,
    )
        ensures
            final(self).circle.circle_name == (match circle_name {
                Some(n) => n,
                None => old(self).circle.circle_name,
            }),
            final(self).circle.circle_description == (match circle_description {
                Some(d) => d,
                None => old(self).circle.circle_description,
            }),
            final(self).circle.circle_image == (match circle_image {
                Some(i) => Some(i),
                None => old(self).circle.circle_image,
            }),
            final(self).circle.updated_at == now,
            final(self).circle.circle_id == old(self).circle.circle_id,
            final(self).circle.creator_address == old(self).circle.creator_address,
            final(self).circle.created_at == old(self).circle.created_at,
            final(self).circle.max_members == old(self).circle.max_members,
            final(self).circle.min_members_required == old(self).circle.min_members_required,
            final(self).circle.invite_only == old(self).circle.invite_only,
            final(self).circle.members_list == old(self).circle.members_list,
            final(self).circle.pending_members == old(self).circle.pending_members,
            final(self).circle.member_exit_allowed_before_start == old(self).circle.member_exit_allowed_before_start,
            final(self).circle.contribution_amount == old(self).circle.contribution_amount,
            final(self).circle.denomination == old(self).circle.denomination,
            final(self).circle.payout_amount == old(self).circle.payout_amount,
            final(self).circle.penalty_fee_amount == old(self).circle.penalty_fee_amount,
            final(self).circle.late_fee_amount == old(self).circle.late_fee_amount,
            final(self).circle.platform_fee_percent == old(self).circle.platform_fee_percent,
            final(self).circle.arbiter_fee_percent == old(self).circle.arbiter_fee_percent,
            final(self).circle.total_cycles == old(self).circle.total_cycles,
            final(self).circle.cycle_duration_days == old(self).circle.cycle_duration_days,
            final(self).circle.start_date == old(self).circle.start_date,
            final(self).circle.first_cycle_date == old(self).circle.first_cycle_date,
            final(self).circle.next_payout_date == old(self).circle.next_payout_date,
            final(self).circle.end_date == old(self).circle.end_date,
            final(self).circle.grace_period_hours == old(self).circle.grace_period_hours,
            final(self).circle.auto_start_when_full == old(self).circle.auto_start_when_full,
            final(self).circle.auto_start_type == old(self).circle.auto_start_type,
            final(self).circle.auto_start_date == old(self).circle.auto_start_date,
            final(self).circle.payout_order_type == old(self).circle.payout_order_type,
            final(self).circle.payout_order_list == old(self).circle.payout_order_list,
            final(self).circle.auto_payout_enabled == old(self).circle.auto_payout_enabled,
            final(self).circle.manual_trigger_enabled == old(self).circle.manual_trigger_enabled,
            final(self).circle.arbiter_address == old(self).circle.arbiter_address,
            final(self).circle.emergency_stop_enabled == old(self).circle.emergency_stop_enabled,
            final(self).circle.emergency_stop_triggered == old(self).circle.emergency_stop_triggered,
            final(self).circle.auto_refund_if_min_not_met == old(self).circle.auto_refund_if_min_not_met,
            final(self).circle.max_missed_payments_allowed == old(self).circle.max_missed_payments_allowed,
            final(self).circle.strict_mode == old(self).circle.strict_mode,
            final(self).circle.escrow_address == old(self).circle.escrow_address,
            final(self).circle.total_amount_locked == old(self).circle.total_amount_locked,
            final(self).circle.total_penalties_collected == old(self).circle.total_penalties_collected,
            final(self).circle.total_platform_fees_collected == old(self).circle.total_platform_fees_collected,
            final(self).circle.withdrawal_lock == old(self).circle.withdrawal_lock,
            final(self).circle.refund_mode == old(self).circle.refund_mode,
            final(self).circle.creator_lock_amount == old(self).circle.creator_lock_amount,
            final(self).circle.first_distribution_threshold_percent == old(self).circle.first_distribution_threshold_percent,
            final(self).circle.circle_status == old(self).circle.circle_status,
            final(self).circle.current_cycle_index == old(self).circle.current_cycle_index,
            final(self).circle.cycles_completed == old(self).circle.cycles_completed,
            final(self).circle.members_paid_this_cycle == old(self).circle.members_paid_this_cycle,
            final(self).circle.members_late_this_cycle == old(self).circle.members_late_this_cycle,
            final(self).circle.visibility == old(self).circle.visibility,
            final(self).circle.show_member_identities == old(self).circle.show_member_identities,
            final(self).deposits == old(self).deposits,
            final(self).penalties == old(self).penalties,
            final(self).payouts == old(self).payouts,
            final(self).refunds == old(self).refunds,
            final(self).locked_amounts == old(self).locked_amounts,
            final(self).blocked_members == old(self).blocked_members,
            final(self).pseudonyms == old(self).pseudonyms,
            final(self).private_members == old(self).private_members,
            final(self).events == old(self).events,
            final(self).event_counter == old(self).event_counter,
    {
        match circle_name {
            Some(n) => {
                self.circle.circle_name = n;
            },
            None => {},
        }
        match circle_description {
            Some(d) => {
                self.circle.circle_description = d;
            },
            None => {},
        }
        match circle_image {
            Some(i) => {
                self.circle.circle_image = Some(i);
            },
            None => {},
        }
        self.circle.updated_at = now;
    }
}

} // verus!
