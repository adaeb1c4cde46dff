//! Read-side response shapes, computed purely from the stored entities.

use vstd::prelude::*;

use crate::state::{
    Circle, CircleStatus, DepositRecord, EventLog, PayoutRecord, PenaltyRecord, RefundRecord,
};

verus! {

pub struct CircleResponse {
    pub circle: Circle,
}

pub struct CirclesResponse {
    pub circles: Vec<Circle>,
}

pub struct MembersResponse {
    pub members: Vec<String>,
    pub pending_members: Vec<String>,
}

pub struct StatusResponse {
    pub status: CircleStatus,
}

pub struct CycleResponse {
    pub current_cycle: u32,
    pub total_cycles: u32,
    pub next_payout_date: Option<u64>,
    pub members_paid: Vec<String>,
    pub members_late: Vec<String>,
}

pub struct DepositsResponse {
    pub deposits: Vec<DepositRecord>,
}

pub struct PayoutsResponse {
    pub payouts: Vec<PayoutRecord>,
}

pub struct BalanceResponse {
    pub balance: u128,
}

pub struct PenaltiesResponse {
    pub penalties: Vec<PenaltyRecord>,
}

pub struct RefundsResponse {
    pub refunds: Vec<RefundRecord>,
}

pub struct EventsResponse {
    pub events: Vec<EventLog>,
}

pub struct CircleStatsResponse {
    pub circle_id: u64,
    pub total_members: u32,
    pub total_cycles: u32,
    pub cycles_completed: u32,
    pub total_amount_locked: u128,
    pub total_payouts: u128,
    pub total_penalties: u128,
    pub total_platform_fees: u128,
}

pub struct MemberStatsResponse {
    pub member: String,
    pub circles_joined: u32,
    pub total_contributed: u128,
    pub total_received: u128,
    pub total_penalties: u128,
    pub missed_payments: u32,
}

} // verus!
