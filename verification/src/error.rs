//! Every way an operation can be rejected. All rejections are pure
//! validation failures: no operation commits a partial state change.

use vstd::prelude::*;

use crate::state::CircleStatus;

verus! {

/// One rejection kind per distinct failure condition.
#[derive(Clone, Debug)]
pub enum ContractError {
    /// Wrong caller role for the action.
    Unauthorized { msg: String },
    /// Unknown circle id.
    CircleNotFound { circle_id: u64 },
    /// The circle's status forbids the operation.
    InvalidCircleStatus { expected: String, actual: CircleStatus },
    /// The member list is at capacity.
    CircleFull { max: u32 },
    /// A non-invited caller tried to join an invite-gated circle.
    InviteOnly { circle_id: u64 },
    /// Duplicate-membership guard.
    AlreadyMember { address: String },
    /// Attached payment below the requirement.
    InsufficientFunds { required: u128, sent: u128 },
    /// The circle has not started yet.
    CircleNotStarted { circle_id: u64 },
    /// Exit attempted after start or while disabled.
    ExitNotAllowed { circle_id: u64 },
    /// Too few members to start.
    MinMembersNotMet { required: u32, current: u32 },
    /// Payout attempted before its due date.
    CycleNotReady { next_date: u64 },
    /// A member has no deposit for the cycle.
    PaymentMissing { address: String, cycle: u32 },
    /// Strict-mode rejection of a late payment.
    MemberLate { address: String },
    /// Too many missed payments.
    MaxMissedPaymentsExceeded { max: u32 },
    /// Unusable payout order configuration.
    InvalidPayoutOrderType {},
    /// A cycle number outside the valid range.
    InvalidCycleIndex { index: u32 },
    /// The emergency stop has been triggered.
    EmergencyStopActive {},
    /// Only the arbiter may perform the action.
    ArbiterOnly {},
    /// Malformed input combination, or a checked computation failed.
    InvalidParameters { msg: String },
    /// Duplicate-deposit guard for one (member, cycle).
    AlreadyDeposited { address: String, cycle: u32 },
}

} // verus!
