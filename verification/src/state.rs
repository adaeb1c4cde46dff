//! Entity model of a savings circle: the `Circle` aggregate, its ledger
//! records, and the combined per-circle state with its well-formedness
//! invariant (including conservation of escrowed funds).

use vstd::prelude::*;

verus! {

/// Lifecycle status of a circle.
#[derive(Clone, Copy, PartialEq, Eq, Structural, Debug)]
pub enum CircleStatus {
    Draft,
    Open,
    Full,
    Running,
    Paused,
    Completed,
    Cancelled,
}

/// How the payout rotation is established when the circle starts.
#[derive(Clone, Copy, PartialEq, Eq, Structural, Debug)]
pub enum PayoutOrderType {
    PredefinedOrder,
    RandomOrder,
}

/// Refund policy on cancellation.
#[derive(Clone, Copy, PartialEq, Eq, Structural, Debug)]
pub enum RefundMode {
    FullRefund,
    PartialRefund,
    AutoDistribute,
}

/// Whether the circle is publicly joinable or invite-gated by privacy.
#[derive(Clone, Copy, PartialEq, Eq, Structural, Debug)]
pub enum Visibility {
    Public,
    Private,
}

/// The aggregate root: one rotating-savings circle.
///
/// Addresses are plain strings (validated at the boundary), amounts are
/// `u128` of the smallest currency unit, and times are seconds.
#[derive(Clone)]
pub struct Circle {
    pub circle_id: u64,
    pub circle_name: String,
    pub circle_description: String,
    pub circle_image: Option<String>,
    pub creator_address: String,
    pub created_at: u64,
    pub updated_at: u64,
    pub max_members: u32,
    pub min_members_required: u32,
    pub invite_only: bool,
    pub members_list: Vec<String>,
    pub pending_members: Vec<String>,
    pub member_exit_allowed_before_start: bool,
    pub contribution_amount: u128,
    pub denomination: String,
    pub payout_amount: u128,
    pub penalty_fee_amount: u128,
    pub late_fee_amount: u128,
    pub platform_fee_percent: u64,
    pub arbiter_fee_percent: Option<u64>,
    pub total_cycles: u32,
    pub cycle_duration_days: u32,
    pub start_date: Option<u64>,
    pub first_cycle_date: Option<u64>,
    pub next_payout_date: Option<u64>,
    pub end_date: Option<u64>,
    pub grace_period_hours: u32,
    pub auto_start_when_full: bool,
    pub auto_start_type: Option<String>,
    pub auto_start_date: Option<u64>,
    pub payout_order_type: PayoutOrderType,
    pub payout_order_list: Option<Vec<String>>,
    pub auto_payout_enabled: bool,
    pub manual_trigger_enabled: bool,
    pub arbiter_address: Option<String>,
    pub emergency_stop_enabled: bool,
    pub emergency_stop_triggered: bool,
    pub auto_refund_if_min_not_met: bool,
    pub max_missed_payments_allowed: u32,
    pub strict_mode: bool,
    pub escrow_address: Option<String>,
    pub total_amount_locked: u128,
    pub total_penalties_collected: u128,
    pub total_platform_fees_collected: u128,
    pub withdrawal_lock: bool,
    pub refund_mode: RefundMode,
    pub creator_lock_amount: u128,
    pub first_distribution_threshold_percent: Option<u64>,
    pub circle_status: CircleStatus,
    pub current_cycle_index: u32,
    pub cycles_completed: u32,
    pub members_paid_this_cycle: Vec<String>,
    pub members_late_this_cycle: Vec<String>,
    pub visibility: Visibility,
    pub show_member_identities: bool,
}

/// One accepted per-cycle contribution, written once per (member, cycle).
#[derive(Clone)]
pub struct DepositRecord {
    pub member: String,
    pub cycle: u32,
    pub amount: u128,
    pub timestamp: u64,
    pub on_time: bool,
}

/// A late-fee penalty recorded beside a late deposit.
#[derive(Clone)]
pub struct PenaltyRecord {
    pub member: String,
    pub cycle: u32,
    pub amount: u128,
    pub reason: String,
    pub timestamp: u64,
}

/// The completed payout of one cycle.
#[derive(Clone)]
pub struct PayoutRecord {
    pub cycle: u32,
    pub recipient: String,
    pub amount: u128,
    pub timestamp: u64,
    pub transaction_hash: Option<String>,
}

/// A refund issued to a member.
#[derive(Clone)]
pub struct RefundRecord {
    pub member: String,
    pub amount: u128,
    pub reason: String,
    pub timestamp: u64,
}

/// One entry of the per-circle, sequentially numbered audit trail.
#[derive(Clone)]
pub struct EventLog {
    pub event_type: String,
    pub circle_id: u64,
    pub data: String,
    pub timestamp: u64,
}

/// Per-member missed-payment statistics.
#[derive(Clone)]
pub struct MemberMissedPayments {
    pub member: String,
    pub missed_count: u32,
    pub last_missed_cycle: Option<u32>,
}

/// Platform-level configuration.
#[derive(Clone)]
pub struct PlatformConfig {
    pub platform_fee_percent: u64,
    pub platform_address: String,
}

/// A member's refundable join deposit held in escrow.
#[derive(Clone)]
pub struct LockedAmount {
    pub member: String,
    pub amount: u128,
}

/// Marks a member as excluded from payment obligations from `from_cycle` on.
#[derive(Clone)]
pub struct BlockedMember {
    pub member: String,
    pub from_cycle: u32,
}

/// A display pseudonym attached to a member of a private circle.
#[derive(Clone)]
pub struct MemberPseudonym {
    pub member: String,
    pub pseudonym: String,
}

/// One denomination-amount pair attached to a call as payment.
#[derive(Clone)]
pub struct Coin {
    pub denom: String,
    pub amount: u128,
}

/// A value-transfer instruction emitted by an operation, to be executed
/// outside of it.
#[derive(Clone)]
pub struct TransferMsg {
    pub to_address: String,
    pub denom: String,
    pub amount: u128,
}

/// The full persisted state of one circle: the aggregate plus every ledger
/// keyed under its id.
pub struct CircleState {
    pub circle: Circle,
    pub deposits: Vec<DepositRecord>,
    pub penalties: Vec<PenaltyRecord>,
    pub payouts: Vec<PayoutRecord>,
    pub refunds: Vec<RefundRecord>,
    pub locked_amounts: Vec<LockedAmount>,
    pub blocked_members: Vec<BlockedMember>,
    pub pseudonyms: Vec<MemberPseudonym>,
    pub private_members: Vec<String>,
    pub events: Vec<EventLog>,
    pub event_counter: u64,
}

/// `a` occurs in the address list `s` (compared by contents).
pub open spec fn has_addr(s: Seq<String>, a: Seq<char>) -> bool {
    exists|i: int| 0 <= i < s.len() && #[trigger] s[i]@ == a
}

/// No two entries of `s` hold the same address.
pub open spec fn addrs_unique(s: Seq<String>) -> bool {
    forall|i: int, j: int|
        #![trigger s[i], s[j]]
        0 <= i < j < s.len() ==> s[i]@ != s[j]@
}

/// The blocking cycle recorded for `m`, if any (keys are unique).
pub open spec fn blocked_cycle_of(s: Seq<BlockedMember>, m: Seq<char>) -> Option<u32>
    decreases s.len(),
{
    if s.len() == 0 {
        None
    } else if s[0].member@ == m {
        Some(s[0].from_cycle)
    } else {
        blocked_cycle_of(s.drop_first(), m)
    }
}

/// `m` is not excluded from cycle `c`: either never blocked, or blocked only
/// from a later cycle.
pub open spec fn is_active(blocked: Seq<BlockedMember>, m: Seq<char>, c: u32) -> bool {
    match blocked_cycle_of(blocked, m) {
        Some(bc) => bc > c,
        None => true,
    }
}

/// The locked join deposit recorded for `m`, if any (keys are unique).
pub open spec fn locked_of(s: Seq<LockedAmount>, m: Seq<char>) -> Option<u128>
    decreases s.len(),
{
    if s.len() == 0 {
        None
    } else if s[0].member@ == m {
        Some(s[0].amount)
    } else {
        locked_of(s.drop_first(), m)
    }
}

/// The pseudonym recorded for `m`, if any (keys are unique).
pub open spec fn pseudonym_of(s: Seq<MemberPseudonym>, m: Seq<char>) -> Option<String>
    decreases s.len(),
{
    if s.len() == 0 {
        None
    } else if s[0].member@ == m {
        Some(s[0].pseudonym)
    } else {
        pseudonym_of(s.drop_first(), m)
    }
}

/// A deposit for (`m`, `c`) is on record.
pub open spec fn has_dep(s: Seq<DepositRecord>, m: Seq<char>, c: u32) -> bool {
    exists|i: int| 0 <= i < s.len() && #[trigger] s[i].member@ == m && s[i].cycle == c
}

/// A penalty for (`m`, `c`) is on record.
pub open spec fn has_penalty(s: Seq<PenaltyRecord>, m: Seq<char>, c: u32) -> bool {
    exists|i: int| 0 <= i < s.len() && #[trigger] s[i].member@ == m && s[i].cycle == c
}

/// Sum of all locked join deposits.
pub open spec fn sum_locked(s: Seq<LockedAmount>) -> int
    decreases s.len(),
{
    if s.len() == 0 {
        0
    } else {
        sum_locked(s.drop_last()) + s.last().amount
    }
}

/// Sum of the deposit amounts of cycles later than `k` (the cycles whose
/// contributions have not yet been paid out).
pub open spec fn sum_deps_above(s: Seq<DepositRecord>, k: u32) -> int
    decreases s.len(),
{
    if s.len() == 0 {
        0
    } else {
        sum_deps_above(s.drop_last(), k) + if s.last().cycle > k {
            s.last().amount as int
        } else {
            0
        }
    }
}

/// Sum of the deposit amounts of cycle `c` exactly.
pub open spec fn sum_deps_at(s: Seq<DepositRecord>, c: u32) -> int
    decreases s.len(),
{
    if s.len() == 0 {
        0
    } else {
        sum_deps_at(s.drop_last(), c) + if s.last().cycle == c {
            s.last().amount as int
        } else {
            0
        }
    }
}

/// Number of deposit records of cycle `c`.
pub open spec fn count_deps_at(s: Seq<DepositRecord>, c: u32) -> int
    decreases s.len(),
{
    if s.len() == 0 {
        0
    } else {
        count_deps_at(s.drop_last(), c) + if s.last().cycle == c {
            1int
        } else {
            0
        }
    }
}

/// The set of members with a deposit record for cycle `c`.
pub open spec fn depositors_at(s: Seq<DepositRecord>, c: u32) -> Set<Seq<char>>
    decreases s.len(),
{
    if s.len() == 0 {
        Set::empty()
    } else {
        let rest = depositors_at(s.drop_last(), c);
        if s.last().cycle == c {
            rest.insert(s.last().member@)
        } else {
            rest
        }
    }
}

/// Number of members of `ms` active (not blocked) for cycle `c`.
pub open spec fn active_count(ms: Seq<String>, blocked: Seq<BlockedMember>, c: u32) -> int
    decreases ms.len(),
{
    if ms.len() == 0 {
        0
    } else {
        active_count(ms.drop_last(), blocked, c) + if is_active(blocked, ms.last()@, c) {
            1int
        } else {
            0
        }
    }
}

/// The set of members of `ms` active for cycle `c`.
pub open spec fn active_set(ms: Seq<String>, blocked: Seq<BlockedMember>, c: u32) -> Set<
    Seq<char>,
>
    decreases ms.len(),
{
    if ms.len() == 0 {
        Set::empty()
    } else {
        let rest = active_set(ms.drop_last(), blocked, c);
        if is_active(blocked, ms.last()@, c) {
            rest.insert(ms.last()@)
        } else {
            rest
        }
    }
}

impl Circle {
    /// Creation-time parameter constraints.
    pub open spec fn params_ok(self) -> bool {
        &&& self.max_members >= 1
        &&& 1 <= self.min_members_required <= self.max_members
        &&& self.total_cycles >= 1
        &&& self.contribution_amount >= 1
        &&& (self.first_distribution_threshold_percent matches Some(t) ==> t <= 60)
    }

    /// Member and pending lists are duplicate-free, disjoint, and within
    /// capacity.
    pub open spec fn membership_ok(self) -> bool {
        &&& addrs_unique(self.members_list@)
        &&& addrs_unique(self.pending_members@)
        &&& self.members_list@.len() <= self.max_members
        &&& forall|i: int|
            0 <= i < self.pending_members@.len() ==> !has_addr(
                self.members_list@,
                #[trigger] self.pending_members@[i]@,
            )
    }

    /// The payout order, once present, is non-empty.
    pub open spec fn order_ok(self) -> bool {
        self.payout_order_list matches Some(l) ==> l@.len() >= 1
    }

    /// The cycle counters agree with the lifecycle status.
    pub open spec fn status_ok(self) -> bool {
        &&& (self.circle_status is Full ==> self.members_list@.len() == self.max_members)
        &&& ((self.circle_status is Draft || self.circle_status is Open || self.circle_status
            is Full) ==> self.current_cycle_index == 0 && self.cycles_completed == 0)
        &&& ((self.circle_status is Running || self.circle_status is Paused) ==> {
            &&& 1 <= self.current_cycle_index <= self.total_cycles
            &&& self.cycles_completed == self.current_cycle_index - 1
            &&& self.payout_order_list is Some
        })
        &&& (self.circle_status is Completed ==> {
            &&& self.current_cycle_index == self.total_cycles
            &&& self.cycles_completed == self.total_cycles
            &&& self.payout_order_list is Some
        })
        &&& self.cycles_completed <= self.total_cycles
    }
}

impl CircleState {
    /// Deposit records are key-unique, carry exactly the contribution
    /// amount, only exist for cycles already reached, and — while the
    /// rotation is live — belong to current members.
    pub open spec fn deposits_ok(self) -> bool {
        &&& forall|i: int|
            0 <= i < self.deposits@.len() ==> {
                &&& (#[trigger] self.deposits@[i]).amount == self.circle.contribution_amount
                &&& 1 <= self.deposits@[i].cycle <= self.circle.current_cycle_index
            }
        &&& ((self.circle.circle_status is Running || self.circle.circle_status is Paused)
            ==> forall|i: int|
            0 <= i < self.deposits@.len() ==> has_addr(
                self.circle.members_list@,
                (#[trigger] self.deposits@[i]).member@,
            ))
        &&& forall|i: int, j: int|
            #![trigger self.deposits@[i], self.deposits@[j]]
            0 <= i < j < self.deposits@.len() ==> !(self.deposits@[i].member@
                == self.deposits@[j].member@ && self.deposits@[i].cycle
                == self.deposits@[j].cycle)
    }

    /// Block markers are key-unique and strictly later than every deposit of
    /// the blocked member: a blocked member never has a deposit for a cycle
    /// they are blocked in.
    pub open spec fn blocked_ok(self) -> bool {
        &&& forall|i: int, j: int|
            #![trigger self.blocked_members@[i], self.blocked_members@[j]]
            0 <= i < j < self.blocked_members@.len() ==> self.blocked_members@[i].member@
                != self.blocked_members@[j].member@
        &&& forall|i: int, j: int|
            #![trigger self.deposits@[i], self.blocked_members@[j]]
            0 <= i < self.deposits@.len() && 0 <= j < self.blocked_members@.len()
                && self.deposits@[i].member@ == self.blocked_members@[j].member@
                ==> self.deposits@[i].cycle < self.blocked_members@[j].from_cycle
    }

    /// Payout records are dense from cycle 1, one per completed cycle, and
    /// each recipient follows the finalized rotation.
    pub open spec fn payouts_ok(self) -> bool {
        &&& self.payouts@.len() == self.circle.cycles_completed
        &&& forall|j: int|
            0 <= j < self.payouts@.len() ==> (#[trigger] self.payouts@[j]).cycle == j + 1
        &&& (self.payouts@.len() > 0 ==> self.circle.payout_order_list is Some)
        &&& (self.circle.payout_order_list matches Some(ord) ==> forall|j: int|
            0 <= j < self.payouts@.len() ==> (#[trigger] self.payouts@[j]).recipient@ == ord@[j
                % ord@.len() as int]@)
    }

    /// Locked join deposits are key-unique and belong to current members.
    pub open spec fn locked_ok(self) -> bool {
        &&& forall|i: int, j: int|
            #![trigger self.locked_amounts@[i], self.locked_amounts@[j]]
            0 <= i < j < self.locked_amounts@.len() ==> self.locked_amounts@[i].member@
                != self.locked_amounts@[j].member@
        &&& forall|i: int|
            0 <= i < self.locked_amounts@.len() ==> has_addr(
                self.circle.members_list@,
                (#[trigger] self.locked_amounts@[i]).member@,
            )
    }

    /// Conservation of escrowed funds: the recorded total equals the sum of
    /// outstanding join deposits plus the contributions of cycles not yet
    /// paid out.
    pub open spec fn escrow_ok(self) -> bool {
        self.circle.total_amount_locked as int == sum_locked(self.locked_amounts@)
            + sum_deps_above(self.deposits@, self.circle.cycles_completed)
    }

    /// Pseudonyms are key-unique.
    pub open spec fn pseudonyms_ok(self) -> bool {
        forall|i: int, j: int|
            #![trigger self.pseudonyms@[i], self.pseudonyms@[j]]
            0 <= i < j < self.pseudonyms@.len() ==> self.pseudonyms@[i].member@
                != self.pseudonyms@[j].member@
    }

    /// The audit-trail counter equals the number of appended events.
    pub open spec fn events_ok(self) -> bool {
        self.event_counter == self.events@.len()
    }

    /// Well-formedness: established at creation and preserved by every
    /// operation.
    pub open spec fn wf(self) -> bool {
        &&& self.circle.params_ok()
        &&& self.circle.membership_ok()
        &&& self.circle.order_ok()
        &&& self.circle.status_ok()
        &&& self.deposits_ok()
        &&& self.blocked_ok()
        &&& self.payouts_ok()
        &&& self.locked_ok()
        &&& self.pseudonyms_ok()
        &&& self.escrow_ok()
        &&& self.events_ok()
    }
}

} // verus!
