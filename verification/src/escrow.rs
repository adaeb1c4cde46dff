//! The escrow ledger: attached-payment validation, join-deposit locking,
//! and per-cycle contribution deposits with late-fee handling.

use vstd::prelude::*;
use vstd::string::StringExecFns;

use crate::error::ContractError;
use crate::events::events_appended;
use crate::lookup::{blocked_from, contains_addr, has_deposit, lemma_push_addr_unique};
use crate::membership::removed_one;
use crate::state::{
    blocked_cycle_of, has_addr, has_dep, has_penalty, is_active, locked_of, sum_locked, Circle,
    CircleState, CircleStatus, Coin, DepositRecord, LockedAmount, PenaltyRecord,
};
use crate::sums::lemma_locked_entry_some;

verus! {

/// The amount attached to a call in `denom`: exactly one coin, of that
/// denomination, with a positive amount — anything else counts as no
/// payment.
pub open spec fn payment_of(funds: Seq<Coin>, denom: Seq<char>) -> Option<u128> {
    if funds.len() == 1 && funds[0].denom@ == denom && funds[0].amount > 0 {
        Some(funds[0].amount)
    } else {
        None
    }
}

/// Reads the payment attached to a call.
pub fn attached_payment(funds: &Vec<Coin>, denom: &String) -> (r: Option<u128>)
    ensures
        r == payment_of(funds@, denom@),
{
    if funds.len() == 1 && funds[0].amount > 0 && funds[0].denom == *denom {
        Some(funds[0].amount)
    } else {
        None
    }
}

/// A deposit arriving after the payout date plus the grace period is late.
pub open spec fn is_late(c: Circle, now: u64) -> bool {
    match c.next_payout_date {
        Some(d) => now > d + c.grace_period_hours * 3600,
        None => false,
    }
}

/// Whether `now` falls after the grace period of the pending payout date.
pub fn check_late(c: &Circle, now: u64) -> (r: bool)
    ensures
        r == is_late(*c, now),
{
    match c.next_payout_date {
        Some(d) => now > d && now - d > (c.grace_period_hours as u64) * 3600,
        None => false,
    }
}

/// The circle accepts a join-deposit lock by `sender` in this state.
pub open spec fn lock_allowed(s: CircleState, sender: Seq<char>, funds: Seq<Coin>) -> bool {
    &&& (s.circle.circle_status is Draft || s.circle.circle_status is Open)
    &&& (has_addr(s.circle.members_list@, sender) || (has_addr(s.circle.pending_members@, sender)
        && s.circle.members_list@.len() < s.circle.max_members))
    &&& locked_of(s.locked_amounts@, sender) is None
    &&& (payment_of(funds, s.circle.denomination@) matches Some(p) && p
        >= s.circle.contribution_amount)
    &&& s.circle.total_amount_locked + s.circle.contribution_amount <= u128::MAX
    &&& s.event_counter < u64::MAX
}

/// The full effect of an accepted lock: a pending caller is accepted into
/// membership, the lock is recorded, and the escrow total grows by the
/// contribution amount.
pub open spec fn lock_effect(
    pre: CircleState,
    post: CircleState,
    sender: String,
    now: u64,
) -> bool {
    let was_member = has_addr(pre.circle.members_list@, sender@);
    &&& (was_member ==> {
        &&& post.circle.members_list@ == pre.circle.members_list@
        &&& post.circle.pending_members@ == pre.circle.pending_members@
        &&& post.circle.circle_status == pre.circle.circle_status
    })
    &&& (!was_member ==> {
        &&& post.circle.members_list@ == pre.circle.members_list@.push(sender)
        &&& removed_one(pre.circle.pending_members@, post.circle.pending_members@, sender@)
        &&& post.circle.circle_status == (if pre.circle.members_list@.len() + 1
            == pre.circle.max_members as int {
            CircleStatus::Full
        } else {
            CircleStatus::Open
        })
    })
    &&& locked_of(post.locked_amounts@, sender@) == Some(pre.circle.contribution_amount)
    &&& (forall|m2: Seq<char>|
        m2 != sender@ ==> locked_of(post.locked_amounts@, m2) == locked_of(
            pre.locked_amounts@,
            m2,
        ))
    &&& post.circle.total_amount_locked == pre.circle.total_amount_locked
        + pre.circle.contribution_amount
    &&& post.deposits == pre.deposits
    &&& post.penalties == pre.penalties
    &&& post.payouts == pre.payouts
    &&& post.refunds == pre.refunds
    &&& post.blocked_members == pre.blocked_members
    &&& post.pseudonyms == pre.pseudonyms
    &&& post.private_members == pre.private_members
    &&& events_appended(pre, post, "join_deposit_locked"@, now)
}

impl CircleState {
    /// Locks a member's (or invited caller's) refundable join deposit. An
    /// invited caller is accepted into membership as a side effect. The
    /// attached payment must cover the contribution amount.
    pub fn lock_join_deposit(&mut self, now: u64, sender: &String, funds: &Vec<Coin>) -> (res:
        Result<(), ContractError>)
        requires
            old(self).wf(),
        ensures
            final(self).wf(),
            res is Err ==> *final(self) == *old(self),
            res is Ok <==> lock_allowed(*old(self), sender@, funds@),
            !(old(self).circle.circle_status is Draft || old(self).circle.circle_status is Open)
                ==> (res matches Err(e) && e matches ContractError::InvalidCircleStatus {
                expected: _,
                actual,
            } && actual == old(self).circle.circle_status),
            (old(self).circle.circle_status is Draft || old(self).circle.circle_status is Open)
                && !(has_addr(old(self).circle.members_list@, sender@) || has_addr(
                old(self).circle.pending_members@,
                sender@,
            )) ==> (res matches Err(e) && e is Unauthorized),
            res is Ok ==> lock_effect(*old(self), *final(self), *sender, now),
    {
        match self.circle.circle_status {
            CircleStatus::Draft | CircleStatus::Open => {},
            _ => {
                return Err(ContractError::InvalidCircleStatus {
                    expected: String::from_str("Draft or Open"),
                    actual: self.circle.circle_status,
                });
            },
        }
        let is_member = contains_addr(&self.circle.members_list, sender);
        let is_pending = contains_addr(&self.circle.pending_members, sender);
        if !is_member && !is_pending {
            return Err(ContractError::Unauthorized {
                msg: String::from_str("Not a member or invited to this circle"),
            });
        }
        if !is_member && self.circle.members_list.len() >= self.circle.max_members as usize {
            return Err(ContractError::CircleFull { max: self.circle.max_members });
        }
        match crate::lookup::locked_amount_of(&self.locked_amounts, sender) {
            Some(_) => {
                return Err(ContractError::InvalidParameters {
                    msg: String::from_str("Join deposit already locked"),
                });
            },
            None => {},
        }
        let payment = match attached_payment(funds, &self.circle.denomination) {
            Some(p) => p,
            None => {
                return Err(ContractError::InsufficientFunds {
                    required: self.circle.contribution_amount,
                    sent: 0,
                });
            },
        };
        if payment < self.circle.contribution_amount {
            return Err(ContractError::InsufficientFunds {
                required: self.circle.contribution_amount,
                sent: payment,
            });
        }
        if self.circle.total_amount_locked > u128::MAX - self.circle.contribution_amount {
            return Err(ContractError::InvalidParameters {
                msg: String::from_str("Total amount overflow"),
            });
        }
        if self.event_counter == u64::MAX {
            return Err(ContractError::InvalidParameters {
                msg: String::from_str("event counter overflow"),
            });
        }
        self.apply_lock(now, sender, is_member);
        Ok(())
    }

    /// The committed effect of a validated join-deposit lock.
    #[verifier::rlimit(100)]
    fn apply_lock(&mut self, now: u64, sender: &String, is_member: bool)
        requires
            old(self).wf(),
            old(self).circle.circle_status is Draft || old(self).circle.circle_status is Open,
            has_addr(old(self).circle.members_list@, sender@) || (has_addr(
                old(self).circle.pending_members@,
                sender@,
            ) && old(self).circle.members_list@.len() < old(self).circle.max_members),
            locked_of(old(self).locked_amounts@, sender@) is None,
            old(self).circle.total_amount_locked + old(self).circle.contribution_amount
                <= u128::MAX,
            old(self).event_counter < u64::MAX,
            is_member == has_addr(old(self).circle.members_list@, sender@),
        ensures
            final(self).wf(),
            lock_effect(*old(self), *final(self), *sender, now),
    {
        let ghost pre = *self;
        if !is_member {
            self.join_roster(now, sender, true);
            proof {
                lemma_push_addr_unique(pre.circle.members_list@, *sender);
                let k = choose|k: int|
                    0 <= k < pre.circle.pending_members@.len()
                        && #[trigger] pre.circle.pending_members@[k]@ == sender@
                        && self.circle.pending_members@
                        == pre.circle.pending_members@.remove(k);
                crate::lookup::lemma_remove_addr_unique(pre.circle.pending_members@, k);
                assert forall|i: int|
                    0 <= i < self.circle.pending_members@.len() implies !has_addr(
                    self.circle.members_list@,
                    (#[trigger] self.circle.pending_members@[i])@,
                ) by {
                    let p = self.circle.pending_members@[i]@;
                    assert(has_addr(self.circle.pending_members@, p));
                    assert(p != sender@);
                    assert(has_addr(pre.circle.pending_members@, p));
                }
            }
            if self.circle.members_list.len() >= self.circle.max_members as usize {
                self.circle.circle_status = CircleStatus::Full;
            } else {
                self.circle.circle_status = CircleStatus::Open;
            }
        }
        let ghost mid = *self;
        let amount = self.circle.contribution_amount;
        self.locked_amounts.push(LockedAmount { member: sender.clone(), amount });
        proof {
            assert(self.locked_amounts@.drop_last() =~= mid.locked_amounts@);
            assert forall|j: int|
                0 <= j < mid.locked_amounts@.len() implies (
            #[trigger] self.locked_amounts@[j]).member@ != sender@ by {
                assert(self.locked_amounts@[j] == mid.locked_amounts@[j]);
                if mid.locked_amounts@[j].member@ == sender@ {
                    lemma_locked_entry_some(mid.locked_amounts@, j);
                }
            }
            crate::sums::lemma_locked_of_skip(
                self.locked_amounts@,
                sender@,
                mid.locked_amounts@.len() as int,
            );
            assert(self.locked_amounts@.skip(mid.locked_amounts@.len() as int)[0]
                == self.locked_amounts@[mid.locked_amounts@.len() as int]);
            assert forall|m2: Seq<char>| m2 != sender@ implies locked_of(
                self.locked_amounts@,
                m2,
            ) == locked_of(pre.locked_amounts@, m2) by {
                lemma_locked_of_push_other(mid.locked_amounts@, self.locked_amounts@.last(), m2);
            }
            assert forall|a: int, b: int|
                #![trigger self.locked_amounts@[a], self.locked_amounts@[b]]
                0 <= a < b < self.locked_amounts@.len() implies self.locked_amounts@[a].member@
                    != self.locked_amounts@[b].member@ by {
                if b == self.locked_amounts@.len() - 1 {
                    if self.locked_amounts@[a].member@ == sender@ {
                        lemma_locked_entry_some(mid.locked_amounts@, a);
                    }
                }
            }
        }
        self.circle.total_amount_locked = self.circle.total_amount_locked + amount;
        self.circle.updated_at = now;
        self.append_event(String::from_str("join_deposit_locked"), sender.clone(), now);
        proof {
            assert(pre.deposits@.len() == 0) by {
                if pre.deposits@.len() > 0 {
                    assert(1 <= pre.deposits@[0].cycle <= pre.circle.current_cycle_index);
                }
            }
        }
    }
}

/// Appending a ledger entry leaves every other key's lookup unchanged.
pub proof fn lemma_locked_of_push_other(s: Seq<LockedAmount>, e: LockedAmount, m2: Seq<char>)
    requires
        m2 != e.member@,
    ensures
        locked_of(s.push(e), m2) == locked_of(s, m2),
    decreases s.len(),
{
    if s.len() == 0 {
        assert(s.push(e)[0] == e);
        assert(s.push(e).drop_first() =~= Seq::<LockedAmount>::empty());
        assert(locked_of(s.push(e), m2) == locked_of(Seq::<LockedAmount>::empty(), m2));
    } else {
        assert(s.push(e)[0] == s[0]);
        assert(s.push(e).drop_first() =~= s.drop_first().push(e));
        lemma_locked_of_push_other(s.drop_first(), e, m2);
        if s[0].member@ != m2 {
            assert(locked_of(s.push(e), m2) == locked_of(s.drop_first().push(e), m2));
            assert(locked_of(s, m2) == locked_of(s.drop_first(), m2));
        }
    }
}


/// The circle accepts a contribution deposit in this state: Running, by an
/// unblocked member, first deposit of the cycle, with sufficient payment
/// attached — and, in strict mode, not late.
pub open spec fn deposit_allowed(
    s: CircleState,
    now: u64,
    sender: Seq<char>,
    funds: Seq<Coin>,
) -> bool {
    let late = is_late(s.circle, now);
    let required = s.circle.contribution_amount + if late {
        s.circle.late_fee_amount as int
    } else {
        0
    };
    &&& s.circle.circle_status is Running
    &&& has_addr(s.circle.members_list@, sender)
    &&& is_active(s.blocked_members@, sender, s.circle.current_cycle_index)
    &&& !has_dep(s.deposits@, sender, s.circle.current_cycle_index)
    &&& payment_of(funds, s.circle.denomination@) is Some
    &&& (late ==> !s.circle.strict_mode)
    &&& required <= u128::MAX
    &&& payment_of(funds, s.circle.denomination@)->0 >= required
    &&& s.circle.total_amount_locked + s.circle.contribution_amount <= u128::MAX
    &&& (late ==> s.circle.total_penalties_collected + s.circle.late_fee_amount <= u128::MAX)
    &&& s.event_counter < u64::MAX
}

/// The full effect of an accepted deposit.
pub open spec fn deposit_effect(
    pre: CircleState,
    post: CircleState,
    sender: String,
    now: u64,
) -> bool {
    let late = is_late(pre.circle, now);
    let c = pre.circle.current_cycle_index;
    &&& post.deposits@ == pre.deposits@.push(
        DepositRecord {
            member: sender,
            cycle: c,
            amount: pre.circle.contribution_amount,
            timestamp: now,
            on_time: !late,
        },
    )
    &&& post.circle.total_amount_locked == pre.circle.total_amount_locked
        + pre.circle.contribution_amount
    &&& (late ==> {
        &&& post.circle.total_penalties_collected == pre.circle.total_penalties_collected
            + pre.circle.late_fee_amount
        &&& post.penalties@.len() == pre.penalties@.len() + 1
        &&& post.penalties@.subrange(0, pre.penalties@.len() as int) == pre.penalties@
        &&& post.penalties@.last().member@ == sender@
        &&& post.penalties@.last().cycle == c
        &&& post.penalties@.last().amount == pre.circle.late_fee_amount
        &&& post.penalties@.last().reason@ == "Late payment"@
        &&& post.penalties@.last().timestamp == now
        &&& post.circle.members_late_this_cycle@ == pre.circle.members_late_this_cycle@.push(
            sender,
        )
        &&& post.circle.members_paid_this_cycle@ == pre.circle.members_paid_this_cycle@
    })
    &&& (!late ==> {
        &&& post.circle.total_penalties_collected == pre.circle.total_penalties_collected
        &&& post.penalties@ == pre.penalties@
        &&& post.circle.members_paid_this_cycle@ == pre.circle.members_paid_this_cycle@.push(
            sender,
        )
        &&& post.circle.members_late_this_cycle@ == pre.circle.members_late_this_cycle@
    })
    &&& post.circle == (Circle {
        total_amount_locked: post.circle.total_amount_locked,
        total_penalties_collected: post.circle.total_penalties_collected,
        members_paid_this_cycle: post.circle.members_paid_this_cycle,
        members_late_this_cycle: post.circle.members_late_this_cycle,
        updated_at: now,
        ..pre.circle
    })
    &&& post.payouts == pre.payouts
    &&& post.refunds == pre.refunds
    &&& post.locked_amounts == pre.locked_amounts
    &&& post.blocked_members == pre.blocked_members
    &&& post.pseudonyms == pre.pseudonyms
    &&& post.private_members == pre.private_members
    &&& events_appended(pre, post, "contribution_deposited"@, now)
}

impl CircleState {
    /// Records a member's contribution for the current cycle. A late deposit
    /// (after the payout date plus grace period) is rejected outright in
    /// strict mode, and otherwise surcharged the late fee, recorded as a
    /// penalty. A second deposit for the same cycle is always rejected.
    pub fn deposit_contribution(&mut self, now: u64, sender: &String, funds: &Vec<Coin>) -> (res:
        Result<(), ContractError>)
        requires
            old(self).wf(),
        ensures
            final(self).wf(),
            res is Err ==> *final(self) == *old(self),
            res is Ok <==> deposit_allowed(*old(self), now, sender@, funds@),
            !(old(self).circle.circle_status is Running) ==> (res matches Err(e) && e matches
                ContractError::InvalidCircleStatus { expected: _, actual } && actual == old(
                self,
            ).circle.circle_status),
            old(self).circle.circle_status is Running && has_dep(
                old(self).deposits@,
                sender@,
                old(self).circle.current_cycle_index,
            ) ==> (res matches Err(e) && e matches ContractError::AlreadyDeposited {
                address,
                cycle,
            } && address@ == sender@ && cycle == old(self).circle.current_cycle_index),
            old(self).circle.circle_status is Running && has_addr(
                old(self).circle.members_list@,
                sender@,
            ) && is_active(
                old(self).blocked_members@,
                sender@,
                old(self).circle.current_cycle_index,
            ) && !has_dep(old(self).deposits@, sender@, old(self).circle.current_cycle_index)
                && payment_of(funds@, old(self).circle.denomination@) is Some && is_late(
                old(self).circle,
                now,
            ) && old(self).circle.strict_mode ==> (res matches Err(e) && e matches
                ContractError::MemberLate { address } && address@ == sender@),
            res is Ok ==> deposit_effect(*old(self), *final(self), *sender, now),
    {
        if !(matches!(self.circle.circle_status, CircleStatus::Running)) {
            return Err(ContractError::InvalidCircleStatus {
                expected: String::from_str("Running"),
                actual: self.circle.circle_status,
            });
        }
        let c = self.circle.current_cycle_index;
        if has_deposit(&self.deposits, sender, c) {
            return Err(ContractError::AlreadyDeposited { address: sender.clone(), cycle: c });
        }
        if !contains_addr(&self.circle.members_list, sender) {
            return Err(ContractError::Unauthorized {
                msg: String::from_str("Not a member of this circle"),
            });
        }
        match blocked_from(&self.blocked_members, sender) {
            Some(bc) => {
                if bc <= c {
                    return Err(ContractError::InvalidParameters {
                        msg: String::from_str("Member is blocked from this cycle onwards"),
                    });
                }
            },
            None => {},
        }
        let payment = match attached_payment(funds, &self.circle.denomination) {
            Some(p) => p,
            None => {
                return Err(ContractError::InsufficientFunds {
                    required: self.circle.contribution_amount,
                    sent: 0,
                });
            },
        };
        let late = check_late(&self.circle, now);
        if late && self.circle.strict_mode {
            return Err(ContractError::MemberLate { address: sender.clone() });
        }
        let amount_to_pay = if late {
            if self.circle.contribution_amount > u128::MAX - self.circle.late_fee_amount {
                return Err(ContractError::InvalidParameters {
                    msg: String::from_str("Amount overflow"),
                });
            }
            self.circle.contribution_amount + self.circle.late_fee_amount
        } else {
            self.circle.contribution_amount
        };
        if payment < amount_to_pay {
            return Err(ContractError::InsufficientFunds {
                required: amount_to_pay,
                sent: payment,
            });
        }
        if self.circle.total_amount_locked > u128::MAX - self.circle.contribution_amount {
            return Err(ContractError::InvalidParameters {
                msg: String::from_str("Total amount overflow"),
            });
        }
        if late && self.circle.total_penalties_collected > u128::MAX
            - self.circle.late_fee_amount {
            return Err(ContractError::InvalidParameters {
                msg: String::from_str("Penalties overflow"),
            });
        }
        if self.event_counter == u64::MAX {
            return Err(ContractError::InvalidParameters {
                msg: String::from_str("event counter overflow"),
            });
        }
        self.apply_deposit(now, sender, late);
        Ok(())
    }

    /// The committed effect of a validated deposit.
    #[verifier::rlimit(100)]
    fn apply_deposit(&mut self, now: u64, sender: &String, late: bool)
        requires
            old(self).wf(),
            old(self).circle.circle_status is Running,
            has_addr(old(self).circle.members_list@, sender@),
            is_active(old(self).blocked_members@, sender@, old(self).circle.current_cycle_index),
            !has_dep(old(self).deposits@, sender@, old(self).circle.current_cycle_index),
            late == is_late(old(self).circle, now),
            old(self).circle.total_amount_locked + old(self).circle.contribution_amount
                <= u128::MAX,
            late ==> old(self).circle.total_penalties_collected + old(
                self,
            ).circle.late_fee_amount <= u128::MAX,
            old(self).event_counter < u64::MAX,
        ensures
            final(self).wf(),
            deposit_effect(*old(self), *final(self), *sender, now),
    {
        let ghost pre = *self;
        let c = self.circle.current_cycle_index;
        let amount = self.circle.contribution_amount;
        let dep = DepositRecord {
            member: sender.clone(),
            cycle: c,
            amount,
            timestamp: now,
            on_time: !late,
        };
        self.deposits.push(dep);
        self.circle.total_amount_locked = self.circle.total_amount_locked + amount;
        if late {
            self.circle.members_late_this_cycle.push(sender.clone());
            self.circle.total_penalties_collected = self.circle.total_penalties_collected
                + self.circle.late_fee_amount;
            let pen = PenaltyRecord {
                member: sender.clone(),
                cycle: c,
                amount: self.circle.late_fee_amount,
                reason: String::from_str("Late payment"),
                timestamp: now,
            };
            let ghost pens_pre = self.penalties@;
            self.penalties.push(pen);
            proof {
                assert(self.penalties@[self.penalties@.len() - 1].member@ == sender@);
                assert(self.penalties@.subrange(0, pens_pre.len() as int) =~= pens_pre);
            }
        } else {
            self.circle.members_paid_this_cycle.push(sender.clone());
        }
        self.circle.updated_at = now;
        self.append_event(String::from_str("contribution_deposited"), sender.clone(), now);
        proof {
            assert(self.deposits@.drop_last() =~= pre.deposits@);
            assert(self.deposits@.last().cycle == c && c > pre.circle.cycles_completed);
            if !is_active(pre.blocked_members@, sender@, c) {
            }
            assert forall|i: int, j: int|
                #![trigger self.deposits@[i], self.blocked_members@[j]]
                0 <= i < self.deposits@.len() && 0 <= j < self.blocked_members@.len()
                    && self.deposits@[i].member@ == self.blocked_members@[j].member@ implies
                self.deposits@[i].cycle < self.blocked_members@[j].from_cycle by {
                if i == self.deposits@.len() - 1 {
                    let e = self.blocked_members@[j];
                    if e.member@ == sender@ {
                        crate::sums::lemma_blocked_entry_first(pre.blocked_members@, j);
                    }
                } else {
                    assert(pre.deposits@[i].cycle < pre.blocked_members@[j].from_cycle);
                }
            }
            assert forall|i: int, j: int|
                #![trigger self.deposits@[i], self.deposits@[j]]
                0 <= i < j < self.deposits@.len() implies !(self.deposits@[i].member@
                == self.deposits@[j].member@ && self.deposits@[i].cycle
                == self.deposits@[j].cycle) by {
                if j == self.deposits@.len() - 1 {
                    if self.deposits@[i].member@ == sender@ && self.deposits@[i].cycle == c {
                        assert(has_dep(pre.deposits@, sender@, c));
                    }
                }
            }
        }
    }
}

} // verus!
