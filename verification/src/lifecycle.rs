//! Status transitions driven by the creator or arbiter: pause, unpause,
//! emergency stop, and cancellation.

use vstd::prelude::*;
use vstd::string::StringExecFns;

use crate::auth::{check_creator_or_arbiter, creator_or_arbiter, is_arbiter};
use crate::error::ContractError;
use crate::events::{events_appended, ledgers_unchanged};
use crate::state::{Circle, CircleState, CircleStatus};

verus! {

impl CircleState {
    /// Running -> Paused, by the creator or arbiter.
    pub fn pause_circle(&mut self, now: u64, sender: &String) -> (res: Result<
        (),
        ContractError,
    >)
        requires
            old(self).wf(),
        ensures
            final(self).wf(),
            res is Err ==> *final(self) == *old(self),
            res is Ok <==> {
                &&& creator_or_arbiter(old(self).circle, sender@)
                &&& old(self).circle.circle_status is Running
                &&& old(self).event_counter < u64::MAX
            },
            !creator_or_arbiter(old(self).circle, sender@) ==> (res matches Err(e)
                && e is Unauthorized),
            creator_or_arbiter(old(self).circle, sender@) && !(old(self).circle.circle_status
                is Running) ==> (res matches Err(e) && e matches
                ContractError::InvalidCircleStatus { expected: _, actual } && actual == old(
                self,
            ).circle.circle_status),
            res is Ok ==> final(self).circle == (Circle {
                circle_status: CircleStatus::Paused,
                updated_at: now,
                ..old(self).circle
            }),
            res is Ok ==> ledgers_unchanged(*old(self), *final(self)),
            res is Ok ==> events_appended(*old(self), *final(self), "circle_paused"@, now),
    {
        if !check_creator_or_arbiter(&self.circle, sender) {
            return Err(ContractError::Unauthorized {
                msg: String::from_str("Only creator or arbiter can pause circle"),
            });
        }
        if !(matches!(self.circle.circle_status, CircleStatus::Running)) {
            return Err(ContractError::InvalidCircleStatus {
                expected: String::from_str("Running"),
                actual: self.circle.circle_status,
            });
        }
        if self.event_counter == u64::MAX {
            return Err(ContractError::InvalidParameters {
                msg: String::from_str("event counter overflow"),
            });
        }
        self.circle.circle_status = CircleStatus::Paused;
        self.circle.updated_at = now;
        self.append_event(
            String::from_str("circle_paused"),
            String::from_str("circle paused"),
            now,
        );
        Ok(())
    }

    /// Paused -> Running, by the creator or arbiter.
    pub fn unpause_circle(&mut self, now: u64, sender: &String) -> (res: Result<
        (),
        ContractError,
    >)
        requires
            old(self).wf(),
        ensures
            final(self).wf(),
            res is Err ==> *final(self) == *old(self),
            res is Ok <==> {
                &&& creator_or_arbiter(old(self).circle, sender@)
                &&& old(self).circle.circle_status is Paused
                &&& old(self).event_counter < u64::MAX
            },
            !creator_or_arbiter(old(self).circle, sender@) ==> (res matches Err(e)
                && e is Unauthorized),
            creator_or_arbiter(old(self).circle, sender@) && !(old(self).circle.circle_status
                is Paused) ==> (res matches Err(e) && e matches
                ContractError::InvalidCircleStatus { expected: _, actual } && actual == old(
                self,
            ).circle.circle_status),
            res is Ok ==> final(self).circle == (Circle {
                circle_status: CircleStatus::Running,
                updated_at: now,
                ..old(self).circle
            }),
            res is Ok ==> ledgers_unchanged(*old(self), *final(self)),
            res is Ok ==> events_appended(*old(self), *final(self), "circle_unpaused"@, now),
    {
        if !check_creator_or_arbiter(&self.circle, sender) {
            return Err(ContractError::Unauthorized {
                msg: String::from_str("Only creator or arbiter can unpause circle"),
            });
        }
        if !(matches!(self.circle.circle_status, CircleStatus::Paused)) {
            return Err(ContractError::InvalidCircleStatus {
                expected: String::from_str("Paused"),
                actual: self.circle.circle_status,
            });
        }
        if self.event_counter == u64::MAX {
            return Err(ContractError::InvalidParameters {
                msg: String::from_str("event counter overflow"),
            });
        }
        self.circle.circle_status = CircleStatus::Running;
        self.circle.updated_at = now;
        self.append_event(
            String::from_str("circle_unpaused"),
            String::from_str("circle unpaused"),
            now,
        );
        Ok(())
    }

    /// Running -> Paused with the trigger flag set, by the arbiter, where the
    /// circle enabled the emergency stop.
    pub fn emergency_stop(&mut self, now: u64, sender: &String) -> (res: Result<
        (),
        ContractError,
    >)
        requires
            old(self).wf(),
        ensures
            final(self).wf(),
            res is Err ==> *final(self) == *old(self),
            res is Ok <==> {
                &&& old(self).circle.emergency_stop_enabled
                &&& is_arbiter(old(self).circle, sender@)
                &&& old(self).circle.circle_status is Running
                &&& old(self).event_counter < u64::MAX
            },
            !old(self).circle.emergency_stop_enabled ==> (res matches Err(e)
                && e is InvalidParameters),
            old(self).circle.emergency_stop_enabled && !is_arbiter(old(self).circle, sender@)
                ==> res == Err::<(), ContractError>(ContractError::ArbiterOnly {  }),
            old(self).circle.emergency_stop_enabled && is_arbiter(old(self).circle, sender@)
                && !(old(self).circle.circle_status is Running) ==> (res matches Err(e)
                && e matches ContractError::InvalidCircleStatus { expected: _, actual }
                && actual == old(self).circle.circle_status),
            res is Ok ==> final(self).circle == (Circle {
                circle_status: CircleStatus::Paused,
                emergency_stop_triggered: true,
                updated_at: now,
                ..old(self).circle
            }),
            res is Ok ==> ledgers_unchanged(*old(self), *final(self)),
            res is Ok ==> events_appended(*old(self), *final(self), "emergency_stop"@, now),
    {
        if !self.circle.emergency_stop_enabled {
            return Err(ContractError::InvalidParameters {
                msg: String::from_str("Emergency stop not enabled for this circle"),
            });
        }
        let arbiter_ok = match &self.circle.arbiter_address {
            Some(a) => *a == *sender,
            None => false,
        };
        if !arbiter_ok {
            return Err(ContractError::ArbiterOnly {});
        }
        if !(matches!(self.circle.circle_status, CircleStatus::Running)) {
            return Err(ContractError::InvalidCircleStatus {
                expected: String::from_str("Running"),
                actual: self.circle.circle_status,
            });
        }
        if self.event_counter == u64::MAX {
            return Err(ContractError::InvalidParameters {
                msg: String::from_str("event counter overflow"),
            });
        }
        self.circle.emergency_stop_triggered = true;
        self.circle.circle_status = CircleStatus::Paused;
        self.circle.updated_at = now;
        self.append_event(
            String::from_str("emergency_stop"),
            String::from_str("emergency stop triggered"),
            now,
        );
        Ok(())
    }

    /// Any status but Completed -> Cancelled, by the creator or arbiter.
    pub fn cancel_circle(&mut self, now: u64, sender: &String) -> (res: Result<
        (),
        ContractError,
    >)
        requires
            old(self).wf(),
        ensures
            final(self).wf(),
            res is Err ==> *final(self) == *old(self),
            res is Ok <==> {
                &&& creator_or_arbiter(old(self).circle, sender@)
                &&& !(old(self).circle.circle_status is Completed)
                &&& old(self).event_counter < u64::MAX
            },
            !creator_or_arbiter(old(self).circle, sender@) ==> (res matches Err(e)
                && e is Unauthorized),
            creator_or_arbiter(old(self).circle, sender@) && old(self).circle.circle_status
                is Completed ==> (res matches Err(e) && e matches
                ContractError::InvalidCircleStatus { expected: _, actual } && actual == old(
                self,
            ).circle.circle_status),
            res is Ok ==> final(self).circle == (Circle {
                circle_status: CircleStatus::Cancelled,
                updated_at: now,
                ..old(self).circle
            }),
            res is Ok ==> ledgers_unchanged(*old(self), *final(self)),
            res is Ok ==> events_appended(*old(self), *final(self), "circle_cancelled"@, now),
    {
        if !check_creator_or_arbiter(&self.circle, sender) {
            return Err(ContractError::Unauthorized {
                msg: String::from_str("Only creator or arbiter can cancel circle"),
            });
        }
        if matches!(self.circle.circle_status, CircleStatus::Completed) {
            return Err(ContractError::InvalidCircleStatus {
                expected: String::from_str("Not Completed"),
                actual: self.circle.circle_status,
            });
        }
        if self.event_counter == u64::MAX {
            return Err(ContractError::InvalidParameters {
                msg: String::from_str("event counter overflow"),
            });
        }
        self.circle.circle_status = CircleStatus::Cancelled;
        self.circle.updated_at = now;
        self.append_event(
            String::from_str("circle_cancelled"),
            String::from_str("circle cancelled"),
            now,
        );
        Ok(())
    }
}


/// The explicit start transition is accepted in this state.
pub open spec fn start_allowed(s: CircleState, now: u64, sender: Seq<char>) -> bool {
    let start_ts: int = match s.circle.start_date {
        Some(d) => d as int,
        None => now as int,
    };
    &&& crate::auth::is_creator(s.circle, sender)
    &&& (s.circle.circle_status is Open || s.circle.circle_status is Full)
    &&& s.circle.members_list@.len() >= s.circle.min_members_required
    &&& start_ts + s.circle.cycle_duration_days * s.circle.max_members * s.circle.total_cycles
        * 86400 <= u64::MAX
    &&& s.event_counter < u64::MAX - 1
}

/// The full effect of an accepted start: the payout order is finalized, the
/// start, first-cycle and next-payout dates are set to the preset start
/// date (or now), the end date is one full rotation per cycle later, and
/// the circle runs from cycle 1. Two audit entries are appended: the start
/// and the distribution calendar.
pub open spec fn start_effect(pre: CircleState, post: CircleState, now: u64) -> bool {
    let start_ts: u64 = match pre.circle.start_date {
        Some(d) => d,
        None => now,
    };
    let dur = pre.circle.cycle_duration_days * pre.circle.max_members * pre.circle.total_cycles
        * 86400;
    &&& post.circle.circle_status is Running
    &&& post.circle.current_cycle_index == 1
    &&& (match pre.circle.payout_order_list {
        Some(_) => post.circle.payout_order_list == pre.circle.payout_order_list,
        None => match pre.circle.payout_order_type {
            crate::state::PayoutOrderType::RandomOrder => post.circle.payout_order_list
                matches Some(ord) && ord@ == crate::rotation::shuffled(
                pre.circle.members_list@,
                crate::membership::shuffle_seed(now, pre.circle.circle_id),
            ),
            crate::state::PayoutOrderType::PredefinedOrder => post.circle.payout_order_list
                matches Some(ord) && ord@ == pre.circle.members_list@,
        },
    })
    &&& post.circle.start_date == Some(start_ts)
    &&& post.circle.first_cycle_date == Some(start_ts)
    &&& post.circle.next_payout_date == Some(start_ts)
    &&& post.circle.end_date == Some((start_ts + dur) as u64)
    &&& post.circle == (Circle {
        circle_status: post.circle.circle_status,
        current_cycle_index: post.circle.current_cycle_index,
        payout_order_list: post.circle.payout_order_list,
        start_date: post.circle.start_date,
        first_cycle_date: post.circle.first_cycle_date,
        next_payout_date: post.circle.next_payout_date,
        end_date: post.circle.end_date,
        updated_at: now,
        ..pre.circle
    })
    &&& ledgers_unchanged(pre, post)
    &&& post.events@.len() == pre.events@.len() + 2
    &&& post.events@.subrange(0, pre.events@.len() as int) == pre.events@
    &&& post.events@[pre.events@.len() as int].event_type@ == "circle_started"@
    &&& post.events@[pre.events@.len() as int + 1].event_type@ == "distribution_calendar"@
    &&& post.events@[pre.events@.len() as int].timestamp == now
    &&& post.events@[pre.events@.len() as int + 1].timestamp == now
    &&& post.event_counter == pre.event_counter + 2
}

impl CircleState {
    /// Open/Full -> Running, by the creator, once the minimum membership is
    /// met: finalizes the payout rotation, fixes the cycle calendar, and
    /// appends the start and calendar audit entries.
    #[verifier::rlimit(100)]
    pub fn start_circle(&mut self, now: u64, sender: &String) -> (res: Result<
        (),
        ContractError,
    >)
        requires
            old(self).wf(),
        ensures
            final(self).wf(),
            res is Err ==> *final(self) == *old(self),
            res is Ok <==> start_allowed(*old(self), now, sender@),
            !crate::auth::is_creator(old(self).circle, sender@) ==> (res matches Err(e)
                && e is Unauthorized),
            crate::auth::is_creator(old(self).circle, sender@) && !(old(
                self,
            ).circle.circle_status is Open || old(self).circle.circle_status is Full) ==> (res
                matches Err(e) && e matches ContractError::InvalidCircleStatus {
                expected: _,
                actual,
            } && actual == old(self).circle.circle_status),
            crate::auth::is_creator(old(self).circle, sender@) && (old(
                self,
            ).circle.circle_status is Open || old(self).circle.circle_status is Full) && old(
                self,
            ).circle.members_list@.len() < old(self).circle.min_members_required ==> res
                == Err::<(), ContractError>(
                ContractError::MinMembersNotMet {
                    required: old(self).circle.min_members_required,
                    current: old(self).circle.members_list@.len() as u32,
                },
            ),
            res is Ok ==> start_effect(*old(self), *final(self), now),
    {
        if !crate::auth::check_creator(&self.circle, sender) {
            return Err(ContractError::Unauthorized {
                msg: String::from_str("Only creator can start circle"),
            });
        }
        match self.circle.circle_status {
            CircleStatus::Open | CircleStatus::Full => {},
            _ => {
                return Err(ContractError::InvalidCircleStatus {
                    expected: String::from_str("Open or Full"),
                    actual: self.circle.circle_status,
                });
            },
        }
        if self.circle.members_list.len() < self.circle.min_members_required as usize {
            return Err(ContractError::MinMembersNotMet {
                required: self.circle.min_members_required,
                current: self.circle.members_list.len() as u32,
            });
        }
        proof {
            let a = self.circle.cycle_duration_days as int;
            let b = self.circle.max_members as int;
            let cc = self.circle.total_cycles as int;
            assert(a * b <= 0xffff_ffff * 0xffff_ffff) by (nonlinear_arith)
                requires
                    0 <= a <= 0xffff_ffff,
                    0 <= b <= 0xffff_ffff,
            ;
            assert(a * b * cc <= 0xffff_ffff * 0xffff_ffff * 0xffff_ffff) by (nonlinear_arith)
                requires
                    0 <= a * b <= 0xffff_ffff * 0xffff_ffff,
                    0 <= cc <= 0xffff_ffff,
            ;
            assert(a * b * cc * 86400 <= 0xffff_ffff * 0xffff_ffff * 0xffff_ffff * 86400)
                by (nonlinear_arith)
                requires
                    0 <= a * b * cc <= 0xffff_ffff * 0xffff_ffff * 0xffff_ffff,
            ;
        }
        let dur: u128 = (self.circle.cycle_duration_days as u128) * (self.circle.max_members
            as u128) * (self.circle.total_cycles as u128) * 86400;
        let start_ts: u64 = match self.circle.start_date {
            Some(d) => d,
            None => now,
        };
        if dur > u64::MAX as u128 || start_ts > u64::MAX - (dur as u64) {
            return Err(ContractError::InvalidParameters {
                msg: String::from_str("End date overflow"),
            });
        }
        if self.event_counter >= u64::MAX - 1 {
            return Err(ContractError::InvalidParameters {
                msg: String::from_str("event counter overflow"),
            });
        }
        self.apply_start(now, start_ts, dur as u64);
        Ok(())
    }

    /// The committed effect of a validated start.
    #[verifier::rlimit(100)]
    #[verifier::spinoff_prover]
    fn apply_start(&mut self, now: u64, start_ts: u64, dur: u64)
        requires
            old(self).wf(),
            old(self).circle.circle_status is Open || old(self).circle.circle_status is Full,
            old(self).circle.members_list@.len() >= old(self).circle.min_members_required,
            start_ts == (match old(self).circle.start_date {
                Some(d) => d,
                None => now,
            }),
            dur == old(self).circle.cycle_duration_days * old(self).circle.max_members * old(
                self,
            ).circle.total_cycles * 86400,
            start_ts + dur <= u64::MAX,
            old(self).event_counter < u64::MAX - 1,
        ensures
            final(self).wf(),
            start_effect(*old(self), *final(self), now),
    {
        let ghost pre = *self;
        if self.circle.payout_order_list.is_none() {
            let seed = now.wrapping_add(self.circle.circle_id);
            match self.circle.payout_order_type {
                crate::state::PayoutOrderType::RandomOrder => {
                    let ord = crate::rotation::shuffle_addrs(&self.circle.members_list, seed);
                    proof {
                        crate::rotation::lemma_shuffled_upto_len(
                            pre.circle.members_list@,
                            seed,
                            pre.circle.members_list@.len() as int,
                        );
                    }
                    self.circle.payout_order_list = Some(ord);
                },
                crate::state::PayoutOrderType::PredefinedOrder => {
                    let ord = crate::rotation::clone_addrs(&self.circle.members_list);
                    self.circle.payout_order_list = Some(ord);
                },
            }
        }
        self.circle.start_date = Some(start_ts);
        self.circle.first_cycle_date = Some(start_ts);
        self.circle.next_payout_date = Some(start_ts);
        self.circle.end_date = Some(start_ts + dur);
        self.circle.circle_status = CircleStatus::Running;
        self.circle.current_cycle_index = 1;
        self.circle.updated_at = now;
        let ghost mid = *self;
        self.append_event(
            String::from_str("circle_started"),
            String::from_str("circle started"),
            now,
        );
        self.append_event(
            String::from_str("distribution_calendar"),
            String::from_str("distribution calendar computed"),
            now,
        );
        proof {
            assert(pre.deposits@.len() == 0) by {
                if pre.deposits@.len() > 0 {
                    assert(1 <= pre.deposits@[0].cycle <= pre.circle.current_cycle_index);
                }
            }
            assert(pre.payouts@.len() == 0);
            assert(self.events@.subrange(0, pre.events@.len() as int) =~= pre.events@);
        }
    }
}

} // verus!
