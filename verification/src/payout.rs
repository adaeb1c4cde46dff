//! The payout rotation engine: per-cycle payout processing with fee
//! extraction and blocked-fund sweeping, and standalone redistribution of
//! blocked members' join deposits.

use vstd::prelude::*;
use vstd::string::StringExecFns;

use crate::auth::creator_or_arbiter;
use crate::error::ContractError;
use crate::events::events_appended;
use crate::fee_of;
use crate::lookup::{blocked_from, contains_addr, has_deposit};
use crate::state::{
    active_count, has_addr, has_dep, is_active, locked_of, sum_locked, BlockedMember, Circle,
    CircleState, CircleStatus, DepositRecord, LockedAmount, PayoutRecord, TransferMsg,
};
use crate::sums::{
    lemma_cycle_deposit_sum, lemma_sum_deps_above_at, lemma_sum_deps_above_zero,
    lemma_sum_deps_above_nonneg, lemma_sum_locked_nonneg, lemma_sum_locked_take_le,
    lemma_sum_locked_take_succ,
};

verus! {

/// Number of members of `ms` active for cycle `c` that hold a deposit for
/// `c`.
pub open spec fn active_dep_count(
    ms: Seq<String>,
    blocked: Seq<BlockedMember>,
    deps: Seq<DepositRecord>,
    c: u32,
) -> int
    decreases ms.len(),
{
    if ms.len() == 0 {
        0
    } else {
        active_dep_count(ms.drop_last(), blocked, deps, c) + if is_active(blocked, ms.last()@, c)
            && has_dep(deps, ms.last()@, c) {
            1int
        } else {
            0
        }
    }
}

/// Sum of the locked join deposits of members blocked for cycle `c` who did
/// not deposit for `c`: the funds swept into the cycle's pot.
pub open spec fn swept_sum(
    locked: Seq<LockedAmount>,
    blocked: Seq<BlockedMember>,
    deps: Seq<DepositRecord>,
    c: u32,
) -> int
    decreases locked.len(),
{
    if locked.len() == 0 {
        0
    } else {
        swept_sum(locked.drop_last(), blocked, deps, c) + if !is_active(
            blocked,
            locked.last().member@,
            c,
        ) && !has_dep(deps, locked.last().member@, c) {
            locked.last().amount as int
        } else {
            0
        }
    }
}

/// After a sweep for cycle `c`: every blocked non-depositor's lock is gone,
/// every other member's lock lookup is unchanged.
pub open spec fn locks_cleared(
    pre_locked: Seq<LockedAmount>,
    post_locked: Seq<LockedAmount>,
    blocked: Seq<BlockedMember>,
    deps: Seq<DepositRecord>,
    c: u32,
) -> bool {
    forall|m: Seq<char>|
        locked_of(post_locked, m) == (if !is_active(blocked, m, c) && !has_dep(deps, m, c) {
            None::<u128>
        } else {
            locked_of(pre_locked, m)
        })
}

/// Every active member of `ms` holds a deposit for cycle `c`.
pub open spec fn all_active_paid(
    ms: Seq<String>,
    blocked: Seq<BlockedMember>,
    deps: Seq<DepositRecord>,
    c: u32,
) -> bool {
    forall|k: int|
        0 <= k < ms.len() && is_active(blocked, (#[trigger] ms[k])@, c) ==> has_dep(
            deps,
            ms[k]@,
            c,
        )
}

proof fn lemma_swept_sum_le(
    locked: Seq<LockedAmount>,
    blocked: Seq<BlockedMember>,
    deps: Seq<DepositRecord>,
    c: u32,
)
    ensures
        0 <= swept_sum(locked, blocked, deps, c) <= sum_locked(locked),
    decreases locked.len(),
{
    if locked.len() > 0 {
        lemma_swept_sum_le(locked.drop_last(), blocked, deps, c);
    }
}

/// The circle can pay out its current cycle in this state.
pub open spec fn payout_allowed(s: CircleState, now: u64, sender: Seq<char>) -> bool {
    let c = s.circle.current_cycle_index;
    let active = active_count(s.circle.members_list@, s.blocked_members@, c);
    let base = s.circle.contribution_amount * active;
    let swept = swept_sum(s.locked_amounts@, s.blocked_members@, s.deposits@, c);
    let gross = base + swept;
    let pf = fee_of(gross, s.circle.platform_fee_percent as int);
    let af = match s.circle.arbiter_fee_percent {
        Some(p) => fee_of(gross, p as int),
        None => 0,
    };
    &&& s.circle.circle_status is Running
    &&& (s.circle.manual_trigger_enabled ==> creator_or_arbiter(s.circle, sender))
    &&& (s.circle.next_payout_date matches Some(d) ==> now >= d)
    // threshold and date-advance overflow guards follow
    &&& ((c == 1 && s.circle.first_distribution_threshold_percent is Some)
        ==> active_dep_count(s.circle.members_list@, s.blocked_members@, s.deposits@, c)
        >= active * (s.circle.first_distribution_threshold_percent->0) / 100)
    &&& all_active_paid(s.circle.members_list@, s.blocked_members@, s.deposits@, c)
    &&& s.circle.payout_order_list is Some
    &&& gross <= u128::MAX
    &&& pf <= u128::MAX
    &&& af <= u128::MAX
    &&& pf <= gross
    &&& af <= gross - pf
    &&& s.circle.total_platform_fees_collected + pf <= u128::MAX
    &&& (c < s.circle.total_cycles ==> (s.circle.next_payout_date matches Some(d) ==> d
        + s.circle.cycle_duration_days * 86400 <= u64::MAX))
    &&& s.event_counter < u64::MAX
}

/// The full effect of a processed payout: the recipient follows the
/// rotation, the net amount is gross minus fees, swept blocked funds leave
/// the ledger, the per-cycle sets clear, and the cycle advances (or the
/// circle completes).
pub open spec fn payout_effect(
    pre: CircleState,
    post: CircleState,
    now: u64,
    transfers: Seq<TransferMsg>,
) -> bool {
    let c = pre.circle.current_cycle_index;
    let active = active_count(pre.circle.members_list@, pre.blocked_members@, c);
    let base = pre.circle.contribution_amount * active;
    let swept = swept_sum(pre.locked_amounts@, pre.blocked_members@, pre.deposits@, c);
    let gross = base + swept;
    let pf = fee_of(gross, pre.circle.platform_fee_percent as int);
    let af = match pre.circle.arbiter_fee_percent {
        Some(p) => fee_of(gross, p as int),
        None => 0,
    };
    let net = gross - pf - af;
    let ord = pre.circle.payout_order_list->0;
    let recipient = ord@[(c - 1) as int % ord@.len() as int];
    &&& post.payouts@.len() == pre.payouts@.len() + 1
    &&& post.payouts@.subrange(0, pre.payouts@.len() as int) == pre.payouts@
    &&& post.payouts@.last().cycle == c
    &&& post.payouts@.last().recipient@ == recipient@
    &&& post.payouts@.last().amount == net
    &&& post.payouts@.last().timestamp == now
    &&& post.circle.cycles_completed == c
    &&& (c == pre.circle.total_cycles ==> post.circle.circle_status is Completed
        && post.circle.current_cycle_index == c)
    &&& (c < pre.circle.total_cycles ==> {
        &&& post.circle.circle_status is Running
        &&& post.circle.current_cycle_index == c + 1
        &&& (pre.circle.next_payout_date matches Some(d) ==> post.circle.next_payout_date
            == Some((d + pre.circle.cycle_duration_days * 86400) as u64))
        &&& (pre.circle.next_payout_date is None ==> post.circle.next_payout_date is None)
    })
    &&& post.circle.total_amount_locked == pre.circle.total_amount_locked - base - swept
    &&& post.circle.total_platform_fees_collected == pre.circle.total_platform_fees_collected
        + pf
    &&& post.circle.members_paid_this_cycle@.len() == 0
    &&& post.circle.members_late_this_cycle@.len() == 0
    &&& sum_locked(post.locked_amounts@) == sum_locked(pre.locked_amounts@) - swept
    &&& locks_cleared(pre.locked_amounts@, post.locked_amounts@, pre.blocked_members@,
        pre.deposits@, c)
    &&& post.circle == (Circle {
        total_amount_locked: post.circle.total_amount_locked,
        total_platform_fees_collected: post.circle.total_platform_fees_collected,
        circle_status: post.circle.circle_status,
        current_cycle_index: post.circle.current_cycle_index,
        cycles_completed: post.circle.cycles_completed,
        next_payout_date: post.circle.next_payout_date,
        members_paid_this_cycle: post.circle.members_paid_this_cycle,
        members_late_this_cycle: post.circle.members_late_this_cycle,
        updated_at: now,
        ..pre.circle
    })
    &&& post.deposits == pre.deposits
    &&& post.penalties == pre.penalties
    &&& post.refunds == pre.refunds
    &&& post.blocked_members == pre.blocked_members
    &&& post.pseudonyms == pre.pseudonyms
    &&& post.private_members == pre.private_members
    &&& transfers.len() == 1
    &&& transfers[0].to_address@ == recipient@
    &&& transfers[0].denom@ == pre.circle.denomination@
    &&& transfers[0].amount == net
    &&& events_appended(pre, post, "payout_processed"@, now)
}

/// Removes the locked join deposits of members blocked for cycle `c` with
/// no deposit for `c`, returning the swept total.
#[verifier::loop_isolation(false)]
#[verifier::rlimit(100)]
fn sweep_blocked_locks(
    locked: &mut Vec<LockedAmount>,
    blocked: &Vec<BlockedMember>,
    deps: &Vec<DepositRecord>,
    c: u32,
) -> (swept: u128)
    requires
        sum_locked(old(locked)@) <= u128::MAX,
        forall|a: int, b: int|
            #![trigger old(locked)@[a], old(locked)@[b]]
            0 <= a < b < old(locked)@.len() ==> old(locked)@[a].member@
                != old(locked)@[b].member@,
    ensures
        swept == swept_sum(old(locked)@, blocked@, deps@, c),
        sum_locked(final(locked)@) == sum_locked(old(locked)@) - swept,
        forall|a: int, b: int|
            #![trigger final(locked)@[a], final(locked)@[b]]
            0 <= a < b < final(locked)@.len() ==> final(locked)@[a].member@
                != final(locked)@[b].member@,
        forall|j: int|
            #![trigger final(locked)@[j]]
            0 <= j < final(locked)@.len() ==> exists|k: int|
                0 <= k < old(locked)@.len() && (#[trigger] old(locked)@[k]) == final(locked)@[j],
        locks_cleared(old(locked)@, final(locked)@, blocked@, deps@, c),
{
    let mut kept: Vec<LockedAmount> = Vec::new();
    let mut swept: u128 = 0;
    let mut i: usize = 0;
    proof {
        assert(old(locked)@.take(0) =~= Seq::<LockedAmount>::empty());
    }
    while i < locked.len()
        invariant
            i <= locked@.len(),
            locked@ == old(locked)@,
            swept == swept_sum(locked@.take(i as int), blocked@, deps@, c),
            sum_locked(kept@) + swept == sum_locked(locked@.take(i as int)),
            forall|a: int, b: int|
                #![trigger kept@[a], kept@[b]]
                0 <= a < b < kept@.len() ==> kept@[a].member@ != kept@[b].member@,
            forall|j: int|
                #![trigger kept@[j]]
                0 <= j < kept@.len() ==> exists|k: int|
                    0 <= k < i && (#[trigger] locked@[k]) == kept@[j] && (is_active(
                        blocked@,
                        locked@[k].member@,
                        c,
                    ) || has_dep(deps@, locked@[k].member@, c)),
            forall|k: int|
                #![trigger locked@[k]]
                0 <= k < i && (is_active(blocked@, locked@[k].member@, c) || has_dep(
                    deps@,
                    locked@[k].member@,
                    c,
                )) ==> exists|j: int| 0 <= j < kept@.len() && (#[trigger] kept@[j]) == locked@[k],
        decreases locked@.len() - i,
    {
        let e_blocked = match blocked_from(blocked, &locked[i].member) {
            Some(bc) => bc <= c,
            None => false,
        };
        let e_nodep = !has_deposit(deps, &locked[i].member, c);
        proof {
            lemma_sum_locked_take_succ(locked@, i as int);
            assert(locked@.take(i as int + 1).drop_last() =~= locked@.take(i as int));
            assert(locked@.take(i as int + 1).last() == locked@[i as int]);
            lemma_swept_sum_le(locked@.take(i as int), blocked@, deps@, c);
            lemma_swept_sum_le(locked@.take(i as int + 1), blocked@, deps@, c);
            lemma_sum_locked_nonneg(kept@);
            lemma_sum_locked_take_le(locked@, i as int + 1);
        }
        if e_blocked && e_nodep {
            swept = swept + locked[i].amount;
        } else {
            let e = LockedAmount { member: locked[i].member.clone(), amount: locked[i].amount };
            proof {
                assert forall|a: int|
                    0 <= a < kept@.len() implies (#[trigger] kept@[a]).member@
                    != locked@[i as int].member@ by {
                    let k = choose|k: int|
                        0 <= k < i && (#[trigger] locked@[k]) == kept@[a];
                    assert(locked@[k].member@ != locked@[i as int].member@);
                }
                assert(e == locked@[i as int]);
            }
            let ghost kpre = kept@;
            kept.push(e);
            proof {
                assert(kept@.drop_last() =~= kpre);
                assert forall|k: int|
                    #![trigger locked@[k]]
                    0 <= k < i + 1 && (is_active(blocked@, locked@[k].member@, c) || has_dep(
                        deps@,
                        locked@[k].member@,
                        c,
                    )) implies exists|j: int|
                    0 <= j < kept@.len() && (#[trigger] kept@[j]) == locked@[k] by {
                    if k < i as int {
                        let j = choose|j: int|
                            0 <= j < kpre.len() && (#[trigger] kpre[j]) == locked@[k];
                        assert(kept@[j] == locked@[k]);
                    } else {
                        assert(kept@[kept@.len() - 1] == locked@[k]);
                    }
                }
            }
        }
        i += 1;
    }
    proof {
        assert(locked@.take(locked@.len() as int) =~= locked@);
        assert forall|m: Seq<char>| #![all_triggers] true implies locked_of(kept@, m) == (if !is_active(
            blocked@,
            m,
            c,
        ) && !has_dep(deps@, m, c) {
            None::<u128>
        } else {
            locked_of(locked@, m)
        }) by {
            if locked_of(locked@, m) is Some {
                crate::sums::lemma_locked_of_index(locked@, m);
                let km = choose|j: int|
                    0 <= j < locked@.len() && #[trigger] locked@[j].member@ == m
                        && locked@[j].amount == locked_of(locked@, m)->0;
                if !is_active(blocked@, m, c) && !has_dep(deps@, m, c) {
                    assert forall|j: int|
                        0 <= j < kept@.len() implies (#[trigger] kept@[j]).member@ != m by {
                        let k = choose|k: int|
                            0 <= k < locked@.len() && (#[trigger] locked@[k]) == kept@[j] && (
                            is_active(blocked@, locked@[k].member@, c) || has_dep(
                                deps@,
                                locked@[k].member@,
                                c,
                            ));
                        if kept@[j].member@ == m {
                            assert(locked@[k].member@ == m);
                            assert(k == km) by {
                                if k != km {
                                    if k < km {
                                        assert(locked@[k].member@ != locked@[km].member@);
                                    } else {
                                        assert(locked@[km].member@ != locked@[k].member@);
                                    }
                                }
                            }
                        }
                    }
                    crate::sums::lemma_locked_of_skip(kept@, m, kept@.len() as int);
                    assert(kept@.skip(kept@.len() as int) =~= Seq::<LockedAmount>::empty());
                } else {
                    assert(exists|j: int|
                        0 <= j < kept@.len() && (#[trigger] kept@[j]) == locked@[km]);
                    let j = choose|j: int|
                        0 <= j < kept@.len() && (#[trigger] kept@[j]) == locked@[km];
                    crate::sums::lemma_locked_entry_first(kept@, j);
                }
            } else {
                assert forall|j: int|
                    0 <= j < kept@.len() implies (#[trigger] kept@[j]).member@ != m by {
                    if kept@[j].member@ == m {
                        let k = choose|k: int|
                            0 <= k < locked@.len() && (#[trigger] locked@[k]) == kept@[j] && (
                            is_active(blocked@, locked@[k].member@, c) || has_dep(
                                deps@,
                                locked@[k].member@,
                                c,
                            ));
                        crate::sums::lemma_locked_entry_some(locked@, k);
                    }
                }
                crate::sums::lemma_locked_of_skip(kept@, m, kept@.len() as int);
                assert(kept@.skip(kept@.len() as int) =~= Seq::<LockedAmount>::empty());
            }
        }
    }
    *locked = kept;
    swept
}

/// Read-only total of the funds a payout of cycle `c` would sweep.
#[verifier::loop_isolation(false)]
fn swept_total(
    locked: &Vec<LockedAmount>,
    blocked: &Vec<BlockedMember>,
    deps: &Vec<DepositRecord>,
    c: u32,
) -> (swept: u128)
    requires
        sum_locked(locked@) <= u128::MAX,
    ensures
        swept == swept_sum(locked@, blocked@, deps@, c),
{
    let mut swept: u128 = 0;
    let mut i: usize = 0;
    proof {
        assert(locked@.take(0) =~= Seq::<LockedAmount>::empty());
    }
    while i < locked.len()
        invariant
            i <= locked@.len(),
            swept == swept_sum(locked@.take(i as int), blocked@, deps@, c),
        decreases locked@.len() - i,
    {
        let e_blocked = match blocked_from(blocked, &locked[i].member) {
            Some(bc) => bc <= c,
            None => false,
        };
        let e_nodep = !has_deposit(deps, &locked[i].member, c);
        proof {
            assert(locked@.take(i as int + 1).drop_last() =~= locked@.take(i as int));
            assert(locked@.take(i as int + 1).last() == locked@[i as int]);
            lemma_swept_sum_le(locked@.take(i as int), blocked@, deps@, c);
            lemma_swept_sum_le(locked@.take(i as int + 1), blocked@, deps@, c);
            lemma_sum_locked_take_le(locked@, i as int + 1);
        }
        if e_blocked && e_nodep {
            swept = swept + locked[i].amount;
        }
        i += 1;
    }
    proof {
        assert(locked@.take(locked@.len() as int) =~= locked@);
    }
    swept
}

impl CircleState {
    /// Counts the members active for cycle `c`, checks that each has a
    /// deposit for `c`, and counts those that do.
    #[verifier::loop_isolation(false)]
    #[verifier::rlimit(100)]
    fn survey_cycle(&self, c: u32) -> (r: (u32, u32, bool))
        requires
            self.circle.members_list@.len() <= u32::MAX,
        ensures
            r.0 == active_count(self.circle.members_list@, self.blocked_members@, c),
            r.1 == active_dep_count(
                self.circle.members_list@,
                self.blocked_members@,
                self.deposits@,
                c,
            ),
            r.2 == all_active_paid(
                self.circle.members_list@,
                self.blocked_members@,
                self.deposits@,
                c,
            ),
    {
        let ms = &self.circle.members_list;
        let mut active: u32 = 0;
        let mut paid: u32 = 0;
        let mut all_paid: bool = true;
        let mut i: usize = 0;
        proof {
            assert(ms@.take(0) =~= Seq::<String>::empty());
        }
        while i < ms.len()
            invariant
                i <= ms@.len(),
                active == active_count(ms@.take(i as int), self.blocked_members@, c),
                paid == active_dep_count(
                    ms@.take(i as int),
                    self.blocked_members@,
                    self.deposits@,
                    c,
                ),
                all_paid == all_active_paid(
                    ms@.take(i as int),
                    self.blocked_members@,
                    self.deposits@,
                    c,
                ),
                active <= i,
                paid <= i,
            decreases ms@.len() - i,
        {
            let m_active = match blocked_from(&self.blocked_members, &ms[i]) {
                Some(bc) => bc > c,
                None => true,
            };
            let m_dep = has_deposit(&self.deposits, &ms[i], c);
            proof {
                assert(ms@.take(i as int + 1).drop_last() =~= ms@.take(i as int));
                assert(ms@.take(i as int + 1).last() == ms@[i as int]);
                assert(forall|k: int|
                    0 <= k < i ==> ms@.take(i as int + 1)[k] == #[trigger] ms@.take(
                        i as int,
                    )[k]);
            }
            if m_active {
                active = active + 1;
                if m_dep {
                    paid = paid + 1;
                } else {
                    all_paid = false;
                }
            }
            i += 1;
        }
        proof {
            assert(ms@.take(ms@.len() as int) =~= ms@);
        }
        (active, paid, all_paid)
    }

    /// Processes the payout of the current cycle: every active member must
    /// have deposited (with a first-cycle threshold alternative), the
    /// recipient follows the finalized rotation, fees come off the gross,
    /// swept blocked funds join the pot, and the cycle advances.
    #[verifier::rlimit(100)]
    #[verifier::spinoff_prover]
    pub fn process_payout(&mut self, now: u64, sender: &String) -> (res: Result<
        Vec<TransferMsg>,
        ContractError,
    >)
        requires
            old(self).wf(),
        ensures
            final(self).wf(),
            res is Err ==> *final(self) == *old(self),
            res is Ok <==> payout_allowed(*old(self), now, sender@),
            !(old(self).circle.circle_status is Running) ==> (res matches Err(e) && e matches
                ContractError::InvalidCircleStatus { expected: _, actual } && actual == old(
                self,
            ).circle.circle_status),
            old(self).circle.circle_status is Running && old(
                self,
            ).circle.manual_trigger_enabled && !creator_or_arbiter(old(self).circle, sender@)
                ==> (res matches Err(e) && e is Unauthorized),
            old(self).circle.circle_status is Running && (old(
                self,
            ).circle.manual_trigger_enabled ==> creator_or_arbiter(old(self).circle, sender@))
                && (old(self).circle.next_payout_date matches Some(d) && now < d) ==> res
                == Err::<Vec<TransferMsg>, ContractError>(
                ContractError::CycleNotReady { next_date: old(self).circle.next_payout_date->0 },
            ),
            res matches Ok(t) ==> payout_effect(*old(self), *final(self), now, t@),
    {
        if !(matches!(self.circle.circle_status, CircleStatus::Running)) {
            return Err(ContractError::InvalidCircleStatus {
                expected: String::from_str("Running"),
                actual: self.circle.circle_status,
            });
        }
        if self.circle.manual_trigger_enabled {
            if !crate::auth::check_creator_or_arbiter(&self.circle, sender) {
                return Err(ContractError::Unauthorized {
                    msg: String::from_str("Only creator or arbiter can trigger payout"),
                });
            }
        }
        match self.circle.next_payout_date {
            Some(d) => {
                if now < d {
                    return Err(ContractError::CycleNotReady { next_date: d });
                }
            },
            None => {},
        }
        let c = self.circle.current_cycle_index;
        let (active, paid, all_paid) = self.survey_cycle(c);
        if c == 1 {
            match self.circle.first_distribution_threshold_percent {
                Some(t) => {
                    proof {
                        assert(t <= 60);
                        assert((active as u64) * t <= 60 * 0xffff_ffffu64) by (nonlinear_arith)
                            requires
                                active <= u32::MAX,
                                t <= 60,
                        ;
                    }
                    let required = ((active as u64) * t) / 100;
                    if (paid as u64) < required {
                        return Err(ContractError::InvalidParameters {
                            msg: String::from_str("First distribution threshold not met"),
                        });
                    }
                    proof {
                        assert((active as u64) * t == active as int * t as int) by (nonlinear_arith)
                            requires
                                active <= u32::MAX,
                                t <= 60,
                        ;
                    }
                },
                None => {},
            }
        }
        if !all_paid {
            return Err(ContractError::InvalidParameters {
                msg: String::from_str("Not all active members have paid for this cycle"),
            });
        }
        let ord_len: usize = match &self.circle.payout_order_list {
            Some(l) => l.len(),
            None => {
                return Err(ContractError::InvalidParameters {
                    msg: String::from_str("Payout order not set"),
                });
            },
        };
        let base = match self.circle.contribution_amount.checked_mul(active as u128) {
            Some(b) => b,
            None => {
                proof {
                    lemma_swept_sum_le(
                        self.locked_amounts@,
                        self.blocked_members@,
                        self.deposits@,
                        c,
                    );
                }
                return Err(ContractError::InvalidParameters {
                    msg: String::from_str("Payout amount overflow"),
                });
            },
        };
        proof {
            lemma_swept_sum_le(self.locked_amounts@, self.blocked_members@, self.deposits@, c);
            lemma_sum_locked_nonneg(self.locked_amounts@);
            lemma_sum_deps_above_nonneg(self.deposits@, self.circle.cycles_completed);
        }
        let swept = swept_total(&self.locked_amounts, &self.blocked_members, &self.deposits, c);
        let gross = match base.checked_add(swept) {
            Some(g) => g,
            None => {
                return Err(ContractError::InvalidParameters {
                    msg: String::from_str("Payout amount overflow"),
                });
            },
        };
        let pf = match crate::mul_bps(gross, self.circle.platform_fee_percent) {
            Some(f) => f,
            None => {
                return Err(ContractError::InvalidParameters {
                    msg: String::from_str("Platform fee overflow"),
                });
            },
        };
        let af = match self.circle.arbiter_fee_percent {
            Some(p) => match crate::mul_bps(gross, p) {
                Some(f) => f,
                None => {
                    return Err(ContractError::InvalidParameters {
                        msg: String::from_str("Arbiter fee overflow"),
                    });
                },
            },
            None => 0,
        };
        if pf > gross {
            return Err(ContractError::InvalidParameters {
                msg: String::from_str("Payout amount underflow"),
            });
        }
        if af > gross - pf {
            return Err(ContractError::InvalidParameters {
                msg: String::from_str("Payout amount underflow"),
            });
        }
        if self.circle.total_platform_fees_collected > u128::MAX - pf {
            return Err(ContractError::InvalidParameters {
                msg: String::from_str("Platform fees overflow"),
            });
        }
        let advancing = c < self.circle.total_cycles;
        let new_next: Option<u64> = if advancing {
            match self.circle.next_payout_date {
                Some(d) => {
                    let adv = (self.circle.cycle_duration_days as u64) * 86400;
                    if d > u64::MAX - adv {
                        return Err(ContractError::InvalidParameters {
                            msg: String::from_str("Next payout date overflow"),
                        });
                    }
                    Some(d + adv)
                },
                None => None,
            }
        } else {
            None
        };
        if self.event_counter == u64::MAX {
            return Err(ContractError::InvalidParameters {
                msg: String::from_str("event counter overflow"),
            });
        }
        let transfers = self.apply_payout(now, base, swept, gross, pf, af, new_next);
        Ok(transfers)
    }

    /// The committed effect of a validated payout. The arguments carry the
    /// amounts computed and bounds-checked by the caller.
    #[verifier::rlimit(100)]
    #[verifier::spinoff_prover]
    fn apply_payout(
        &mut self,
        now: u64,
        base: u128,
        swept: u128,
        gross: u128,
        pf: u128,
        af: u128,
        new_next: Option<u64>,
    ) -> (transfers: Vec<TransferMsg>)
        requires
            old(self).wf(),
            old(self).circle.circle_status is Running,
            all_active_paid(
                old(self).circle.members_list@,
                old(self).blocked_members@,
                old(self).deposits@,
                old(self).circle.current_cycle_index,
            ),
            old(self).circle.payout_order_list is Some,
            base == old(self).circle.contribution_amount * active_count(
                old(self).circle.members_list@,
                old(self).blocked_members@,
                old(self).circle.current_cycle_index,
            ),
            swept == swept_sum(
                old(self).locked_amounts@,
                old(self).blocked_members@,
                old(self).deposits@,
                old(self).circle.current_cycle_index,
            ),
            gross == base + swept,
            pf == fee_of(gross as int, old(self).circle.platform_fee_percent as int),
            af == (match old(self).circle.arbiter_fee_percent {
                Some(p) => fee_of(gross as int, p as int),
                None => 0,
            }),
            pf <= gross,
            af <= gross - pf,
            old(self).circle.total_platform_fees_collected + pf <= u128::MAX,
            (old(self).circle.current_cycle_index < old(self).circle.total_cycles ==> (match old(
                self,
            ).circle.next_payout_date {
                Some(d) => new_next == Some(
                    (d + old(self).circle.cycle_duration_days * 86400) as u64,
                ),
                None => new_next is None,
            })),
            old(self).event_counter < u64::MAX,
        ensures
            final(self).wf(),
            payout_effect(*old(self), *final(self), now, transfers@),
    {
        let c = self.circle.current_cycle_index;
        let net = gross - pf - af;
        let advancing = c < self.circle.total_cycles;
        let ghost pre = *self;
        proof {
            lemma_cycle_deposit_sum(
                self.deposits@,
                self.circle.members_list@,
                self.blocked_members@,
                c,
                self.circle.contribution_amount,
            );
            lemma_sum_deps_above_at(self.deposits@, (c - 1) as u32);
            lemma_sum_deps_above_zero(self.deposits@, c);
            assert(self.circle.total_amount_locked as int == sum_locked(self.locked_amounts@)
                + base);
        }
        let recipient = match &self.circle.payout_order_list {
            Some(l) => {
                let idx = ((c - 1) as usize) % l.len();
                l[idx].clone()
            },
            None => {
                proof {
                    assert(false);
                }
                String::new()
            },
        };
        let swept2 = sweep_blocked_locks(
            &mut self.locked_amounts,
            &self.blocked_members,
            &self.deposits,
            c,
        );
        proof {
            assert(swept2 == swept);
        }
        self.payouts.push(
            PayoutRecord {
                cycle: c,
                recipient: recipient.clone(),
                amount: net,
                timestamp: now,
                transaction_hash: None,
            },
        );
        proof {
            lemma_sum_locked_nonneg(self.locked_amounts@);
        }
        self.circle.total_amount_locked = self.circle.total_amount_locked - base;
        self.circle.total_amount_locked = self.circle.total_amount_locked - swept;
        self.circle.total_platform_fees_collected = self.circle.total_platform_fees_collected
            + pf;
        self.circle.cycles_completed = c;
        self.circle.members_paid_this_cycle.clear();
        self.circle.members_late_this_cycle.clear();
        if advancing {
            self.circle.current_cycle_index = c + 1;
            self.circle.next_payout_date = new_next;
        } else {
            self.circle.circle_status = CircleStatus::Completed;
        }
        self.circle.updated_at = now;
        self.append_event(String::from_str("payout_processed"), recipient.clone(), now);
        let transfer = TransferMsg {
            to_address: recipient,
            denom: self.circle.denomination.clone(),
            amount: net,
        };
        let mut transfers: Vec<TransferMsg> = Vec::new();
        transfers.push(transfer);
        proof {
            assert(self.payouts@.subrange(0, pre.payouts@.len() as int) =~= pre.payouts@);
            assert forall|i: int|
                0 <= i < self.locked_amounts@.len() implies has_addr(
                self.circle.members_list@,
                (#[trigger] self.locked_amounts@[i]).member@,
            ) by {
                let k = choose|k: int|
                    0 <= k < pre.locked_amounts@.len() && (#[trigger] pre.locked_amounts@[k])
                        == self.locked_amounts@[i];
                assert(has_addr(pre.circle.members_list@, pre.locked_amounts@[k].member@));
            }
            assert forall|j: int|
                0 <= j < self.payouts@.len() implies (#[trigger] self.payouts@[j]).cycle == j
                + 1 by {
                if j < pre.payouts@.len() {
                    assert(self.payouts@[j] == pre.payouts@[j]);
                }
            }
            match &self.circle.payout_order_list {
                Some(ordv) => {
                    assert forall|j: int|
                        0 <= j < self.payouts@.len() implies (
                    #[trigger] self.payouts@[j]).recipient@ == ordv@[j % ordv@.len() as int]@ by {
                        if j < pre.payouts@.len() {
                            assert(self.payouts@[j] == pre.payouts@[j]);
                        } else {
                            assert(j == c - 1);
                        }
                    }
                },
                None => {},
            }
            assert(payout_effect(pre, *self, now, transfers@));
        }
        transfers
    }
}


/// Sum of the locked join deposits of every member blocked by cycle `cy`
/// (whether or not they deposited): the pool a redistribution pays out.
pub open spec fn blocked_locked_total(
    locked: Seq<LockedAmount>,
    blocked: Seq<BlockedMember>,
    cy: u32,
) -> int
    decreases locked.len(),
{
    if locked.len() == 0 {
        0
    } else {
        blocked_locked_total(locked.drop_last(), blocked, cy) + if !is_active(
            blocked,
            locked.last().member@,
            cy,
        ) {
            locked.last().amount as int
        } else {
            0
        }
    }
}

/// The members eligible to receive redistributed funds, in list order:
/// active for `cy` and holding a deposit for `cy`.
pub open spec fn eligible_recipients(
    ms: Seq<String>,
    blocked: Seq<BlockedMember>,
    deps: Seq<DepositRecord>,
    cy: u32,
) -> Seq<String>
    decreases ms.len(),
{
    if ms.len() == 0 {
        Seq::empty()
    } else {
        let rest = eligible_recipients(ms.drop_last(), blocked, deps, cy);
        if is_active(blocked, ms.last()@, cy) && has_dep(deps, ms.last()@, cy) {
            rest.push(ms.last())
        } else {
            rest
        }
    }
}

/// After a redistribution for cycle `cy`: every blocked member's lock is
/// gone, every other member's lock lookup is unchanged.
pub open spec fn locks_cleared_all(
    pre_locked: Seq<LockedAmount>,
    post_locked: Seq<LockedAmount>,
    blocked: Seq<BlockedMember>,
    cy: u32,
) -> bool {
    forall|m: Seq<char>|
        locked_of(post_locked, m) == (if !is_active(blocked, m, cy) {
            None::<u128>
        } else {
            locked_of(pre_locked, m)
        })
}

proof fn lemma_blocked_total_le(
    locked: Seq<LockedAmount>,
    blocked: Seq<BlockedMember>,
    cy: u32,
)
    ensures
        0 <= blocked_locked_total(locked, blocked, cy) <= sum_locked(locked),
    decreases locked.len(),
{
    if locked.len() > 0 {
        lemma_blocked_total_le(locked.drop_last(), blocked, cy);
    }
}

/// The circle accepts a blocked-funds redistribution in this state.
pub open spec fn distribute_allowed(s: CircleState, sender: Seq<char>, cy: u32) -> bool {
    &&& crate::auth::is_creator(s.circle, sender)
    &&& blocked_locked_total(s.locked_amounts@, s.blocked_members@, cy) > 0
    &&& eligible_recipients(s.circle.members_list@, s.blocked_members@, s.deposits@, cy).len()
        > 0
    &&& s.event_counter < u64::MAX
}

/// The full effect of an accepted redistribution: the pool splits evenly
/// across the eligible recipients in list order, the first taking the
/// integer-division remainder; the consumed locks leave the ledger and the
/// escrow total drops by the pool.
pub open spec fn distribute_effect(
    pre: CircleState,
    post: CircleState,
    cy: u32,
    now: u64,
    transfers: Seq<TransferMsg>,
) -> bool {
    let total = blocked_locked_total(pre.locked_amounts@, pre.blocked_members@, cy);
    let elig = eligible_recipients(
        pre.circle.members_list@,
        pre.blocked_members@,
        pre.deposits@,
        cy,
    );
    let n = elig.len() as int;
    let per = total / n;
    let rem = total % n;
    &&& transfers.len() == n
    &&& (forall|i: int|
        0 <= i < n ==> (#[trigger] transfers[i]).to_address@ == elig[i]@ && transfers[i].denom@
            == pre.circle.denomination@)
    &&& transfers[0].amount == per + rem
    &&& (forall|i: int| 1 <= i < n ==> (#[trigger] transfers[i]).amount == per)
    &&& post.circle.total_amount_locked == pre.circle.total_amount_locked - total
    &&& sum_locked(post.locked_amounts@) == sum_locked(pre.locked_amounts@) - total
    &&& locks_cleared_all(pre.locked_amounts@, post.locked_amounts@, pre.blocked_members@, cy)
    &&& post.circle == (Circle {
        total_amount_locked: post.circle.total_amount_locked,
        updated_at: now,
        ..pre.circle
    })
    &&& post.deposits == pre.deposits
    &&& post.penalties == pre.penalties
    &&& post.payouts == pre.payouts
    &&& post.refunds == pre.refunds
    &&& post.blocked_members == pre.blocked_members
    &&& post.pseudonyms == pre.pseudonyms
    &&& post.private_members == pre.private_members
    &&& events_appended(pre, post, "blocked_funds_distributed"@, now)
}

/// Removes the locked join deposits of every member blocked by cycle `cy`,
/// returning the removed total.
#[verifier::loop_isolation(false)]
#[verifier::rlimit(100)]
fn sweep_all_blocked_locks(
    locked: &mut Vec<LockedAmount>,
    blocked: &Vec<BlockedMember>,
    cy: u32,
) -> (total: u128)
    requires
        sum_locked(old(locked)@) <= u128::MAX,
        forall|a: int, b: int|
            #![trigger old(locked)@[a], old(locked)@[b]]
            0 <= a < b < old(locked)@.len() ==> old(locked)@[a].member@
                != old(locked)@[b].member@,
    ensures
        total == blocked_locked_total(old(locked)@, blocked@, cy),
        sum_locked(final(locked)@) == sum_locked(old(locked)@) - total,
        forall|a: int, b: int|
            #![trigger final(locked)@[a], final(locked)@[b]]
            0 <= a < b < final(locked)@.len() ==> final(locked)@[a].member@
                != final(locked)@[b].member@,
        forall|j: int|
            #![trigger final(locked)@[j]]
            0 <= j < final(locked)@.len() ==> exists|k: int|
                0 <= k < old(locked)@.len() && (#[trigger] old(locked)@[k]) == final(locked)@[j],
        locks_cleared_all(old(locked)@, final(locked)@, blocked@, cy),
{
    let mut kept: Vec<LockedAmount> = Vec::new();
    let mut total: u128 = 0;
    let mut i: usize = 0;
    proof {
        assert(locked@.take(0) =~= Seq::<LockedAmount>::empty());
    }
    while i < locked.len()
        invariant
            i <= locked@.len(),
            locked@ == old(locked)@,
            total == blocked_locked_total(locked@.take(i as int), blocked@, cy),
            sum_locked(kept@) + total == sum_locked(locked@.take(i as int)),
            forall|a: int, b: int|
                #![trigger kept@[a], kept@[b]]
                0 <= a < b < kept@.len() ==> kept@[a].member@ != kept@[b].member@,
            forall|j: int|
                #![trigger kept@[j]]
                0 <= j < kept@.len() ==> exists|k: int|
                    0 <= k < i && (#[trigger] locked@[k]) == kept@[j] && is_active(
                        blocked@,
                        locked@[k].member@,
                        cy,
                    ),
            forall|k: int|
                #![trigger locked@[k]]
                0 <= k < i && is_active(blocked@, locked@[k].member@, cy) ==> exists|j: int|
                    0 <= j < kept@.len() && (#[trigger] kept@[j]) == locked@[k],
        decreases locked@.len() - i,
    {
        let e_blocked = match blocked_from(blocked, &locked[i].member) {
            Some(bc) => bc <= cy,
            None => false,
        };
        proof {
            lemma_sum_locked_take_succ(locked@, i as int);
            assert(locked@.take(i as int + 1).drop_last() =~= locked@.take(i as int));
            assert(locked@.take(i as int + 1).last() == locked@[i as int]);
            lemma_blocked_total_le(locked@.take(i as int), blocked@, cy);
            lemma_blocked_total_le(locked@.take(i as int + 1), blocked@, cy);
            lemma_sum_locked_nonneg(kept@);
            lemma_sum_locked_take_le(locked@, i as int + 1);
        }
        if e_blocked {
            total = total + locked[i].amount;
        } else {
            let e = LockedAmount { member: locked[i].member.clone(), amount: locked[i].amount };
            proof {
                assert forall|a: int|
                    0 <= a < kept@.len() implies (#[trigger] kept@[a]).member@
                    != locked@[i as int].member@ by {
                    let k = choose|k: int|
                        0 <= k < i && (#[trigger] locked@[k]) == kept@[a];
                    assert(locked@[k].member@ != locked@[i as int].member@);
                }
                assert(e == locked@[i as int]);
            }
            let ghost kpre = kept@;
            kept.push(e);
            proof {
                assert(kept@.drop_last() =~= kpre);
                assert forall|k: int|
                    #![trigger locked@[k]]
                    0 <= k < i + 1 && is_active(blocked@, locked@[k].member@, cy) implies exists|
                    j: int,
                |
                    0 <= j < kept@.len() && (#[trigger] kept@[j]) == locked@[k] by {
                    if k < i as int {
                        let j = choose|j: int|
                            0 <= j < kpre.len() && (#[trigger] kpre[j]) == locked@[k];
                        assert(kept@[j] == locked@[k]);
                    } else {
                        assert(kept@[kept@.len() - 1] == locked@[k]);
                    }
                }
            }
        }
        i += 1;
    }
    proof {
        assert(locked@.take(locked@.len() as int) =~= locked@);
        assert forall|m: Seq<char>| #![all_triggers] true implies locked_of(kept@, m) == (
        if !is_active(blocked@, m, cy) {
            None::<u128>
        } else {
            locked_of(locked@, m)
        }) by {
            if locked_of(locked@, m) is Some {
                crate::sums::lemma_locked_of_index(locked@, m);
                let km = choose|j: int|
                    0 <= j < locked@.len() && #[trigger] locked@[j].member@ == m
                        && locked@[j].amount == locked_of(locked@, m)->0;
                if !is_active(blocked@, m, cy) {
                    assert forall|j: int|
                        0 <= j < kept@.len() implies (#[trigger] kept@[j]).member@ != m by {
                        let k = choose|k: int|
                            0 <= k < locked@.len() && (#[trigger] locked@[k]) == kept@[j]
                                && is_active(blocked@, locked@[k].member@, cy);
                        if kept@[j].member@ == m {
                            assert(locked@[k].member@ == m);
                            assert(k == km) by {
                                if k != km {
                                    if k < km {
                                        assert(locked@[k].member@ != locked@[km].member@);
                                    } else {
                                        assert(locked@[km].member@ != locked@[k].member@);
                                    }
                                }
                            }
                        }
                    }
                    crate::sums::lemma_locked_of_skip(kept@, m, kept@.len() as int);
                    assert(kept@.skip(kept@.len() as int) =~= Seq::<LockedAmount>::empty());
                } else {
                    assert(exists|j: int|
                        0 <= j < kept@.len() && (#[trigger] kept@[j]) == locked@[km]);
                    let j = choose|j: int|
                        0 <= j < kept@.len() && (#[trigger] kept@[j]) == locked@[km];
                    crate::sums::lemma_locked_entry_first(kept@, j);
                }
            } else {
                assert forall|j: int|
                    0 <= j < kept@.len() implies (#[trigger] kept@[j]).member@ != m by {
                    if kept@[j].member@ == m {
                        let k = choose|k: int|
                            0 <= k < locked@.len() && (#[trigger] locked@[k]) == kept@[j]
                                && is_active(blocked@, locked@[k].member@, cy);
                        crate::sums::lemma_locked_entry_some(locked@, k);
                    }
                }
                crate::sums::lemma_locked_of_skip(kept@, m, kept@.len() as int);
                assert(kept@.skip(kept@.len() as int) =~= Seq::<LockedAmount>::empty());
            }
        }
    }
    *locked = kept;
    total
}

impl CircleState {
    /// Collects the members eligible for a redistribution of cycle `cy`, in
    /// list order.
    #[verifier::loop_isolation(false)]
    fn collect_eligible(&self, cy: u32) -> (r: Vec<String>)
        ensures
            r@ == eligible_recipients(
                self.circle.members_list@,
                self.blocked_members@,
                self.deposits@,
                cy,
            ),
    {
        let ms = &self.circle.members_list;
        let mut r: Vec<String> = Vec::new();
        let mut i: usize = 0;
        proof {
            assert(ms@.take(0) =~= Seq::<String>::empty());
        }
        while i < ms.len()
            invariant
                i <= ms@.len(),
                r@ == eligible_recipients(
                    ms@.take(i as int),
                    self.blocked_members@,
                    self.deposits@,
                    cy,
                ),
            decreases ms@.len() - i,
        {
            let m_active = match blocked_from(&self.blocked_members, &ms[i]) {
                Some(bc) => bc > cy,
                None => true,
            };
            let m_dep = has_deposit(&self.deposits, &ms[i], cy);
            proof {
                assert(ms@.take(i as int + 1).drop_last() =~= ms@.take(i as int));
                assert(ms@.take(i as int + 1).last() == ms@[i as int]);
            }
            if m_active && m_dep {
                r.push(ms[i].clone());
            }
            i += 1;
        }
        proof {
            assert(ms@.take(ms@.len() as int) =~= ms@);
        }
        r
    }

    /// Redistributes the locked join deposits of every member blocked by
    /// `cycle` evenly across the active members who deposited for that
    /// cycle, the first recipient taking the division remainder. The
    /// consumed locks leave the ledger and the escrow total drops with them,
    /// so a lock can never be distributed twice.
    #[verifier::rlimit(100)]
    #[verifier::spinoff_prover]
    pub fn distribute_blocked_funds(&mut self, now: u64, sender: &String, cycle: u32) -> (res:
        Result<Vec<TransferMsg>, ContractError>)
        requires
            old(self).wf(),
        ensures
            final(self).wf(),
            res is Err ==> *final(self) == *old(self),
            res is Ok <==> distribute_allowed(*old(self), sender@, cycle),
            !crate::auth::is_creator(old(self).circle, sender@) ==> (res matches Err(e)
                && e is Unauthorized),
            crate::auth::is_creator(old(self).circle, sender@) && blocked_locked_total(
                old(self).locked_amounts@,
                old(self).blocked_members@,
                cycle,
            ) == 0 ==> (res matches Err(e) && e is InvalidParameters),
            res matches Ok(t) ==> distribute_effect(*old(self), *final(self), cycle, now, t@),
    {
        if !crate::auth::check_creator(&self.circle, sender) {
            return Err(ContractError::Unauthorized {
                msg: String::from_str("Only creator can distribute blocked funds"),
            });
        }
        proof {
            lemma_blocked_total_le(self.locked_amounts@, self.blocked_members@, cycle);
            lemma_sum_locked_nonneg(self.locked_amounts@);
            lemma_sum_deps_above_nonneg(self.deposits@, self.circle.cycles_completed);
        }
        let mut total_probe: u128 = 0;
        let mut i: usize = 0;
        proof {
            assert(self.locked_amounts@.take(0) =~= Seq::<LockedAmount>::empty());
        }
        while i < self.locked_amounts.len()
            invariant
                self.wf(),
                i <= self.locked_amounts@.len(),
                total_probe == blocked_locked_total(
                    self.locked_amounts@.take(i as int),
                    self.blocked_members@,
                    cycle,
                ),
            decreases self.locked_amounts@.len() - i,
        {
            let e_blocked = match blocked_from(&self.blocked_members, &self.locked_amounts[i].member) {
                Some(bc) => bc <= cycle,
                None => false,
            };
            proof {
                assert(self.locked_amounts@.take(i as int + 1).drop_last()
                    =~= self.locked_amounts@.take(i as int));
                assert(self.locked_amounts@.take(i as int + 1).last()
                    == self.locked_amounts@[i as int]);
                lemma_blocked_total_le(
                    self.locked_amounts@.take(i as int + 1),
                    self.blocked_members@,
                    cycle,
                );
                lemma_sum_locked_take_le(self.locked_amounts@, i as int + 1);
                lemma_sum_deps_above_nonneg(self.deposits@, self.circle.cycles_completed);
            }
            if e_blocked {
                total_probe = total_probe + self.locked_amounts[i].amount;
            }
            i += 1;
        }
        proof {
            assert(self.locked_amounts@.take(self.locked_amounts@.len() as int)
                =~= self.locked_amounts@);
        }
        let total = total_probe;
        if total == 0 {
            return Err(ContractError::InvalidParameters {
                msg: String::from_str("No blocked funds to distribute"),
            });
        }
        let recipients = self.collect_eligible(cycle);
        if recipients.len() == 0 {
            return Err(ContractError::InvalidParameters {
                msg: String::from_str("No active members to distribute to"),
            });
        }
        if self.event_counter == u64::MAX {
            return Err(ContractError::InvalidParameters {
                msg: String::from_str("event counter overflow"),
            });
        }
        let transfers = self.apply_distribute(now, cycle, total, recipients);
        Ok(transfers)
    }

    /// The committed effect of a validated redistribution.
    #[verifier::rlimit(100)]
    #[verifier::spinoff_prover]
    fn apply_distribute(
        &mut self,
        now: u64,
        cycle: u32,
        total: u128,
        recipients: Vec<String>,
    ) -> (transfers: Vec<TransferMsg>)
        requires
            old(self).wf(),
            total == blocked_locked_total(
                old(self).locked_amounts@,
                old(self).blocked_members@,
                cycle,
            ),
            total > 0,
            recipients@ == eligible_recipients(
                old(self).circle.members_list@,
                old(self).blocked_members@,
                old(self).deposits@,
                cycle,
            ),
            recipients@.len() > 0,
            old(self).event_counter < u64::MAX,
        ensures
            final(self).wf(),
            distribute_effect(*old(self), *final(self), cycle, now, transfers@),
    {
        let ghost pre = *self;
        proof {
            lemma_blocked_total_le(self.locked_amounts@, self.blocked_members@, cycle);
            lemma_sum_locked_nonneg(self.locked_amounts@);
            lemma_sum_deps_above_nonneg(self.deposits@, self.circle.cycles_completed);
        }
        let removed = sweep_all_blocked_locks(
            &mut self.locked_amounts,
            &self.blocked_members,
            cycle,
        );
        proof {
            assert(removed == total);
            lemma_sum_locked_nonneg(self.locked_amounts@);
            assert forall|i: int|
                0 <= i < self.locked_amounts@.len() implies has_addr(
                self.circle.members_list@,
                (#[trigger] self.locked_amounts@[i]).member@,
            ) by {
                let k = choose|k: int|
                    0 <= k < pre.locked_amounts@.len() && (#[trigger] pre.locked_amounts@[k])
                        == self.locked_amounts@[i];
                assert(has_addr(pre.circle.members_list@, pre.locked_amounts@[k].member@));
            }
        }
        self.circle.total_amount_locked = self.circle.total_amount_locked - total;
        self.circle.updated_at = now;
        self.append_event(
            String::from_str("blocked_funds_distributed"),
            String::from_str("blocked funds distributed"),
            now,
        );
        let n = recipients.len();
        let per = total / (n as u128);
        let rem = total % (n as u128);
        proof {
            assert(per * (n as u128) + rem == total) by (nonlinear_arith)
                requires
                    n >= 1,
                    per == total / (n as u128),
                    rem == total % (n as u128),
            ;
            assert(per + rem <= total) by (nonlinear_arith)
                requires
                    per * (n as u128) + rem == total,
                    n >= 1,
                    per >= 0,
                    rem >= 0,
            ;
        }
        let mut transfers: Vec<TransferMsg> = Vec::new();
        let mut idx: usize = 0;
        while idx < n
            invariant
                idx <= n,
                n == recipients@.len(),
                per == total as int / n as int,
                rem == total as int % n as int,
                per + rem <= total <= u128::MAX,
                transfers@.len() == idx,
                forall|i: int|
                    0 <= i < idx ==> (#[trigger] transfers@[i]).to_address@ == recipients@[i]@
                        && transfers@[i].denom@ == self.circle.denomination@,
                transfers@.len() > 0 ==> transfers@[0].amount == per + rem,
                forall|i: int| 1 <= i < idx ==> (#[trigger] transfers@[i]).amount == per,
            decreases n - idx,
        {
            let amount = if idx == 0 {
                per + rem
            } else {
                per
            };
            transfers.push(
                TransferMsg {
                    to_address: recipients[idx].clone(),
                    denom: self.circle.denomination.clone(),
                    amount,
                },
            );
            idx += 1;
        }
        transfers
    }
}

} // verus!
