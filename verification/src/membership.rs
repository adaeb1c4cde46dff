//! Membership operations: joining, invitations, exit, private-member
//! addition, pseudonyms, and blocking.

use vstd::prelude::*;
use vstd::string::StringExecFns;

use crate::auth::{creator_or_arbiter, is_creator};
use crate::error::ContractError;
use crate::events::{events_appended, ledgers_unchanged};
use crate::lookup::{
    blocked_from, contains_addr, lemma_push_addr_unique, lemma_remove_addr_unique, remove_addr,
};
use crate::rotation::{clone_addrs, shuffle_addrs, shuffled};
use crate::sums::lemma_locked_entry_some;
use crate::state::{
    has_addr, locked_of, Circle, CircleState, CircleStatus, PayoutOrderType, TransferMsg,
    Visibility,
};

verus! {

/// `post` is `pre` with one occurrence of `a` removed.
pub open spec fn removed_one(pre: Seq<String>, post: Seq<String>, a: Seq<char>) -> bool {
    exists|i: int| 0 <= i < pre.len() && #[trigger] pre[i]@ == a && post == pre.remove(i)
}

/// The seed of the payout shuffle: block time plus circle id. The sum wraps
/// at the integer edge, where a plain add could not be computed.
pub open spec fn shuffle_seed(now: u64, circle_id: u64) -> u64 {
    vstd::wrapping::u64_specs::wrapping_add(now, circle_id)
}

/// A join bringing the list to `new_len` members flips the circle straight
/// to Running.
pub open spec fn join_auto_starts(c: Circle, new_len: int) -> bool {
    &&& new_len == c.max_members
    &&& c.auto_start_when_full
    &&& (c.auto_start_type matches Some(t) && t@ == "by_members"@)
    &&& new_len >= c.min_members_required
}

/// The circle accepts a join by `sender` in this state.
pub open spec fn join_allowed(s: CircleState, sender: Seq<char>) -> bool {
    &&& (s.circle.circle_status is Draft || s.circle.circle_status is Open
        || s.circle.circle_status is Full)
    &&& s.circle.members_list@.len() < s.circle.max_members
    &&& !has_addr(s.circle.members_list@, sender)
    &&& ((s.circle.invite_only || s.circle.visibility is Private) ==> has_addr(
        s.circle.pending_members@,
        sender,
    ))
    &&& s.event_counter < u64::MAX
}

/// The full effect of an accepted join.
pub open spec fn join_effect(
    pre: CircleState,
    post: CircleState,
    sender: String,
    now: u64,
) -> bool {
    let members2 = pre.circle.members_list@.push(sender);
    let became_full = members2.len() == pre.circle.max_members as int;
    let auto = join_auto_starts(pre.circle, members2.len() as int);
    let was_pending = has_addr(pre.circle.pending_members@, sender@);
    &&& post.circle.members_list@ == members2
    &&& (was_pending ==> removed_one(
        pre.circle.pending_members@,
        post.circle.pending_members@,
        sender@,
    ))
    &&& (!was_pending ==> post.circle.pending_members@ == pre.circle.pending_members@)
    &&& post.circle.circle_status == (if auto {
        CircleStatus::Running
    } else if became_full {
        CircleStatus::Full
    } else {
        CircleStatus::Open
    })
    &&& post.circle.current_cycle_index == (if auto {
        1u32
    } else {
        0u32
    })
    &&& (if auto {
        match pre.circle.payout_order_list {
            Some(_) => post.circle.payout_order_list == pre.circle.payout_order_list,
            None => match pre.circle.payout_order_type {
                PayoutOrderType::RandomOrder => post.circle.payout_order_list matches Some(ord)
                    && ord@ == shuffled(members2, shuffle_seed(now, pre.circle.circle_id)),
                PayoutOrderType::PredefinedOrder => post.circle.payout_order_list matches Some(
                    ord,
                ) && ord@ == members2,
            },
        }
    } else {
        post.circle.payout_order_list == pre.circle.payout_order_list
    })
    &&& (if auto && pre.circle.start_date is None {
        &&& post.circle.start_date == Some(now)
        &&& post.circle.first_cycle_date == Some(now)
        &&& post.circle.next_payout_date == Some(now)
    } else {
        &&& post.circle.start_date == pre.circle.start_date
        &&& post.circle.first_cycle_date == pre.circle.first_cycle_date
        &&& post.circle.next_payout_date == pre.circle.next_payout_date
    })
    &&& post.circle == (Circle {
        members_list: post.circle.members_list,
        pending_members: post.circle.pending_members,
        circle_status: post.circle.circle_status,
        current_cycle_index: post.circle.current_cycle_index,
        payout_order_list: post.circle.payout_order_list,
        start_date: post.circle.start_date,
        first_cycle_date: post.circle.first_cycle_date,
        next_payout_date: post.circle.next_payout_date,
        updated_at: now,
        ..pre.circle
    })
    &&& ledgers_unchanged(pre, post)
    &&& events_appended(
        pre,
        post,
        if auto {
            "circle_auto_started"@
        } else {
            "member_joined"@
        },
        now,
    )
}

/// An accepted join leaves the state well-formed.
proof fn lemma_join_preserves_wf(pre: CircleState, post: CircleState, sender: String, now: u64)
    requires
        pre.wf(),
        join_allowed(pre, sender@),
        join_effect(pre, post, sender, now),
    ensures
        post.wf(),
{
    let members2 = pre.circle.members_list@.push(sender);
    lemma_push_addr_unique(pre.circle.members_list@, sender);
    assert(pre.deposits@.len() == 0) by {
        if pre.deposits@.len() > 0 {
            assert(1 <= pre.deposits@[0].cycle <= pre.circle.current_cycle_index);
        }
    }
    assert(pre.payouts@.len() == 0);
    let was_pending = has_addr(pre.circle.pending_members@, sender@);
    if was_pending {
        let k = choose|k: int|
            0 <= k < pre.circle.pending_members@.len()
                && #[trigger] pre.circle.pending_members@[k]@ == sender@
                && post.circle.pending_members@ == pre.circle.pending_members@.remove(k);
        lemma_remove_addr_unique(pre.circle.pending_members@, k);
    }
    assert forall|i: int|
        0 <= i < post.circle.pending_members@.len() implies !has_addr(
        post.circle.members_list@,
        (#[trigger] post.circle.pending_members@[i])@,
    ) by {
        let p = post.circle.pending_members@[i]@;
        assert(has_addr(post.circle.pending_members@, p));
        if was_pending {
            let k = choose|k: int|
                0 <= k < pre.circle.pending_members@.len()
                    && #[trigger] pre.circle.pending_members@[k]@ == sender@
                    && post.circle.pending_members@ == pre.circle.pending_members@.remove(k);
            lemma_remove_addr_unique(pre.circle.pending_members@, k);
            assert(p != sender@);
            assert(has_addr(pre.circle.pending_members@, p));
        } else {
            assert(p != sender@);
            assert(has_addr(pre.circle.pending_members@, p));
        }
    }
    let auto = join_auto_starts(pre.circle, members2.len() as int);
    if auto && pre.circle.payout_order_list is None && pre.circle.payout_order_type
        is RandomOrder {
        crate::rotation::lemma_shuffled_upto_len(
            members2,
            shuffle_seed(now, pre.circle.circle_id),
            members2.len() as int,
        );
    }
}

impl CircleState {
    /// A member joins the circle; joining an invite-only or private circle
    /// consumes the caller's pending invitation. Filling the last seat flips
    /// the status to Full, and — when by-members auto-start is configured and
    /// the minimum is met — straight to Running with the payout order
    /// finalized.
    #[verifier::rlimit(100)]
    pub fn join_circle(&mut self, now: u64, sender: &String) -> (res: Result<
        (),
        ContractError,
    >)
        requires
            old(self).wf(),
        ensures
            final(self).wf(),
            res is Err ==> *final(self) == *old(self),
            res is Ok <==> join_allowed(*old(self), sender@),
            res is Ok ==> join_effect(*old(self), *final(self), *sender, now),
            !(old(self).circle.circle_status is Draft || old(self).circle.circle_status is Open
                || old(self).circle.circle_status is Full) ==> (res matches Err(e) && e matches
                ContractError::InvalidCircleStatus { expected: _, actual } && actual == old(
                self,
            ).circle.circle_status),
            (old(self).circle.circle_status is Draft || old(self).circle.circle_status is Open
                || old(self).circle.circle_status is Full) && old(
                self,
            ).circle.members_list@.len() >= old(self).circle.max_members ==> res == Err::<
                (),
                ContractError,
            >(ContractError::CircleFull { max: old(self).circle.max_members }),
            (old(self).circle.circle_status is Draft || old(self).circle.circle_status is Open
                || old(self).circle.circle_status is Full) && old(
                self,
            ).circle.members_list@.len() < old(self).circle.max_members && has_addr(
                old(self).circle.members_list@,
                sender@,
            ) ==> (res matches Err(e) && e matches ContractError::AlreadyMember { address }
                && address@ == sender@),
            (old(self).circle.circle_status is Draft || old(self).circle.circle_status is Open
                || old(self).circle.circle_status is Full) && old(
                self,
            ).circle.members_list@.len() < old(self).circle.max_members && !has_addr(
                old(self).circle.members_list@,
                sender@,
            ) && (old(self).circle.invite_only || old(self).circle.visibility is Private)
                && !has_addr(old(self).circle.pending_members@, sender@) ==> res == Err::<
                (),
                ContractError,
            >(ContractError::InviteOnly { circle_id: old(self).circle.circle_id }),
    {
        match self.circle.circle_status {
            CircleStatus::Draft => {},
            CircleStatus::Open => {},
            CircleStatus::Full => {},
            _ => {
                return Err(ContractError::InvalidCircleStatus {
                    expected: String::from_str("Draft or Open"),
                    actual: self.circle.circle_status,
                });
            },
        }
        if self.circle.members_list.len() >= self.circle.max_members as usize {
            return Err(ContractError::CircleFull { max: self.circle.max_members });
        }
        if contains_addr(&self.circle.members_list, sender) {
            return Err(ContractError::AlreadyMember { address: sender.clone() });
        }
        let was_pending = contains_addr(&self.circle.pending_members, sender);
        let gated = self.circle.invite_only || matches!(
            self.circle.visibility,
            Visibility::Private,
        );
        if gated && !was_pending {
            return Err(ContractError::InviteOnly { circle_id: self.circle.circle_id });
        }
        if self.event_counter == u64::MAX {
            return Err(ContractError::InvalidParameters {
                msg: String::from_str("event counter overflow"),
            });
        }
        self.apply_join(now, sender, was_pending);
        Ok(())
    }

    /// Finalizes the payout order (if not fixed at creation) and the start
    /// dates (if not fixed at creation), for the transition into Running.
    #[verifier::rlimit(100)]
    pub(crate) fn finalize_order_and_dates(&mut self, now: u64)
        requires
            1 <= old(self).circle.members_list@.len() <= u32::MAX,
        ensures
            final(self).circle == (Circle {
                payout_order_list: final(self).circle.payout_order_list,
                start_date: final(self).circle.start_date,
                first_cycle_date: final(self).circle.first_cycle_date,
                next_payout_date: final(self).circle.next_payout_date,
                ..old(self).circle
            }),
            match old(self).circle.payout_order_list {
                Some(_) => final(self).circle.payout_order_list == old(
                    self,
                ).circle.payout_order_list,
                None => match old(self).circle.payout_order_type {
                    PayoutOrderType::RandomOrder => final(self).circle.payout_order_list
                        matches Some(ord) && ord@ == shuffled(
                        old(self).circle.members_list@,
                        shuffle_seed(now, old(self).circle.circle_id),
                    ),
                    PayoutOrderType::PredefinedOrder => final(self).circle.payout_order_list
                        matches Some(ord) && ord@ == old(self).circle.members_list@,
                },
            },
            if old(self).circle.start_date is None {
                &&& final(self).circle.start_date == Some(now)
                &&& final(self).circle.first_cycle_date == Some(now)
                &&& final(self).circle.next_payout_date == Some(now)
            } else {
                &&& final(self).circle.start_date == old(self).circle.start_date
                &&& final(self).circle.first_cycle_date == old(self).circle.first_cycle_date
                &&& final(self).circle.next_payout_date == old(self).circle.next_payout_date
            },
            old(self).circle.order_ok() ==> (final(self).circle.payout_order_list matches Some(
                l,
            ) && l@.len() >= 1),
            *final(self) == (CircleState { circle: final(self).circle, ..*old(self) }),
    {
        if self.circle.payout_order_list.is_none() {
            let seed = now.wrapping_add(self.circle.circle_id);
            match self.circle.payout_order_type {
                PayoutOrderType::RandomOrder => {
                    let ord = shuffle_addrs(&self.circle.members_list, seed);
                    proof {
                        crate::rotation::lemma_shuffled_upto_len(
                            old(self).circle.members_list@,
                            seed,
                            old(self).circle.members_list@.len() as int,
                        );
                    }
                    self.circle.payout_order_list = Some(ord);
                },
                PayoutOrderType::PredefinedOrder => {
                    let ord = clone_addrs(&self.circle.members_list);
                    self.circle.payout_order_list = Some(ord);
                },
            }
        }
        if self.circle.start_date.is_none() {
            self.circle.start_date = Some(now);
            self.circle.first_cycle_date = Some(now);
            self.circle.next_payout_date = Some(now);
        }
    }

    /// Consumes the pending entry (when present) and appends the joiner to
    /// the member list.
    pub(crate) fn join_roster(&mut self, now: u64, sender: &String, was_pending: bool)
        requires
            was_pending == has_addr(old(self).circle.pending_members@, sender@),
        ensures
            final(self).circle.members_list@ == old(self).circle.members_list@.push(*sender),
            was_pending ==> removed_one(
                old(self).circle.pending_members@,
                final(self).circle.pending_members@,
                sender@,
            ),
            !was_pending ==> final(self).circle.pending_members@ == old(
                self,
            ).circle.pending_members@,
            final(self).circle == (Circle {
                members_list: final(self).circle.members_list,
                pending_members: final(self).circle.pending_members,
                updated_at: now,
                ..old(self).circle
            }),
            *final(self) == (CircleState { circle: final(self).circle, ..*old(self) }),
    {
        if was_pending {
            remove_addr(&mut self.circle.pending_members, sender);
        }
        self.circle.members_list.push(sender.clone());
        self.circle.updated_at = now;
    }

    /// The committed effect of a validated join.
    #[verifier::rlimit(100)]
    #[verifier::spinoff_prover]
    fn apply_join(&mut self, now: u64, sender: &String, was_pending: bool)
        requires
            old(self).wf(),
            join_allowed(*old(self), sender@),
            was_pending == has_addr(old(self).circle.pending_members@, sender@),
        ensures
            final(self).wf(),
            join_effect(*old(self), *final(self), *sender, now),
    {
        let ghost pre = *self;
        self.join_roster(now, sender, was_pending);
        let new_len = self.circle.members_list.len();
        let mut auto = false;
        if new_len >= self.circle.max_members as usize {
            self.circle.circle_status = CircleStatus::Full;
            if self.circle.auto_start_when_full {
                let is_by_members = match &self.circle.auto_start_type {
                    Some(t) => *t == String::from_str("by_members"),
                    None => false,
                };
                if is_by_members && new_len >= self.circle.min_members_required as usize {
                    auto = true;
                }
            }
        } else {
            self.circle.circle_status = CircleStatus::Open;
        }
        if auto {
            self.finalize_order_and_dates(now);
            self.circle.circle_status = CircleStatus::Running;
            self.circle.current_cycle_index = 1;
        }
        let et = if auto {
            String::from_str("circle_auto_started")
        } else {
            String::from_str("member_joined")
        };
        self.append_event(et, sender.clone(), now);
        proof {
            assert(join_effect(pre, *self, *sender, now));
            lemma_join_preserves_wf(pre, *self, *sender, now);
        }
    }

    /// Accepting an invitation is a join that consumes the pending entry.
    pub fn accept_invite(&mut self, now: u64, sender: &String) -> (res: Result<
        (),
        ContractError,
    >)
        requires
            old(self).wf(),
        ensures
            final(self).wf(),
            res is Err ==> *final(self) == *old(self),
            res is Ok <==> join_allowed(*old(self), sender@),
            res is Ok ==> join_effect(*old(self), *final(self), *sender, now),
    {
        self.join_circle(now, sender)
    }
}


/// The status after an exit leaves `new_len` members, applied in order:
/// reopen a no-longer-full circle, cancel an undersubscribed one when
/// auto-refund is set, and fall back to Draft when only the creator remains.
pub open spec fn exit_status_after(st: CircleStatus, new_len: int, c: Circle) -> CircleStatus {
    let st1 = if new_len < c.max_members && st is Full {
        CircleStatus::Open
    } else {
        st
    };
    let st2 = if new_len < c.min_members_required && c.auto_refund_if_min_not_met {
        CircleStatus::Cancelled
    } else {
        st1
    };
    if new_len == 1 && st2 is Open {
        CircleStatus::Draft
    } else {
        st2
    }
}

/// The circle accepts an exit by `sender` in this state.
pub open spec fn exit_allowed(s: CircleState, sender: Seq<char>) -> bool {
    &&& s.circle.member_exit_allowed_before_start
    &&& !(s.circle.circle_status is Running || s.circle.circle_status is Paused
        || s.circle.circle_status is Completed)
    &&& has_addr(s.circle.members_list@, sender)
    &&& s.event_counter < u64::MAX
}

/// The full effect of an accepted exit: the member leaves, their join
/// deposit (if any) leaves escrow and is refunded, and the status cascades.
pub open spec fn exit_effect(
    pre: CircleState,
    post: CircleState,
    sender: String,
    now: u64,
    transfers: Seq<TransferMsg>,
) -> bool {
    let locked = locked_of(pre.locked_amounts@, sender@);
    let new_len = pre.circle.members_list@.len() - 1;
    &&& removed_one(pre.circle.members_list@, post.circle.members_list@, sender@)
    &&& post.circle.circle_status == exit_status_after(
        pre.circle.circle_status,
        new_len,
        pre.circle,
    )
    &&& (match locked {
        Some(amt) => {
            &&& post.circle.total_amount_locked == pre.circle.total_amount_locked - amt
            &&& locked_of(post.locked_amounts@, sender@) is None
            &&& (forall|m2: Seq<char>|
                m2 != sender@ ==> locked_of(post.locked_amounts@, m2) == locked_of(
                    pre.locked_amounts@,
                    m2,
                ))
            &&& crate::state::sum_locked(post.locked_amounts@) == crate::state::sum_locked(
                pre.locked_amounts@,
            ) - amt
            &&& (forall|a: int, b: int|
                #![trigger post.locked_amounts@[a], post.locked_amounts@[b]]
                0 <= a < b < post.locked_amounts@.len() ==> post.locked_amounts@[a].member@
                    != post.locked_amounts@[b].member@)
            &&& (forall|j: int|
                #![trigger post.locked_amounts@[j]]
                0 <= j < post.locked_amounts@.len() ==> exists|k: int|
                    0 <= k < pre.locked_amounts@.len() && (#[trigger] pre.locked_amounts@[k])
                        == post.locked_amounts@[j] && pre.locked_amounts@[k].member@ != sender@)
            &&& transfers.len() == 1
            &&& transfers[0].to_address@ == sender@
            &&& transfers[0].denom@ == pre.circle.denomination@
            &&& transfers[0].amount == amt
        },
        None => {
            &&& post.circle.total_amount_locked == pre.circle.total_amount_locked
            &&& post.locked_amounts@ == pre.locked_amounts@
            &&& transfers.len() == 0
        },
    })
    &&& post.circle == (Circle {
        members_list: post.circle.members_list,
        circle_status: post.circle.circle_status,
        total_amount_locked: post.circle.total_amount_locked,
        updated_at: now,
        ..pre.circle
    })
    &&& post.deposits == pre.deposits
    &&& post.penalties == pre.penalties
    &&& post.payouts == pre.payouts
    &&& post.refunds == pre.refunds
    &&& post.blocked_members == pre.blocked_members
    &&& post.pseudonyms == pre.pseudonyms
    &&& post.private_members == pre.private_members
    &&& events_appended(pre, post, "member_exited"@, now)
}

impl CircleState {
    /// Invites a member to an invite-only circle (creator or arbiter only).
    pub fn invite_member(&mut self, now: u64, sender: &String, member_address: &String) -> (res:
        Result<(), ContractError>)
        requires
            old(self).wf(),
        ensures
            final(self).wf(),
            res is Err ==> *final(self) == *old(self),
            res is Ok <==> {
                &&& creator_or_arbiter(old(self).circle, sender@)
                &&& old(self).circle.invite_only
                &&& !has_addr(old(self).circle.members_list@, member_address@)
                &&& !has_addr(old(self).circle.pending_members@, member_address@)
                &&& old(self).event_counter < u64::MAX
            },
            !creator_or_arbiter(old(self).circle, sender@) ==> (res matches Err(e)
                && e is Unauthorized),
            creator_or_arbiter(old(self).circle, sender@) && !old(self).circle.invite_only ==> (
            res matches Err(e) && e is InvalidParameters),
            creator_or_arbiter(old(self).circle, sender@) && old(self).circle.invite_only
                && has_addr(old(self).circle.members_list@, member_address@) ==> (res matches Err(
                e,
            ) && e matches ContractError::AlreadyMember { address } && address@
                == member_address@),
            res is Ok ==> {
                &&& final(self).circle.pending_members@ == old(
                    self,
                ).circle.pending_members@.push(*member_address)
                &&& final(self).circle == (Circle {
                    pending_members: final(self).circle.pending_members,
                    updated_at: now,
                    ..old(self).circle
                })
                &&& ledgers_unchanged(*old(self), *final(self))
                &&& events_appended(*old(self), *final(self), "member_invited"@, now)
            },
    {
        if !crate::auth::check_creator_or_arbiter(&self.circle, sender) {
            return Err(ContractError::Unauthorized {
                msg: String::from_str("Only creator or arbiter can invite members"),
            });
        }
        if !self.circle.invite_only {
            return Err(ContractError::InvalidParameters {
                msg: String::from_str("Circle is not invite-only"),
            });
        }
        if contains_addr(&self.circle.members_list, member_address) {
            return Err(ContractError::AlreadyMember { address: member_address.clone() });
        }
        if contains_addr(&self.circle.pending_members, member_address) {
            return Err(ContractError::InvalidParameters {
                msg: String::from_str("Member already invited"),
            });
        }
        if self.event_counter == u64::MAX {
            return Err(ContractError::InvalidParameters {
                msg: String::from_str("event counter overflow"),
            });
        }
        let ghost pre = *self;
        self.circle.pending_members.push(member_address.clone());
        proof {
            lemma_push_addr_unique(pre.circle.pending_members@, *member_address);
        }
        self.circle.updated_at = now;
        self.append_event(String::from_str("member_invited"), member_address.clone(), now);
        Ok(())
    }

    /// A member exits before the circle starts; their join deposit, if one
    /// is locked, is refunded and leaves escrow.
    #[verifier::rlimit(100)]
    #[verifier::spinoff_prover]
    pub fn exit_circle(&mut self, now: u64, sender: &String) -> (res: Result<
        Vec<TransferMsg>,
        ContractError,
    >)
        requires
            old(self).wf(),
        ensures
            final(self).wf(),
            res is Err ==> *final(self) == *old(self),
            res is Ok <==> exit_allowed(*old(self), sender@),
            !old(self).circle.member_exit_allowed_before_start ==> res == Err::<
                Vec<TransferMsg>,
                ContractError,
            >(ContractError::ExitNotAllowed { circle_id: old(self).circle.circle_id }),
            (old(self).circle.circle_status is Running || old(self).circle.circle_status
                is Paused || old(self).circle.circle_status is Completed) ==> res == Err::<
                Vec<TransferMsg>,
                ContractError,
            >(ContractError::ExitNotAllowed { circle_id: old(self).circle.circle_id }),
            old(self).circle.member_exit_allowed_before_start && !(old(
                self,
            ).circle.circle_status is Running || old(self).circle.circle_status is Paused || old(
                self,
            ).circle.circle_status is Completed) && !has_addr(
                old(self).circle.members_list@,
                sender@,
            ) ==> (res matches Err(e) && e is Unauthorized),
            res matches Ok(t) ==> exit_effect(*old(self), *final(self), *sender, now, t@),
    {
        if !self.circle.member_exit_allowed_before_start {
            return Err(ContractError::ExitNotAllowed { circle_id: self.circle.circle_id });
        }
        match self.circle.circle_status {
            CircleStatus::Running | CircleStatus::Paused | CircleStatus::Completed => {
                return Err(ContractError::ExitNotAllowed { circle_id: self.circle.circle_id });
            },
            _ => {},
        }
        if !contains_addr(&self.circle.members_list, sender) {
            return Err(ContractError::Unauthorized {
                msg: String::from_str("Not a member of this circle"),
            });
        }
        if self.event_counter == u64::MAX {
            return Err(ContractError::InvalidParameters {
                msg: String::from_str("event counter overflow"),
            });
        }
        let transfers = self.apply_exit(now, sender);
        Ok(transfers)
    }

    /// Releases the caller's locked join deposit, if any: the entry leaves
    /// the ledger, the escrow total drops by its amount, and one refund
    /// transfer is emitted.
    #[verifier::rlimit(100)]
    fn refund_lock(&mut self, sender: &String) -> (transfers: Vec<TransferMsg>)
        requires
            old(self).wf(),
        ensures
            final(self).circle == (Circle {
                total_amount_locked: final(self).circle.total_amount_locked,
                ..old(self).circle
            }),
            *final(self) == (CircleState {
                circle: final(self).circle,
                locked_amounts: final(self).locked_amounts,
                ..*old(self)
            }),
            final(self).wf(),
            match locked_of(old(self).locked_amounts@, sender@) {
                Some(amt) => {
                    &&& final(self).circle.total_amount_locked == old(
                        self,
                    ).circle.total_amount_locked - amt
                    &&& locked_of(final(self).locked_amounts@, sender@) is None
                    &&& (forall|m2: Seq<char>|
                        m2 != sender@ ==> locked_of(final(self).locked_amounts@, m2)
                            == locked_of(old(self).locked_amounts@, m2))
                    &&& crate::state::sum_locked(final(self).locked_amounts@)
                        == crate::state::sum_locked(old(self).locked_amounts@) - amt
                    &&& (forall|j: int|
                        #![trigger final(self).locked_amounts@[j]]
                        0 <= j < final(self).locked_amounts@.len() ==> exists|k: int|
                            0 <= k < old(self).locked_amounts@.len()
                                && (#[trigger] old(self).locked_amounts@[k])
                                == final(self).locked_amounts@[j]
                                && old(self).locked_amounts@[k].member@ != sender@)
                    &&& transfers@.len() == 1
                    &&& transfers@[0].to_address@ == sender@
                    &&& transfers@[0].denom@ == old(self).circle.denomination@
                    &&& transfers@[0].amount == amt
                },
                None => {
                    &&& final(self).circle == old(self).circle
                    &&& final(self).locked_amounts@ == old(self).locked_amounts@
                    &&& transfers@.len() == 0
                },
            },
    {
        let ghost pre = *self;
        let mut transfers: Vec<TransferMsg> = Vec::new();
        let removed = crate::lookup::remove_locked(&mut self.locked_amounts, sender);
        match removed {
            Some(amt) => {
                proof {
                    crate::sums::lemma_sum_locked_nonneg(self.locked_amounts@);
                    crate::sums::lemma_sum_deps_above_nonneg(
                        pre.deposits@,
                        pre.circle.cycles_completed,
                    );
                }
                self.circle.total_amount_locked = self.circle.total_amount_locked - amt;
                transfers.push(
                    TransferMsg {
                        to_address: sender.clone(),
                        denom: self.circle.denomination.clone(),
                        amount: amt,
                    },
                );
                proof {
                    assert forall|i: int|
                        0 <= i < self.locked_amounts@.len() implies has_addr(
                        self.circle.members_list@,
                        (#[trigger] self.locked_amounts@[i]).member@,
                    ) by {
                        let e = self.locked_amounts@[i];
                        let k = choose|k: int|
                            0 <= k < pre.locked_amounts@.len()
                                && #[trigger] pre.locked_amounts@[k] == e
                                && pre.locked_amounts@[k].member@ != sender@;
                        assert(has_addr(pre.circle.members_list@, e.member@));
                    }
                }
            },
            None => {},
        }
        transfers
    }

    /// The committed effect of a validated exit.
    #[verifier::rlimit(100)]
    #[verifier::spinoff_prover]
    fn apply_exit(&mut self, now: u64, sender: &String) -> (transfers: Vec<TransferMsg>)
        requires
            old(self).wf(),
            exit_allowed(*old(self), sender@),
        ensures
            final(self).wf(),
            exit_effect(*old(self), *final(self), *sender, now, transfers@),
    {
        let ghost pre = *self;
        let transfers = self.refund_lock(sender);
        remove_addr(&mut self.circle.members_list, sender);
        proof {
            let k = choose|k: int|
                0 <= k < pre.circle.members_list@.len()
                    && #[trigger] pre.circle.members_list@[k]@ == sender@
                    && self.circle.members_list@ == pre.circle.members_list@.remove(k);
            lemma_remove_addr_unique(pre.circle.members_list@, k);
        }
        let new_len = self.circle.members_list.len();
        let st_now = self.circle.circle_status;
        let st1 = if new_len < self.circle.max_members as usize && matches!(
            st_now,
            CircleStatus::Full,
        ) {
            CircleStatus::Open
        } else {
            st_now
        };
        let st2 = if new_len < self.circle.min_members_required as usize
            && self.circle.auto_refund_if_min_not_met {
            CircleStatus::Cancelled
        } else {
            st1
        };
        let st3 = if new_len == 1 && matches!(st2, CircleStatus::Open) {
            CircleStatus::Draft
        } else {
            st2
        };
        self.circle.circle_status = st3;
        self.circle.updated_at = now;
        self.append_event(String::from_str("member_exited"), sender.clone(), now);
        proof {
            assert(exit_effect(pre, *self, *sender, now, transfers@));
            lemma_exit_preserves_wf(pre, *self, *sender, now, transfers@);
        }
        transfers
    }
}

/// An accepted exit leaves the state well-formed.
proof fn lemma_exit_preserves_wf(
    pre: CircleState,
    post: CircleState,
    sender: String,
    now: u64,
    transfers: Seq<TransferMsg>,
)
    requires
        pre.wf(),
        exit_allowed(pre, sender@),
        exit_effect(pre, post, sender, now, transfers),
    ensures
        post.wf(),
{
    let k = choose|k: int|
        0 <= k < pre.circle.members_list@.len() && #[trigger] pre.circle.members_list@[k]@
            == sender@ && post.circle.members_list@ == pre.circle.members_list@.remove(k);
    lemma_remove_addr_unique(pre.circle.members_list@, k);
    assert forall|i: int|
        0 <= i < post.circle.pending_members@.len() implies !has_addr(
        post.circle.members_list@,
        (#[trigger] post.circle.pending_members@[i])@,
    ) by {
        let p = post.circle.pending_members@[i]@;
        if p != sender@ {
            assert(has_addr(post.circle.members_list@, p) == has_addr(
                pre.circle.members_list@,
                p,
            ));
        }
    }
    let locked = locked_of(pre.locked_amounts@, sender@);
    match locked {
        Some(amt) => {
            assert forall|i: int|
                0 <= i < post.locked_amounts@.len() implies has_addr(
                post.circle.members_list@,
                (#[trigger] post.locked_amounts@[i]).member@,
            ) by {
                let e = post.locked_amounts@[i];
                let j = choose|j: int|
                    0 <= j < pre.locked_amounts@.len() && #[trigger] pre.locked_amounts@[j] == e
                        && pre.locked_amounts@[j].member@ != sender@;
                assert(has_addr(pre.circle.members_list@, e.member@));
            }
        },
        None => {
            assert forall|i: int|
                0 <= i < post.locked_amounts@.len() implies has_addr(
                post.circle.members_list@,
                (#[trigger] post.locked_amounts@[i]).member@,
            ) by {
                let e = post.locked_amounts@[i];
                assert(has_addr(pre.circle.members_list@, e.member@));
                if e.member@ == sender@ {
                    assert(locked_of(pre.locked_amounts@, sender@) is Some) by {
                        crate::sums::lemma_locked_of_skip(pre.locked_amounts@, sender@, 0);
                        lemma_locked_entry_some(pre.locked_amounts@, i);
                    }
                    assert(false);
                }
            }
        },
    }
}



/// An accepted private-member addition: the member joins the list (a stale
/// invitation is consumed), the roster and status follow, and no escrow
/// changes.
pub open spec fn add_private_effect(
    pre: CircleState,
    post: CircleState,
    member_address: String,
    pseudonym: Option<String>,
    now: u64,
) -> bool {
    &&& post.circle.members_list@ == pre.circle.members_list@.push(member_address)
    &&& post.private_members@ == pre.private_members@.push(member_address)
    &&& post.circle.circle_status == (if pre.circle.members_list@.len() + 1
        == pre.circle.max_members as int {
        CircleStatus::Full
    } else {
        CircleStatus::Open
    })
    &&& post.circle.total_amount_locked == pre.circle.total_amount_locked
    &&& (match pseudonym {
        Some(p) => {
            &&& crate::state::pseudonym_of(post.pseudonyms@, member_address@) == Some(p)
            &&& (forall|m2: Seq<char>|
                m2 != member_address@ ==> crate::state::pseudonym_of(post.pseudonyms@, m2)
                    == crate::state::pseudonym_of(pre.pseudonyms@, m2))
        },
        None => post.pseudonyms@ == pre.pseudonyms@,
    })
    &&& post.deposits == pre.deposits
    &&& post.penalties == pre.penalties
    &&& post.payouts == pre.payouts
    &&& post.refunds == pre.refunds
    &&& post.locked_amounts == pre.locked_amounts
    &&& post.blocked_members == pre.blocked_members
    &&& events_appended(pre, post, "private_member_added"@, now)
}

impl CircleState {
    /// The committed effect of a validated private-member addition.
    #[verifier::rlimit(100)]
    fn apply_add_private(&mut self, now: u64, member_address: &String, pseudonym: Option<String>)
        requires
            old(self).wf(),
            old(self).circle.circle_status is Draft || old(self).circle.circle_status is Open,
            old(self).circle.members_list@.len() < old(self).circle.max_members,
            !has_addr(old(self).circle.members_list@, member_address@),
            old(self).event_counter < u64::MAX,
        ensures
            final(self).wf(),
            add_private_effect(*old(self), *final(self), *member_address, pseudonym, now),
    {
        let ghost pre = *self;
        let was_pending = contains_addr(&self.circle.pending_members, member_address);
        self.join_roster(now, member_address, was_pending);
        proof {
            lemma_push_addr_unique(pre.circle.members_list@, *member_address);
            if was_pending {
                let k = choose|k: int|
                    0 <= k < pre.circle.pending_members@.len()
                        && #[trigger] pre.circle.pending_members@[k]@ == member_address@
                        && self.circle.pending_members@
                        == pre.circle.pending_members@.remove(k);
                lemma_remove_addr_unique(pre.circle.pending_members@, k);
            }
            assert forall|i: int|
                0 <= i < self.circle.pending_members@.len() implies !has_addr(
                self.circle.members_list@,
                (#[trigger] self.circle.pending_members@[i])@,
            ) by {
                let p = self.circle.pending_members@[i]@;
                assert(has_addr(self.circle.pending_members@, p));
                if was_pending {
                    let k = choose|k: int|
                        0 <= k < pre.circle.pending_members@.len()
                            && #[trigger] pre.circle.pending_members@[k]@ == member_address@
                            && self.circle.pending_members@
                            == pre.circle.pending_members@.remove(k);
                    lemma_remove_addr_unique(pre.circle.pending_members@, k);
                    assert(p != member_address@);
                    assert(has_addr(pre.circle.pending_members@, p));
                } else {
                    assert(p != member_address@);
                    assert(has_addr(pre.circle.pending_members@, p));
                }
            }
            assert(pre.deposits@.len() == 0) by {
                if pre.deposits@.len() > 0 {
                    assert(1 <= pre.deposits@[0].cycle <= pre.circle.current_cycle_index);
                }
            }
        }
        self.private_members.push(member_address.clone());
        match pseudonym {
            Some(p) => {
                crate::lookup::upsert_pseudonym(&mut self.pseudonyms, member_address, p);
            },
            None => {},
        }
        if self.circle.members_list.len() >= self.circle.max_members as usize {
            self.circle.circle_status = CircleStatus::Full;
        } else {
            self.circle.circle_status = CircleStatus::Open;
        }
        self.append_event(
            String::from_str("private_member_added"),
            member_address.clone(),
            now,
        );
    }

    /// Adds a member to a private circle directly (creator only), bypassing
    /// the invite flow, with an optional pseudonym. A stale invitation for
    /// the address is consumed. The circle must still be in Draft or Open:
    /// adding a member after the rotation is finalized would break the fixed
    /// payout order, and a Completed or Cancelled circle is immutable.
    pub fn add_private_member(
        &mut self,
        now: u64,
        sender: &String,
        member_address: &String,
        pseudonym: Option<String>,
    ) -> (res: Result<(), ContractError>)
        requires
            old(self).wf(),
        ensures
            final(self).wf(),
            res is Err ==> *final(self) == *old(self),
            res is Ok <==> {
                &&& is_creator(old(self).circle, sender@)
                &&& old(self).circle.visibility is Private
                &&& (old(self).circle.circle_status is Draft || old(self).circle.circle_status
                    is Open)
                &&& old(self).circle.members_list@.len() < old(self).circle.max_members
                &&& !has_addr(old(self).circle.members_list@, member_address@)
                &&& old(self).event_counter < u64::MAX
            },
            !is_creator(old(self).circle, sender@) ==> (res matches Err(e) && e is Unauthorized),
            is_creator(old(self).circle, sender@) && !(old(self).circle.visibility is Private)
                ==> (res matches Err(e) && e is InvalidParameters),
            is_creator(old(self).circle, sender@) && old(self).circle.visibility is Private && (
            old(self).circle.circle_status is Draft || old(self).circle.circle_status is Open)
                && old(self).circle.members_list@.len() >= old(self).circle.max_members ==> res
                == Err::<(), ContractError>(
                ContractError::CircleFull { max: old(self).circle.max_members },
            ),
            res is Ok ==> add_private_effect(
                *old(self),
                *final(self),
                *member_address,
                pseudonym,
                now,
            ),
    {
        if !crate::auth::check_creator(&self.circle, sender) {
            return Err(ContractError::Unauthorized {
                msg: String::from_str("Only creator can add private members"),
            });
        }
        if !(matches!(self.circle.visibility, Visibility::Private)) {
            return Err(ContractError::InvalidParameters {
                msg: String::from_str("Circle must be private to add members directly"),
            });
        }
        match self.circle.circle_status {
            CircleStatus::Draft | CircleStatus::Open => {},
            _ => {
                return Err(ContractError::InvalidCircleStatus {
                    expected: String::from_str("Draft or Open"),
                    actual: self.circle.circle_status,
                });
            },
        }
        if self.circle.members_list.len() >= self.circle.max_members as usize {
            return Err(ContractError::CircleFull { max: self.circle.max_members });
        }
        if contains_addr(&self.circle.members_list, member_address) {
            return Err(ContractError::AlreadyMember { address: member_address.clone() });
        }
        if self.event_counter == u64::MAX {
            return Err(ContractError::InvalidParameters {
                msg: String::from_str("event counter overflow"),
            });
        }
        self.apply_add_private(now, member_address, pseudonym);
        Ok(())
    }

    /// Sets a member's (or pending member's) display pseudonym, by the
    /// creator or arbiter, independent of circle status.
    pub fn update_member_pseudonym(
        &mut self,
        now: u64,
        sender: &String,
        member_address: &String,
        pseudonym: String,
    ) -> (res: Result<(), ContractError>)
        requires
            old(self).wf(),
        ensures
            final(self).wf(),
            res is Err ==> *final(self) == *old(self),
            res is Ok <==> {
                &&& creator_or_arbiter(old(self).circle, sender@)
                &&& (has_addr(old(self).circle.members_list@, member_address@) || has_addr(
                    old(self).circle.pending_members@,
                    member_address@,
                ))
                &&& old(self).event_counter < u64::MAX
            },
            !creator_or_arbiter(old(self).circle, sender@) ==> (res matches Err(e)
                && e is Unauthorized),
            creator_or_arbiter(old(self).circle, sender@) && !(has_addr(
                old(self).circle.members_list@,
                member_address@,
            ) || has_addr(old(self).circle.pending_members@, member_address@)) ==> (res matches
                Err(e) && e is InvalidParameters),
            res is Ok ==> {
                &&& crate::state::pseudonym_of(final(self).pseudonyms@, member_address@)
                    == Some(pseudonym)
                &&& (forall|m2: Seq<char>|
                    m2 != member_address@ ==> crate::state::pseudonym_of(
                        final(self).pseudonyms@,
                        m2,
                    ) == crate::state::pseudonym_of(old(self).pseudonyms@, m2))
                &&& final(self).circle == old(self).circle
                &&& final(self).deposits == old(self).deposits
                &&& final(self).penalties == old(self).penalties
                &&& final(self).payouts == old(self).payouts
                &&& final(self).refunds == old(self).refunds
                &&& final(self).locked_amounts == old(self).locked_amounts
                &&& final(self).blocked_members == old(self).blocked_members
                &&& final(self).private_members == old(self).private_members
                &&& events_appended(*old(self), *final(self), "member_pseudonym_updated"@, now)
            },
    {
        if !crate::auth::check_creator_or_arbiter(&self.circle, sender) {
            return Err(ContractError::Unauthorized {
                msg: String::from_str("Only creator or arbiter can update pseudonyms"),
            });
        }
        let is_member = contains_addr(&self.circle.members_list, member_address);
        let is_pending = contains_addr(&self.circle.pending_members, member_address);
        if !is_member && !is_pending {
            return Err(ContractError::InvalidParameters {
                msg: String::from_str("Address not found in circle members or invitations"),
            });
        }
        if self.event_counter == u64::MAX {
            return Err(ContractError::InvalidParameters {
                msg: String::from_str("event counter overflow"),
            });
        }
        crate::lookup::upsert_pseudonym(&mut self.pseudonyms, member_address, pseudonym);
        self.append_event(
            String::from_str("member_pseudonym_updated"),
            member_address.clone(),
            now,
        );
        Ok(())
    }

    /// Blocks a member (creator only): from the next cycle on, their
    /// deposits are no longer required and their payout eligibility ends.
    /// Blocks are always prospective, never retroactive.
    pub fn block_member(&mut self, now: u64, sender: &String, member_address: &String) -> (res:
        Result<(), ContractError>)
        requires
            old(self).wf(),
        ensures
            final(self).wf(),
            res is Err ==> *final(self) == *old(self),
            res is Ok <==> {
                &&& is_creator(old(self).circle, sender@)
                &&& has_addr(old(self).circle.members_list@, member_address@)
                &&& old(self).circle.current_cycle_index < u32::MAX
                &&& old(self).event_counter < u64::MAX
            },
            !is_creator(old(self).circle, sender@) ==> (res matches Err(e) && e is Unauthorized),
            is_creator(old(self).circle, sender@) && !has_addr(
                old(self).circle.members_list@,
                member_address@,
            ) ==> (res matches Err(e) && e is InvalidParameters),
            res is Ok ==> {
                &&& crate::state::blocked_cycle_of(final(self).blocked_members@, member_address@)
                    == Some((old(self).circle.current_cycle_index + 1) as u32)
                &&& (forall|m2: Seq<char>|
                    m2 != member_address@ ==> crate::state::blocked_cycle_of(
                        final(self).blocked_members@,
                        m2,
                    ) == crate::state::blocked_cycle_of(old(self).blocked_members@, m2))
                &&& final(self).circle == old(self).circle
                &&& final(self).deposits == old(self).deposits
                &&& final(self).penalties == old(self).penalties
                &&& final(self).payouts == old(self).payouts
                &&& final(self).refunds == old(self).refunds
                &&& final(self).locked_amounts == old(self).locked_amounts
                &&& final(self).pseudonyms == old(self).pseudonyms
                &&& final(self).private_members == old(self).private_members
                &&& events_appended(*old(self), *final(self), "member_blocked"@, now)
            },
    {
        if !crate::auth::check_creator(&self.circle, sender) {
            return Err(ContractError::Unauthorized {
                msg: String::from_str("Only creator can block members"),
            });
        }
        if !contains_addr(&self.circle.members_list, member_address) {
            return Err(ContractError::InvalidParameters {
                msg: String::from_str("Member not found in circle"),
            });
        }
        if self.circle.current_cycle_index == u32::MAX {
            return Err(ContractError::InvalidParameters {
                msg: String::from_str("cycle index overflow"),
            });
        }
        if self.event_counter == u64::MAX {
            return Err(ContractError::InvalidParameters {
                msg: String::from_str("event counter overflow"),
            });
        }
        let ghost pre = *self;
        let bc = self.circle.current_cycle_index + 1;
        crate::lookup::upsert_blocked(&mut self.blocked_members, member_address, bc);
        self.append_event(String::from_str("member_blocked"), member_address.clone(), now);
        proof {
            assert forall|i: int, j: int|
                #![trigger self.deposits@[i], self.blocked_members@[j]]
                0 <= i < self.deposits@.len() && 0 <= j < self.blocked_members@.len()
                    && self.deposits@[i].member@ == self.blocked_members@[j].member@ implies
                self.deposits@[i].cycle < self.blocked_members@[j].from_cycle by {
                let e = self.blocked_members@[j];
                if e.member@ == member_address@ && e.from_cycle == bc {
                    assert(self.deposits@[i].cycle <= pre.circle.current_cycle_index);
                } else {
                    let k = choose|k: int|
                        0 <= k < pre.blocked_members@.len()
                            && #[trigger] pre.blocked_members@[k] == e
                            && pre.blocked_members@[k].member@ != member_address@;
                    assert(pre.deposits@[i].cycle < pre.blocked_members@[k].from_cycle);
                }
            }
        }
        Ok(())
    }
}

} // verus!
