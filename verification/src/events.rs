//! The append-only, sequentially numbered per-circle audit trail.

use vstd::prelude::*;

use crate::state::{CircleState, EventLog};

verus! {

/// `post` extends `pre`'s audit trail by exactly one entry of the given type
/// stamped `now`, and advances the counter with it.
pub open spec fn events_appended(
    pre: CircleState,
    post: CircleState,
    et: Seq<char>,
    now: u64,
) -> bool {
    &&& post.events@.len() == pre.events@.len() + 1
    &&& post.events@.subrange(0, pre.events@.len() as int) == pre.events@
    &&& post.events@.last().event_type@ == et
    &&& post.events@.last().circle_id == pre.circle.circle_id
    &&& post.events@.last().timestamp == now
    &&& post.event_counter == pre.event_counter + 1
}

/// All ledgers other than the audit trail are the same in `pre` and `post`.
pub open spec fn ledgers_unchanged(pre: CircleState, post: CircleState) -> bool {
    &&& post.deposits == pre.deposits
    &&& post.penalties == pre.penalties
    &&& post.payouts == pre.payouts
    &&& post.refunds == pre.refunds
    &&& post.locked_amounts == pre.locked_amounts
    &&& post.blocked_members == pre.blocked_members
    &&& post.pseudonyms == pre.pseudonyms
    &&& post.private_members == pre.private_members
}

impl CircleState {
    /// Appends one numbered entry to the audit trail. The counter headroom is
    /// validated by every operation before it mutates anything, so the append
    /// itself cannot fail.
    pub fn append_event(&mut self, event_type: String, data: String, now: u64)
        requires
            old(self).event_counter < u64::MAX,
        ensures
            final(self).circle == old(self).circle,
            ledgers_unchanged(*old(self), *final(self)),
            final(self).events@ == old(self).events@.push(
                EventLog {
                    event_type,
                    circle_id: old(self).circle.circle_id,
                    data,
                    timestamp: now,
                },
            ),
            final(self).event_counter == old(self).event_counter + 1,
            events_appended(*old(self), *final(self), event_type@, now),
    {
        let id = self.event_counter + 1;
        let ev = EventLog {
            event_type,
            circle_id: self.circle.circle_id,
            data,
            timestamp: now,
        };
        self.events.push(ev);
        self.event_counter = id;
        proof {
            assert(self.events@.subrange(0, old(self).events@.len() as int) =~= old(
                self,
            ).events@);
        }
    }
}

} // verus!
