//! The library-wide laws, stated as standalone proof functions over the
//! well-formedness invariant that every operation establishes and preserves.

use vstd::prelude::*;

use crate::state::{sum_deps_above, sum_locked, CircleState};
use crate::sums::{lemma_sum_deps_above_nonneg, lemma_sum_locked_nonneg};

verus! {

/// Conservation of escrowed funds: in every reachable state, the recorded
/// total equals the sum of outstanding join deposits plus the accepted
/// base contributions of cycles not yet paid out — and is never negative.
pub proof fn lemma_escrow_conservation(s: CircleState)
    requires
        s.wf(),
    ensures
        s.circle.total_amount_locked as int == sum_locked(s.locked_amounts@) + sum_deps_above(
            s.deposits@,
            s.circle.cycles_completed,
        ),
        sum_locked(s.locked_amounts@) >= 0,
        sum_deps_above(s.deposits@, s.circle.cycles_completed) >= 0,
{
    lemma_sum_locked_nonneg(s.locked_amounts@);
    lemma_sum_deps_above_nonneg(s.deposits@, s.circle.cycles_completed);
}

/// Payout rotation: in every reachable state, the recorded payouts are
/// dense from cycle 1 and each recipient is the finalized order cycled
/// modulo its length, starting at index 0.
pub proof fn lemma_payout_rotation(s: CircleState)
    requires
        s.wf(),
    ensures
        s.payouts@.len() == s.circle.cycles_completed,
        forall|j: int| 0 <= j < s.payouts@.len() ==> (#[trigger] s.payouts@[j]).cycle == j + 1,
        s.circle.payout_order_list matches Some(ord) ==> forall|j: int|
            0 <= j < s.payouts@.len() ==> (#[trigger] s.payouts@[j]).recipient@ == ord@[j
                % ord@.len() as int]@,
{
}

} // verus!
