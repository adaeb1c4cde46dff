//! Induction lemmas about the escrow sums and counts of `state`: how they
//! grow entry by entry, and the central fact that the contributions recorded
//! for a fully-paid cycle sum to the contribution amount times the number of
//! active members.

use vstd::prelude::*;

use crate::state::{
    active_count, active_set, blocked_cycle_of, count_deps_at, depositors_at, has_addr, has_dep,
    is_active, locked_of, sum_deps_above, sum_deps_at, sum_locked, addrs_unique, BlockedMember,
    DepositRecord, LockedAmount,
};

verus! {

pub proof fn lemma_sum_locked_nonneg(s: Seq<LockedAmount>)
    ensures
        sum_locked(s) >= 0,
    decreases s.len(),
{
    if s.len() > 0 {
        lemma_sum_locked_nonneg(s.drop_last());
    }
}

pub proof fn lemma_sum_deps_above_nonneg(s: Seq<DepositRecord>, k: u32)
    ensures
        sum_deps_above(s, k) >= 0,
    decreases s.len(),
{
    if s.len() > 0 {
        lemma_sum_deps_above_nonneg(s.drop_last(), k);
    }
}

/// Extending a prefix of `s` by one entry adds that entry's amount.
pub proof fn lemma_sum_locked_take_succ(s: Seq<LockedAmount>, i: int)
    requires
        0 <= i < s.len(),
    ensures
        sum_locked(s.take(i + 1)) == sum_locked(s.take(i)) + s[i].amount,
{
    assert(s.take(i + 1).drop_last() =~= s.take(i));
    assert(s.take(i + 1).last() == s[i]);
}

/// Any prefix sums to no more than the whole.
pub proof fn lemma_sum_locked_take_le(s: Seq<LockedAmount>, i: int)
    requires
        0 <= i <= s.len(),
    ensures
        sum_locked(s.take(i)) <= sum_locked(s),
    decreases s.len() - i,
{
    if i == s.len() {
        assert(s.take(i) =~= s);
    } else {
        lemma_sum_locked_take_succ(s, i);
        lemma_sum_locked_take_le(s, i + 1);
    }
}

/// When every deposit is of cycle `k` or earlier, nothing is outstanding
/// above `k`.
pub proof fn lemma_sum_deps_above_zero(s: Seq<DepositRecord>, k: u32)
    requires
        forall|i: int| 0 <= i < s.len() ==> (#[trigger] s[i]).cycle <= k,
    ensures
        sum_deps_above(s, k) == 0,
    decreases s.len(),
{
    if s.len() > 0 {
        lemma_sum_deps_above_zero(s.drop_last(), k);
    }
}

/// When every deposit is of cycle `k + 1` or earlier, the amount outstanding
/// above `k` is exactly the amount recorded at cycle `k + 1`.
pub proof fn lemma_sum_deps_above_at(s: Seq<DepositRecord>, k: u32)
    requires
        k < u32::MAX,
        forall|i: int| 0 <= i < s.len() ==> (#[trigger] s[i]).cycle <= k + 1,
    ensures
        sum_deps_above(s, k) == sum_deps_at(s, (k + 1) as u32),
    decreases s.len(),
{
    if s.len() > 0 {
        lemma_sum_deps_above_at(s.drop_last(), k);
    }
}

/// With a uniform deposit amount, the cycle sum is amount times count.
pub proof fn lemma_sum_deps_at_count(s: Seq<DepositRecord>, c: u32, amt: u128)
    requires
        forall|i: int| 0 <= i < s.len() ==> (#[trigger] s[i]).amount == amt,
    ensures
        sum_deps_at(s, c) == amt * count_deps_at(s, c),
    decreases s.len(),
{
    if s.len() == 0 {
        assert(amt * 0int == 0) by (nonlinear_arith);
    } else {
        lemma_sum_deps_at_count(s.drop_last(), c, amt);
        let n = count_deps_at(s.drop_last(), c);
        assert(amt * (n + 1) == amt * n + amt) by (nonlinear_arith);
    }
}

/// Membership in `depositors_at` is existence of a deposit record.
pub proof fn lemma_depositors_at_contains(s: Seq<DepositRecord>, c: u32, m: Seq<char>)
    ensures
        depositors_at(s, c).contains(m) <==> has_dep(s, m, c),
    decreases s.len(),
{
    if s.len() > 0 {
        lemma_depositors_at_contains(s.drop_last(), c, m);
        if has_dep(s.drop_last(), m, c) {
            let i = choose|i: int|
                0 <= i < s.drop_last().len() && #[trigger] s.drop_last()[i].member@ == m
                    && s.drop_last()[i].cycle == c;
            assert(s[i].member@ == m && s[i].cycle == c);
        }
        if has_dep(s, m, c) && !(s.last().cycle == c && s.last().member@ == m) {
            let i = choose|i: int|
                0 <= i < s.len() && #[trigger] s[i].member@ == m && s[i].cycle == c;
            assert(s.drop_last()[i].member@ == m && s.drop_last()[i].cycle == c);
        }
    }
}

/// With key-unique records, the count at a cycle is the cardinality of its
/// depositor set.
pub proof fn lemma_count_depositors(s: Seq<DepositRecord>, c: u32)
    requires
        forall|i: int, j: int|
            #![trigger s[i], s[j]]
            0 <= i < j < s.len() ==> !(s[i].member@ == s[j].member@ && s[i].cycle == s[j].cycle),
    ensures
        depositors_at(s, c).finite(),
        count_deps_at(s, c) == depositors_at(s, c).len(),
    decreases s.len(),
{
    if s.len() > 0 {
        lemma_count_depositors(s.drop_last(), c);
        if s.last().cycle == c {
            lemma_depositors_at_contains(s.drop_last(), c, s.last().member@);
            if has_dep(s.drop_last(), s.last().member@, c) {
                let i = choose|i: int|
                    0 <= i < s.drop_last().len() && #[trigger] s.drop_last()[i].member@
                        == s.last().member@ && s.drop_last()[i].cycle == c;
                assert(s[i].member@ == s[s.len() - 1].member@ && s[i].cycle == s[s.len()
                    - 1].cycle);
                assert(false);
            }
        }
    }
}

/// Membership in `active_set` is list membership plus activity.
pub proof fn lemma_active_set_contains(
    ms: Seq<String>,
    blocked: Seq<BlockedMember>,
    c: u32,
    m: Seq<char>,
)
    ensures
        active_set(ms, blocked, c).contains(m) <==> (has_addr(ms, m) && is_active(blocked, m, c)),
    decreases ms.len(),
{
    if ms.len() > 0 {
        lemma_active_set_contains(ms.drop_last(), blocked, c, m);
        if has_addr(ms.drop_last(), m) {
            let i = choose|i: int| 0 <= i < ms.drop_last().len() && #[trigger] ms.drop_last()[i]@ == m;
            assert(ms[i]@ == m);
        }
        if has_addr(ms, m) && ms.last()@ != m {
            let i = choose|i: int| 0 <= i < ms.len() && #[trigger] ms[i]@ == m;
            assert(ms.drop_last()[i]@ == m);
        }
    }
}

/// With a duplicate-free list, the active count is the cardinality of the
/// active set.
pub proof fn lemma_active_count_card(ms: Seq<String>, blocked: Seq<BlockedMember>, c: u32)
    requires
        addrs_unique(ms),
    ensures
        active_set(ms, blocked, c).finite(),
        active_count(ms, blocked, c) == active_set(ms, blocked, c).len(),
    decreases ms.len(),
{
    if ms.len() > 0 {
        assert(addrs_unique(ms.drop_last())) by {
            assert(forall|i: int, j: int|
                #![trigger ms.drop_last()[i], ms.drop_last()[j]]
                0 <= i < j < ms.drop_last().len() ==> ms.drop_last()[i]@ == ms[i]@
                    && ms.drop_last()[j]@ == ms[j]@);
        }
        lemma_active_count_card(ms.drop_last(), blocked, c);
        if is_active(blocked, ms.last()@, c) {
            lemma_active_set_contains(ms.drop_last(), blocked, c, ms.last()@);
            if has_addr(ms.drop_last(), ms.last()@) {
                let i = choose|i: int|
                    0 <= i < ms.drop_last().len() && #[trigger] ms.drop_last()[i]@ == ms.last()@;
                assert(ms[i]@ == ms[ms.len() - 1]@);
                assert(false);
            }
        }
    }
}

/// A recorded block marker is an entry of the list.
pub proof fn lemma_blocked_cycle_of_index(s: Seq<BlockedMember>, m: Seq<char>)
    requires
        blocked_cycle_of(s, m) is Some,
    ensures
        exists|j: int|
            0 <= j < s.len() && #[trigger] s[j].member@ == m && s[j].from_cycle
                == blocked_cycle_of(s, m)->0,
    decreases s.len(),
{
    if s.len() > 0 && s[0].member@ != m {
        lemma_blocked_cycle_of_index(s.drop_first(), m);
        let j = choose|j: int|
            0 <= j < s.drop_first().len() && #[trigger] s.drop_first()[j].member@ == m
                && s.drop_first()[j].from_cycle == blocked_cycle_of(s.drop_first(), m)->0;
        assert(s[j + 1].member@ == m && s[j + 1].from_cycle == blocked_cycle_of(s, m)->0);
    }
}

/// The central escrow fact: when every active member of a duplicate-free
/// member list has a deposit for cycle `c`, and records obey the ledger
/// invariants, the amount recorded at `c` is exactly the uniform deposit
/// amount times the number of active members.
pub proof fn lemma_cycle_deposit_sum(
    deps: Seq<DepositRecord>,
    ms: Seq<String>,
    blocked: Seq<BlockedMember>,
    c: u32,
    amt: u128,
)
    requires
        addrs_unique(ms),
        forall|i: int, j: int|
            #![trigger deps[i], deps[j]]
            0 <= i < j < deps.len() ==> !(deps[i].member@ == deps[j].member@ && deps[i].cycle
                == deps[j].cycle),
        forall|i: int| 0 <= i < deps.len() ==> (#[trigger] deps[i]).amount == amt,
        forall|i: int| 0 <= i < deps.len() ==> has_addr(ms, (#[trigger] deps[i]).member@),
        forall|i: int, j: int|
            #![trigger deps[i], blocked[j]]
            0 <= i < deps.len() && 0 <= j < blocked.len() && deps[i].member@ == blocked[j].member@
                ==> deps[i].cycle < blocked[j].from_cycle,
        forall|k: int|
            0 <= k < ms.len() && is_active(blocked, (#[trigger] ms[k])@, c) ==> has_dep(
                deps,
                ms[k]@,
                c,
            ),
    ensures
        sum_deps_at(deps, c) == amt * active_count(ms, blocked, c),
{
    lemma_count_depositors(deps, c);
    lemma_active_count_card(ms, blocked, c);
    lemma_sum_deps_at_count(deps, c, amt);
    assert(depositors_at(deps, c) =~= active_set(ms, blocked, c)) by {
        assert forall|m: Seq<char>| depositors_at(deps, c).contains(m) implies active_set(
            ms,
            blocked,
            c,
        ).contains(m) by {
            lemma_depositors_at_contains(deps, c, m);
            let i = choose|i: int|
                0 <= i < deps.len() && #[trigger] deps[i].member@ == m && deps[i].cycle == c;
            if !is_active(blocked, m, c) {
                lemma_blocked_cycle_of_index(blocked, m);
                let j = choose|j: int|
                    0 <= j < blocked.len() && #[trigger] blocked[j].member@ == m
                        && blocked[j].from_cycle == blocked_cycle_of(blocked, m)->0;
                assert(deps[i].cycle < blocked[j].from_cycle);
                assert(false);
            }
            lemma_active_set_contains(ms, blocked, c, m);
        }
        assert forall|m: Seq<char>| active_set(ms, blocked, c).contains(m) implies depositors_at(
            deps,
            c,
        ).contains(m) by {
            lemma_active_set_contains(ms, blocked, c, m);
            let k = choose|k: int| 0 <= k < ms.len() && #[trigger] ms[k]@ == m;
            assert(has_dep(deps, ms[k]@, c));
            lemma_depositors_at_contains(deps, c, m);
        }
    }
}

/// When `m` has no entry among the first `i` records, the lookup result is
/// decided by the rest.
pub proof fn lemma_blocked_of_skip(s: Seq<BlockedMember>, m: Seq<char>, i: int)
    requires
        0 <= i <= s.len(),
        forall|j: int| 0 <= j < i ==> (#[trigger] s[j]).member@ != m,
    ensures
        blocked_cycle_of(s, m) == blocked_cycle_of(s.skip(i), m),
    decreases i,
{
    if i > 0 {
        assert(s[0].member@ != m);
        assert(forall|j: int|
            0 <= j < i - 1 ==> (#[trigger] s.drop_first()[j]).member@ == s[j + 1].member@);
        lemma_blocked_of_skip(s.drop_first(), m, i - 1);
        assert(s.drop_first().skip(i - 1) =~= s.skip(i));
        assert(blocked_cycle_of(s, m) == blocked_cycle_of(s.drop_first(), m));
    } else {
        assert(s.skip(0) =~= s);
    }
}

/// Same, for the locked-amount ledger.
pub proof fn lemma_locked_of_skip(s: Seq<LockedAmount>, m: Seq<char>, i: int)
    requires
        0 <= i <= s.len(),
        forall|j: int| 0 <= j < i ==> (#[trigger] s[j]).member@ != m,
    ensures
        locked_of(s, m) == locked_of(s.skip(i), m),
    decreases i,
{
    if i > 0 {
        assert(s[0].member@ != m);
        assert(forall|j: int|
            0 <= j < i - 1 ==> (#[trigger] s.drop_first()[j]).member@ == s[j + 1].member@);
        lemma_locked_of_skip(s.drop_first(), m, i - 1);
        assert(s.drop_first().skip(i - 1) =~= s.skip(i));
        assert(locked_of(s, m) == locked_of(s.drop_first(), m));
    } else {
        assert(s.skip(0) =~= s);
    }
}


/// An entry of the locked-amount ledger makes its key's lookup succeed.
pub proof fn lemma_locked_entry_some(s: Seq<LockedAmount>, i: int)
    requires
        0 <= i < s.len(),
    ensures
        locked_of(s, s[i].member@) is Some,
    decreases i,
{
    if i > 0 && s[0].member@ != s[i].member@ {
        lemma_locked_entry_some(s.drop_first(), i - 1);
        assert(s.drop_first()[i - 1] == s[i]);
    }
}


/// With unique keys, an entry decides its member's lookup.
pub proof fn lemma_blocked_entry_first(s: Seq<BlockedMember>, j: int)
    requires
        0 <= j < s.len(),
        forall|a: int, b: int|
            #![trigger s[a], s[b]]
            0 <= a < b < s.len() ==> s[a].member@ != s[b].member@,
    ensures
        blocked_cycle_of(s, s[j].member@) == Some(s[j].from_cycle),
{
    assert forall|k: int| 0 <= k < j implies (#[trigger] s[k]).member@ != s[j].member@ by {}
    lemma_blocked_of_skip(s, s[j].member@, j);
    assert(s.skip(j)[0] == s[j]);
}


/// With unique keys, an entry decides its member's lookup.
pub proof fn lemma_locked_entry_first(s: Seq<LockedAmount>, j: int)
    requires
        0 <= j < s.len(),
        forall|a: int, b: int|
            #![trigger s[a], s[b]]
            0 <= a < b < s.len() ==> s[a].member@ != s[b].member@,
    ensures
        locked_of(s, s[j].member@) == Some(s[j].amount),
{
    assert forall|k: int| 0 <= k < j implies (#[trigger] s[k]).member@ != s[j].member@ by {}
    lemma_locked_of_skip(s, s[j].member@, j);
    assert(s.skip(j)[0] == s[j]);
}

/// A successful lookup points at an entry of the ledger.
pub proof fn lemma_locked_of_index(s: Seq<LockedAmount>, m: Seq<char>)
    requires
        locked_of(s, m) is Some,
    ensures
        exists|j: int|
            0 <= j < s.len() && #[trigger] s[j].member@ == m && s[j].amount == locked_of(s, m)->0,
    decreases s.len(),
{
    if s.len() > 0 && s[0].member@ != m {
        lemma_locked_of_index(s.drop_first(), m);
        let j = choose|j: int|
            0 <= j < s.drop_first().len() && #[trigger] s.drop_first()[j].member@ == m
                && s.drop_first()[j].amount == locked_of(s.drop_first(), m)->0;
        assert(s[j + 1].member@ == m && s[j + 1].amount == locked_of(s, m)->0);
    }
}

} // verus!
