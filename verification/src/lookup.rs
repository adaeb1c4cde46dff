//! Verified scans over the address lists and keyed ledgers: membership
//! tests, keyed lookups, and removal of a single address.

use vstd::prelude::*;

use crate::state::{
    addrs_unique, blocked_cycle_of, has_addr, has_dep, has_penalty, locked_of, pseudonym_of,
    sum_locked, BlockedMember, DepositRecord, LockedAmount, MemberPseudonym, PenaltyRecord,
};
use crate::sums::{lemma_blocked_of_skip, lemma_locked_of_skip};
use vstd::pervasive::VecAdditionalExecFns;

verus! {

/// Whether `a` occurs in the list, compared by contents.
pub fn contains_addr(v: &Vec<String>, a: &String) -> (r: bool)
    ensures
        r == has_addr(v@, a@),
{
    let mut i: usize = 0;
    while i < v.len()
        invariant
            i <= v@.len(),
            forall|j: int| 0 <= j < i ==> (#[trigger] v@[j])@ != a@,
        decreases v@.len() - i,
    {
        if v[i] == *a {
            return true;
        }
        i += 1;
    }
    false
}

/// The cycle `m` is blocked from, if a marker exists.
pub fn blocked_from(v: &Vec<BlockedMember>, m: &String) -> (r: Option<u32>)
    ensures
        r == blocked_cycle_of(v@, m@),
{
    let mut i: usize = 0;
    while i < v.len()
        invariant
            i <= v@.len(),
            forall|j: int| 0 <= j < i ==> (#[trigger] v@[j]).member@ != m@,
        decreases v@.len() - i,
    {
        if v[i].member == *m {
            proof {
                lemma_blocked_of_skip(v@, m@, i as int);
                assert(v@.skip(i as int)[0] == v@[i as int]);
            }
            return Some(v[i].from_cycle);
        }
        i += 1;
    }
    proof {
        lemma_blocked_of_skip(v@, m@, v@.len() as int);
        assert(v@.skip(v@.len() as int) =~= Seq::<BlockedMember>::empty());
    }
    None
}

/// The locked join deposit of `m`, if one is recorded.
pub fn locked_amount_of(v: &Vec<LockedAmount>, m: &String) -> (r: Option<u128>)
    ensures
        r == locked_of(v@, m@),
{
    let mut i: usize = 0;
    while i < v.len()
        invariant
            i <= v@.len(),
            forall|j: int| 0 <= j < i ==> (#[trigger] v@[j]).member@ != m@,
        decreases v@.len() - i,
    {
        if v[i].member == *m {
            proof {
                lemma_locked_of_skip(v@, m@, i as int);
                assert(v@.skip(i as int)[0] == v@[i as int]);
            }
            return Some(v[i].amount);
        }
        i += 1;
    }
    proof {
        lemma_locked_of_skip(v@, m@, v@.len() as int);
        assert(v@.skip(v@.len() as int) =~= Seq::<LockedAmount>::empty());
    }
    None
}

/// Whether a deposit for (`m`, `c`) is on record.
pub fn has_deposit(v: &Vec<DepositRecord>, m: &String, c: u32) -> (r: bool)
    ensures
        r == has_dep(v@, m@, c),
{
    let mut i: usize = 0;
    while i < v.len()
        invariant
            i <= v@.len(),
            forall|j: int|
                0 <= j < i ==> !((#[trigger] v@[j]).member@ == m@ && v@[j].cycle == c),
        decreases v@.len() - i,
    {
        if v[i].cycle == c && v[i].member == *m {
            return true;
        }
        i += 1;
    }
    false
}

/// Whether a penalty for (`m`, `c`) is on record.
pub fn has_penalty_rec(v: &Vec<PenaltyRecord>, m: &String, c: u32) -> (r: bool)
    ensures
        r == has_penalty(v@, m@, c),
{
    let mut i: usize = 0;
    while i < v.len()
        invariant
            i <= v@.len(),
            forall|j: int|
                0 <= j < i ==> !((#[trigger] v@[j]).member@ == m@ && v@[j].cycle == c),
        decreases v@.len() - i,
    {
        if v[i].cycle == c && v[i].member == *m {
            return true;
        }
        i += 1;
    }
    false
}

/// Removes the first occurrence of `a` from the list.
pub fn remove_addr(v: &mut Vec<String>, a: &String)
    requires
        has_addr(old(v)@, a@),
    ensures
        exists|i: int|
            0 <= i < old(v)@.len() && (#[trigger] old(v)@[i])@ == a@ && final(v)@ == old(
                v,
            )@.remove(i),
{
    let mut i: usize = 0;
    while i < v.len()
        invariant
            i <= v@.len(),
            v@ == old(v)@,
            has_addr(old(v)@, a@),
            forall|j: int| 0 <= j < i ==> (#[trigger] v@[j])@ != a@,
        decreases v@.len() - i,
    {
        if v[i] == *a {
            v.remove(i);
            return;
        }
        i += 1;
    }
    proof {
        assert(false);
    }
}

/// Replacing the first matching entry in place decides the lookup for that
/// key and leaves every other key's lookup unchanged.
proof fn lemma_blocked_of_update(s: Seq<BlockedMember>, i: int, e: BlockedMember)
    requires
        0 <= i < s.len(),
        s[i].member@ == e.member@,
        forall|j: int| 0 <= j < i ==> (#[trigger] s[j]).member@ != e.member@,
    ensures
        blocked_cycle_of(s.update(i, e), e.member@) == Some(e.from_cycle),
        forall|m2: Seq<char>|
            m2 != e.member@ ==> blocked_cycle_of(s.update(i, e), m2) == blocked_cycle_of(s, m2),
    decreases i,
{
    let t = s.update(i, e);
    if i == 0 {
        assert(t[0] == e);
        assert(t.drop_first() =~= s.drop_first());
        assert forall|m2: Seq<char>| m2 != e.member@ implies blocked_cycle_of(t, m2)
            == blocked_cycle_of(s, m2) by {
            assert(blocked_cycle_of(t, m2) == blocked_cycle_of(t.drop_first(), m2));
            assert(blocked_cycle_of(s, m2) == blocked_cycle_of(s.drop_first(), m2));
        }
    } else {
        assert(t[0] == s[0]);
        assert(t.drop_first() =~= s.drop_first().update(i - 1, e));
        assert(forall|j: int|
            0 <= j < i - 1 ==> (#[trigger] s.drop_first()[j]).member@ == s[j + 1].member@);
        lemma_blocked_of_update(s.drop_first(), i - 1, e);
        assert(blocked_cycle_of(t, e.member@) == blocked_cycle_of(t.drop_first(), e.member@));
        assert forall|m2: Seq<char>| m2 != e.member@ implies blocked_cycle_of(t, m2)
            == blocked_cycle_of(s, m2) by {
            if s[0].member@ != m2 {
                assert(blocked_cycle_of(t, m2) == blocked_cycle_of(t.drop_first(), m2));
                assert(blocked_cycle_of(s, m2) == blocked_cycle_of(s.drop_first(), m2));
            }
        }
    }
}

/// Appending an entry leaves the lookup of every other key unchanged.
proof fn lemma_blocked_of_push(s: Seq<BlockedMember>, e: BlockedMember, m2: Seq<char>)
    requires
        m2 != e.member@,
    ensures
        blocked_cycle_of(s.push(e), m2) == blocked_cycle_of(s, m2),
    decreases s.len(),
{
    if s.len() == 0 {
        assert(s.push(e)[0] == e);
        assert(s.push(e).drop_first() =~= Seq::<BlockedMember>::empty());
        assert(blocked_cycle_of(s.push(e), m2) == blocked_cycle_of(
            Seq::<BlockedMember>::empty(),
            m2,
        ));
    } else {
        assert(s.push(e)[0] == s[0]);
        assert(s.push(e).drop_first() =~= s.drop_first().push(e));
        lemma_blocked_of_push(s.drop_first(), e, m2);
        if s[0].member@ != m2 {
            assert(blocked_cycle_of(s.push(e), m2) == blocked_cycle_of(
                s.drop_first().push(e),
                m2,
            ));
            assert(blocked_cycle_of(s, m2) == blocked_cycle_of(s.drop_first(), m2));
        }
    }
}

/// Updates or inserts the block marker of `m`, making `bc` its blocked-from
/// cycle.
#[verifier::loop_isolation(false)]
pub fn upsert_blocked(v: &mut Vec<BlockedMember>, m: &String, bc: u32)
    requires
        forall|i: int, j: int|
            #![trigger old(v)@[i], old(v)@[j]]
            0 <= i < j < old(v)@.len() ==> old(v)@[i].member@ != old(v)@[j].member@,
    ensures
        forall|i: int, j: int|
            #![trigger final(v)@[i], final(v)@[j]]
            0 <= i < j < final(v)@.len() ==> final(v)@[i].member@ != final(v)@[j].member@,
        blocked_cycle_of(final(v)@, m@) == Some(bc),
        forall|m2: Seq<char>|
            m2 != m@ ==> blocked_cycle_of(final(v)@, m2) == blocked_cycle_of(old(v)@, m2),
        forall|j: int|
            0 <= j < final(v)@.len() ==> (((#[trigger] final(v)@[j]).member@ == m@
                && final(v)@[j].from_cycle == bc) || (exists|k: int|
                0 <= k < old(v)@.len() && (#[trigger] old(v)@[k]) == final(v)@[j]
                    && old(v)@[k].member@ != m@)),
{
    let entry = BlockedMember { member: m.clone(), from_cycle: bc };
    let mut i: usize = 0;
    while i < v.len()
        invariant
            i <= v@.len(),
            v@ == old(v)@,
            entry.member@ == m@,
            entry.from_cycle == bc,
            forall|j: int| 0 <= j < i ==> (#[trigger] v@[j]).member@ != m@,
        decreases v@.len() - i,
    {
        if v[i].member == *m {
            proof {
                assert(old(v)@[i as int].member@ == m@);
                assert forall|j: int|
                    #![trigger old(v)@[j]]
                    0 <= j < old(v)@.len() && j != i implies old(v)@[j].member@ != m@ by {
                    if j > i as int {
                        assert(old(v)@[i as int].member@ != old(v)@[j].member@);
                    }
                }
                lemma_blocked_of_update(old(v)@, i as int, entry);
            }
            v.set(i, entry);
            proof {
                assert forall|a: int, b: int|
                    #![trigger v@[a], v@[b]]
                    0 <= a < b < v@.len() implies v@[a].member@ != v@[b].member@ by {
                    if a == i as int {
                        assert(v@[a].member@ == m@ && v@[b] == old(v)@[b]);
                    } else if b == i as int {
                        assert(v@[b].member@ == m@ && v@[a] == old(v)@[a]);
                    } else {
                        assert(v@[a] == old(v)@[a] && v@[b] == old(v)@[b]);
                        assert(old(v)@[a].member@ != old(v)@[b].member@);
                    }
                }
                assert forall|j: int|
                    #![trigger v@[j]]
                    0 <= j < v@.len() && j != i implies (exists|k: int|
                    0 <= k < old(v)@.len() && (#[trigger] old(v)@[k]) == v@[j]
                        && old(v)@[k].member@ != m@) by {
                    assert(old(v)@[j] == v@[j] && old(v)@[j].member@ != m@);
                }
            }
            return;
        }
        i += 1;
    }
    proof {
        assert forall|m2: Seq<char>| m2 != m@ implies blocked_cycle_of(old(v)@.push(entry), m2)
            == blocked_cycle_of(old(v)@, m2) by {
            lemma_blocked_of_push(old(v)@, entry, m2);
        }
        lemma_blocked_of_skip(old(v)@.push(entry), m@, old(v)@.len() as int);
        assert(old(v)@.push(entry).skip(old(v)@.len() as int)[0] == entry);
        let p = old(v)@.push(entry);
        assert forall|a: int, b: int|
            #![trigger p[a], p[b]]
            0 <= a < b < p.len() implies p[a].member@ != p[b].member@ by {
            if b == old(v)@.len() as int {
                assert(p[a] == old(v)@[a] && old(v)@[a].member@ != m@);
            } else {
                assert(p[a] == old(v)@[a] && p[b] == old(v)@[b]);
                assert(old(v)@[a].member@ != old(v)@[b].member@);
            }
        }
        assert forall|j: int|
            #![trigger p[j]]
            0 <= j < p.len() && !(p[j].member@ == m@ && p[j].from_cycle == bc) implies (exists|
                k: int,
            |
                0 <= k < old(v)@.len() && (#[trigger] old(v)@[k]) == p[j] && old(v)@[k].member@
                    != m@) by {
            assert(j != old(v)@.len() as int);
            assert(old(v)@[j] == p[j] && old(v)@[j].member@ != m@);
        }
    }
    v.push(entry);
}

/// Replacing the first matching pseudonym entry in place.
proof fn lemma_pseudonym_of_update(s: Seq<MemberPseudonym>, i: int, e: MemberPseudonym)
    requires
        0 <= i < s.len(),
        s[i].member@ == e.member@,
        forall|j: int| 0 <= j < i ==> (#[trigger] s[j]).member@ != e.member@,
    ensures
        pseudonym_of(s.update(i, e), e.member@) == Some(e.pseudonym),
        forall|m2: Seq<char>|
            m2 != e.member@ ==> pseudonym_of(s.update(i, e), m2) == pseudonym_of(s, m2),
    decreases i,
{
    let t = s.update(i, e);
    if i == 0 {
        assert(t[0] == e);
        assert(t.drop_first() =~= s.drop_first());
        assert forall|m2: Seq<char>| m2 != e.member@ implies pseudonym_of(t, m2) == pseudonym_of(
            s,
            m2,
        ) by {
            assert(pseudonym_of(t, m2) == pseudonym_of(t.drop_first(), m2));
            assert(pseudonym_of(s, m2) == pseudonym_of(s.drop_first(), m2));
        }
    } else {
        assert(t[0] == s[0]);
        assert(t.drop_first() =~= s.drop_first().update(i - 1, e));
        assert(forall|j: int|
            0 <= j < i - 1 ==> (#[trigger] s.drop_first()[j]).member@ == s[j + 1].member@);
        lemma_pseudonym_of_update(s.drop_first(), i - 1, e);
        assert(pseudonym_of(t, e.member@) == pseudonym_of(t.drop_first(), e.member@));
        assert forall|m2: Seq<char>| m2 != e.member@ implies pseudonym_of(t, m2) == pseudonym_of(
            s,
            m2,
        ) by {
            if s[0].member@ != m2 {
                assert(pseudonym_of(t, m2) == pseudonym_of(t.drop_first(), m2));
                assert(pseudonym_of(s, m2) == pseudonym_of(s.drop_first(), m2));
            }
        }
    }
}

/// Appending a pseudonym entry leaves other keys' lookups unchanged.
proof fn lemma_pseudonym_of_push(s: Seq<MemberPseudonym>, e: MemberPseudonym, m2: Seq<char>)
    requires
        m2 != e.member@,
    ensures
        pseudonym_of(s.push(e), m2) == pseudonym_of(s, m2),
    decreases s.len(),
{
    if s.len() == 0 {
        assert(s.push(e)[0] == e);
        assert(s.push(e).drop_first() =~= Seq::<MemberPseudonym>::empty());
        assert(pseudonym_of(s.push(e), m2) == pseudonym_of(Seq::<MemberPseudonym>::empty(), m2));
    } else {
        assert(s.push(e)[0] == s[0]);
        assert(s.push(e).drop_first() =~= s.drop_first().push(e));
        lemma_pseudonym_of_push(s.drop_first(), e, m2);
        if s[0].member@ != m2 {
            assert(pseudonym_of(s.push(e), m2) == pseudonym_of(s.drop_first().push(e), m2));
            assert(pseudonym_of(s, m2) == pseudonym_of(s.drop_first(), m2));
        }
    }
}

/// When no entry of `s` before `i` is for `m`, the lookup is decided by the
/// rest.
proof fn lemma_pseudonym_of_skip(s: Seq<MemberPseudonym>, m: Seq<char>, i: int)
    requires
        0 <= i <= s.len(),
        forall|j: int| 0 <= j < i ==> (#[trigger] s[j]).member@ != m,
    ensures
        pseudonym_of(s, m) == pseudonym_of(s.skip(i), m),
    decreases i,
{
    if i > 0 {
        assert(s[0].member@ != m);
        assert(forall|j: int|
            0 <= j < i - 1 ==> (#[trigger] s.drop_first()[j]).member@ == s[j + 1].member@);
        lemma_pseudonym_of_skip(s.drop_first(), m, i - 1);
        assert(s.drop_first().skip(i - 1) =~= s.skip(i));
        assert(pseudonym_of(s, m) == pseudonym_of(s.drop_first(), m));
    } else {
        assert(s.skip(0) =~= s);
    }
}

/// Sets or replaces the pseudonym of `m`.
#[verifier::loop_isolation(false)]
pub fn upsert_pseudonym(v: &mut Vec<MemberPseudonym>, m: &String, p: String)
    requires
        forall|i: int, j: int|
            #![trigger old(v)@[i], old(v)@[j]]
            0 <= i < j < old(v)@.len() ==> old(v)@[i].member@ != old(v)@[j].member@,
    ensures
        forall|i: int, j: int|
            #![trigger final(v)@[i], final(v)@[j]]
            0 <= i < j < final(v)@.len() ==> final(v)@[i].member@ != final(v)@[j].member@,
        pseudonym_of(final(v)@, m@) == Some(p),
        forall|m2: Seq<char>|
            m2 != m@ ==> pseudonym_of(final(v)@, m2) == pseudonym_of(old(v)@, m2),
{
    let entry = MemberPseudonym { member: m.clone(), pseudonym: p };
    let mut i: usize = 0;
    while i < v.len()
        invariant
            i <= v@.len(),
            v@ == old(v)@,
            entry.member@ == m@,
            entry.pseudonym == p,
            forall|j: int| 0 <= j < i ==> (#[trigger] v@[j]).member@ != m@,
        decreases v@.len() - i,
    {
        if v[i].member == *m {
            proof {
                assert(old(v)@[i as int].member@ == m@);
                assert forall|j: int|
                    #![trigger old(v)@[j]]
                    0 <= j < old(v)@.len() && j != i implies old(v)@[j].member@ != m@ by {
                    if j > i as int {
                        assert(old(v)@[i as int].member@ != old(v)@[j].member@);
                    }
                }
                lemma_pseudonym_of_update(old(v)@, i as int, entry);
            }
            v.set(i, entry);
            proof {
                assert forall|a: int, b: int|
                    #![trigger v@[a], v@[b]]
                    0 <= a < b < v@.len() implies v@[a].member@ != v@[b].member@ by {
                    if a == i as int {
                        assert(v@[a].member@ == m@ && v@[b] == old(v)@[b]);
                    } else if b == i as int {
                        assert(v@[b].member@ == m@ && v@[a] == old(v)@[a]);
                    } else {
                        assert(v@[a] == old(v)@[a] && v@[b] == old(v)@[b]);
                        assert(old(v)@[a].member@ != old(v)@[b].member@);
                    }
                }
            }
            return;
        }
        i += 1;
    }
    proof {
        assert forall|m2: Seq<char>| m2 != m@ implies pseudonym_of(old(v)@.push(entry), m2)
            == pseudonym_of(old(v)@, m2) by {
            lemma_pseudonym_of_push(old(v)@, entry, m2);
        }
        lemma_pseudonym_of_skip(old(v)@.push(entry), m@, old(v)@.len() as int);
        assert(old(v)@.push(entry).skip(old(v)@.len() as int)[0] == entry);
        let p = old(v)@.push(entry);
        assert forall|a: int, b: int|
            #![trigger p[a], p[b]]
            0 <= a < b < p.len() implies p[a].member@ != p[b].member@ by {
            if b == old(v)@.len() as int {
                assert(p[a] == old(v)@[a] && old(v)@[a].member@ != m@);
            } else {
                assert(p[a] == old(v)@[a] && p[b] == old(v)@[b]);
                assert(old(v)@[a].member@ != old(v)@[b].member@);
            }
        }
    }
    v.push(entry);
}

/// Removing an entry removes its amount from the sum.
pub proof fn lemma_sum_locked_remove(s: Seq<LockedAmount>, i: int)
    requires
        0 <= i < s.len(),
    ensures
        sum_locked(s.remove(i)) == sum_locked(s) - s[i].amount,
    decreases s.len(),
{
    if i == s.len() - 1 {
        assert(s.remove(i) =~= s.drop_last());
    } else {
        assert(s.remove(i).drop_last() =~= s.drop_last().remove(i));
        assert(s.remove(i).last() == s.last());
        lemma_sum_locked_remove(s.drop_last(), i);
    }
}

/// Removing the unique entry of key `m` clears its lookup and leaves every
/// other key's lookup unchanged.
proof fn lemma_locked_of_remove(s: Seq<LockedAmount>, i: int)
    requires
        forall|a: int, b: int|
            #![trigger s[a], s[b]]
            0 <= a < b < s.len() ==> s[a].member@ != s[b].member@,
        0 <= i < s.len(),
    ensures
        locked_of(s.remove(i), s[i].member@) == None::<u128>,
        forall|m2: Seq<char>|
            m2 != s[i].member@ ==> locked_of(s.remove(i), m2) == locked_of(s, m2),
    decreases i,
{
    let m = s[i].member@;
    let t = s.remove(i);
    if i == 0 {
        assert(t =~= s.drop_first());
        assert(forall|j: int| 0 <= j < t.len() ==> (#[trigger] t[j]).member@ != m);
        lemma_locked_of_skip(t, m, t.len() as int);
        assert(t.skip(t.len() as int) =~= Seq::<LockedAmount>::empty());
        assert forall|m2: Seq<char>| m2 != m implies locked_of(t, m2) == locked_of(s, m2) by {
            assert(locked_of(s, m2) == locked_of(s.drop_first(), m2));
        }
    } else {
        assert(t[0] == s[0]);
        assert(t.drop_first() =~= s.drop_first().remove(i - 1));
        assert(forall|j: int|
            0 <= j < s.len() - 1 ==> (#[trigger] s.drop_first()[j]) == s[j + 1]);
        lemma_locked_of_remove(s.drop_first(), i - 1);
        assert(s[0].member@ != m);
        assert(locked_of(t, m) == locked_of(t.drop_first(), m));
        assert forall|m2: Seq<char>| m2 != m implies locked_of(t, m2) == locked_of(s, m2) by {
            if s[0].member@ != m2 {
                assert(locked_of(t, m2) == locked_of(t.drop_first(), m2));
                assert(locked_of(s, m2) == locked_of(s.drop_first(), m2));
            }
        }
    }
}

/// Removes the locked join deposit of `m`, returning its amount.
#[verifier::loop_isolation(false)]
pub fn remove_locked(v: &mut Vec<LockedAmount>, m: &String) -> (r: Option<u128>)
    requires
        forall|i: int, j: int|
            #![trigger old(v)@[i], old(v)@[j]]
            0 <= i < j < old(v)@.len() ==> old(v)@[i].member@ != old(v)@[j].member@,
    ensures
        r == locked_of(old(v)@, m@),
        r is None ==> final(v)@ == old(v)@,
        r matches Some(amt) ==> {
            &&& sum_locked(final(v)@) == sum_locked(old(v)@) - amt
            &&& locked_of(final(v)@, m@) == None::<u128>
            &&& (forall|m2: Seq<char>|
                m2 != m@ ==> locked_of(final(v)@, m2) == locked_of(old(v)@, m2))
            &&& (forall|i: int, j: int|
                #![trigger final(v)@[i], final(v)@[j]]
                0 <= i < j < final(v)@.len() ==> final(v)@[i].member@ != final(v)@[j].member@)
            &&& (forall|j: int|
                #![trigger final(v)@[j]]
                0 <= j < final(v)@.len() ==> exists|k: int|
                    0 <= k < old(v)@.len() && (#[trigger] old(v)@[k]) == final(v)@[j]
                        && old(v)@[k].member@ != m@)
        },
{
    let mut i: usize = 0;
    while i < v.len()
        invariant
            i <= v@.len(),
            v@ == old(v)@,
            forall|j: int| 0 <= j < i ==> (#[trigger] v@[j]).member@ != m@,
        decreases v@.len() - i,
    {
        if v[i].member == *m {
            proof {
                lemma_locked_of_skip(old(v)@, m@, i as int);
                assert(old(v)@.skip(i as int)[0] == old(v)@[i as int]);
                lemma_sum_locked_remove(old(v)@, i as int);
                lemma_locked_of_remove(old(v)@, i as int);
            }
            let amt = v[i].amount;
            v.remove(i);
            proof {
                assert forall|j: int| #![trigger v@[j]] 0 <= j < v@.len() implies exists|k: int|
                    0 <= k < old(v)@.len() && (#[trigger] old(v)@[k]) == v@[j]
                        && old(v)@[k].member@ != m@ by {
                    if j < i {
                        assert(old(v)@[j] == v@[j] && old(v)@[j].member@ != m@);
                    } else {
                        assert(old(v)@[j + 1] == v@[j]);
                        assert(old(v)@[j + 1].member@ != old(v)@[i as int].member@);
                    }
                }
            }
            return Some(amt);
        }
        i += 1;
    }
    proof {
        lemma_locked_of_skip(old(v)@, m@, old(v)@.len() as int);
        assert(old(v)@.skip(old(v)@.len() as int) =~= Seq::<LockedAmount>::empty());
    }
    None
}

/// Removing one address from a duplicate-free list keeps it duplicate-free,
/// deletes exactly that address, and keeps every other address.
pub proof fn lemma_remove_addr_unique(s: Seq<String>, i: int)
    requires
        addrs_unique(s),
        0 <= i < s.len(),
    ensures
        addrs_unique(s.remove(i)),
        !has_addr(s.remove(i), s[i]@),
        forall|b: Seq<char>| b != s[i]@ ==> has_addr(s.remove(i), b) == has_addr(s, b),
        s.remove(i).len() == s.len() - 1,
{
    let r = s.remove(i);
    assert(forall|j: int| 0 <= j < i ==> r[j] == s[j]);
    assert(forall|j: int| i <= j < r.len() ==> r[j] == s[j + 1]);
    assert forall|b: Seq<char>| b != s[i]@ && has_addr(s, b) implies has_addr(r, b) by {
        let j = choose|j: int| 0 <= j < s.len() && #[trigger] s[j]@ == b;
        if j < i {
            assert(r[j]@ == b);
        } else {
            assert(r[j - 1]@ == b);
        }
    }
    if has_addr(r, s[i]@) {
        let j = choose|j: int| 0 <= j < r.len() && #[trigger] r[j]@ == s[i]@;
        if j < i {
            assert(s[j]@ == s[i]@);
        } else {
            assert(s[j + 1]@ == s[i]@);
        }
        assert(false);
    }
}

/// Appending a fresh address keeps the list duplicate-free.
pub proof fn lemma_push_addr_unique(s: Seq<String>, x: String)
    requires
        addrs_unique(s),
        !has_addr(s, x@),
    ensures
        addrs_unique(s.push(x)),
        forall|b: Seq<char>| has_addr(s.push(x), b) <==> (has_addr(s, b) || b == x@),
{
    let p = s.push(x);
    assert forall|i: int, j: int|
        #![trigger p[i], p[j]]
        0 <= i < j < p.len() implies p[i]@ != p[j]@ by {
        if j == s.len() {
            assert(p[i] == s[i]);
            if p[i]@ == x@ {
                assert(has_addr(s, x@));
            }
        } else {
            assert(p[i] == s[i] && p[j] == s[j]);
        }
    }
    assert forall|b: Seq<char>| has_addr(p, b) implies (has_addr(s, b) || b == x@) by {
        let j = choose|j: int| 0 <= j < p.len() && #[trigger] p[j]@ == b;
        if j < s.len() {
            assert(s[j]@ == b);
        }
    }
    assert forall|b: Seq<char>| has_addr(s, b) implies has_addr(p, b) by {
        let j = choose|j: int| 0 <= j < s.len() && #[trigger] s[j]@ == b;
        assert(p[j]@ == b);
    }
    assert(p[s.len() as int]@ == x@);
}

} // verus!
