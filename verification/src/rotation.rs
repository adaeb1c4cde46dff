//! The payout-order shuffle: a deterministic, explicitly non-secure
//! pseudo-shuffle seeded by block time plus circle id, swapping element `i`
//! with `(seed + i*7) mod n` for each index in order.

use vstd::prelude::*;
use vstd::pervasive::VecAdditionalExecFns;
use vstd::arithmetic::div_mod::lemma_add_mod_noop;

use crate::state::has_addr;

verus! {

/// `s` with the entries at `a` and `b` exchanged.
pub open spec fn swapped(s: Seq<String>, a: int, b: int) -> Seq<String> {
    s.update(a, s[b]).update(b, s[a])
}

/// The swap target of index `i` under `seed`, over a list of length `n`.
pub open spec fn swap_target(seed: u64, i: int, n: int) -> int {
    (seed + i * 7) % n
}

/// The list after the first `k` swap steps.
pub open spec fn shuffled_upto(s: Seq<String>, seed: u64, k: int) -> Seq<String>
    decreases k,
{
    if k <= 0 {
        s
    } else {
        let prev = shuffled_upto(s, seed, k - 1);
        swapped(prev, k - 1, swap_target(seed, k - 1, s.len() as int))
    }
}

/// The fully shuffled list: one swap step per index, in order.
pub open spec fn shuffled(s: Seq<String>, seed: u64) -> Seq<String> {
    shuffled_upto(s, seed, s.len() as int)
}

pub proof fn lemma_shuffled_upto_len(s: Seq<String>, seed: u64, k: int)
    requires
        s.len() >= 1,
        k <= s.len(),
    ensures
        shuffled_upto(s, seed, k).len() == s.len(),
    decreases k,
{
    if k > 0 {
        lemma_shuffled_upto_len(s, seed, k - 1);
        lemma_mod_range(seed + (k - 1) * 7, s.len() as int);
    }
}

/// A swap keeps exactly the addresses that were present.
pub proof fn lemma_swapped_has_addr(s: Seq<String>, a: int, b: int)
    requires
        0 <= a < s.len(),
        0 <= b < s.len(),
    ensures
        forall|m: Seq<char>| has_addr(swapped(s, a, b), m) == has_addr(s, m),
{
    let t = swapped(s, a, b);
    assert forall|m: Seq<char>| has_addr(s, m) implies has_addr(t, m) by {
        let i = choose|i: int| 0 <= i < s.len() && #[trigger] s[i]@ == m;
        if i == a {
            assert(t[b]@ == m);
        } else if i == b {
            assert(t[a]@ == m);
        } else {
            assert(t[i]@ == m);
        }
    }
    assert forall|m: Seq<char>| has_addr(t, m) implies has_addr(s, m) by {
        let i = choose|i: int| 0 <= i < t.len() && #[trigger] t[i]@ == m;
        if i == a {
            assert(s[b]@ == m);
        } else if i == b {
            assert(s[a]@ == m);
        } else {
            assert(s[i]@ == m);
        }
    }
}

/// The shuffle keeps exactly the addresses that were present.
pub proof fn lemma_shuffled_upto_has_addr(s: Seq<String>, seed: u64, k: int)
    requires
        s.len() >= 1,
        k <= s.len(),
    ensures
        forall|m: Seq<char>| has_addr(shuffled_upto(s, seed, k), m) == has_addr(s, m),
    decreases k,
{
    if k > 0 {
        lemma_shuffled_upto_has_addr(s, seed, k - 1);
        let prev = shuffled_upto(s, seed, k - 1);
        lemma_shuffled_upto_len(s, seed, k - 1);
        let n = s.len() as int;
        let j = swap_target(seed, k - 1, n);
        assert(0 <= j < n) by {
            lemma_mod_range(seed + (k - 1) * 7, n);
        }
        if 0 <= k - 1 < n {
            lemma_swapped_has_addr(prev, k - 1, j);
        }
    }
}

proof fn lemma_mod_range(x: int, n: int)
    requires
        x >= 0,
        n >= 1,
    ensures
        0 <= x % n < n,
{
}

/// An exact copy of an address list.
pub fn clone_addrs(v: &Vec<String>) -> (r: Vec<String>)
    ensures
        r@ == v@,
{
    let mut r: Vec<String> = Vec::new();
    let mut i: usize = 0;
    while i < v.len()
        invariant
            i <= v@.len(),
            r@ == v@.take(i as int),
        decreases v@.len() - i,
    {
        r.push(v[i].clone());
        proof {
            assert(r@ =~= v@.take(i + 1));
        }
        i += 1;
    }
    proof {
        assert(v@.take(v@.len() as int) =~= v@);
    }
    r
}

/// Computes the pseudo-shuffled payout order of `v` under `seed`.
pub fn shuffle_addrs(v: &Vec<String>, seed: u64) -> (r: Vec<String>)
    requires
        1 <= v@.len() <= u32::MAX,
    ensures
        r@ == shuffled(v@, seed),
        r@.len() == v@.len(),
        forall|m: Seq<char>| has_addr(r@, m) == has_addr(v@, m),
{
    let mut m = clone_addrs(v);
    let n = v.len();
    let mut i: usize = 0;
    while i < n
        invariant
            1 <= n <= u32::MAX,
            n == v@.len(),
            i <= n,
            m@ == shuffled_upto(v@, seed, i as int),
            m@.len() == n,
        decreases n - i,
    {
        let j64 = ((seed % (n as u64)) + ((i as u64) * 7) % (n as u64)) % (n as u64);
        let j = j64 as usize;
        proof {
            lemma_add_mod_noop(seed as int, (i as int) * 7, n as int);
            assert(j64 == swap_target(seed, i as int, n as int));
            lemma_mod_range(seed + (i as int) * 7, n as int);
        }
        let x = m[i].clone();
        let y = m[j].clone();
        m.set(i, y);
        m.set(j, x);
        proof {
            assert(m@ =~= shuffled_upto(v@, seed, i + 1));
        }
        i += 1;
    }
    proof {
        lemma_shuffled_upto_has_addr(v@, seed, v@.len() as int);
    }
    m
}

} // verus!
