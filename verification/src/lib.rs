//! Lifecycle engine of a rotating-savings circle: membership, escrow
//! accounting, payout rotation, and blocked-fund recovery, with the
//! conservation-of-funds invariant proved for every operation.

pub mod auth;
pub mod error;
pub mod escrow;
pub mod events;
pub mod laws;
pub mod lifecycle;
pub mod lookup;
pub mod membership;
pub mod msg;
pub mod payout;
pub mod registry;
pub mod rotation;
pub mod state;
pub mod sums;

use vstd::prelude::*;

verus! {

/// Basis points denominator: 10000 basis points equal 100%.
pub open spec fn fee_of(gross: int, bps: int) -> int {
    gross * bps / 10000
}

/// Fee on `gross` at `bps` basis points, rounded down; `None` when the
/// mathematical result does not fit in `u128`.
pub fn mul_bps(gross: u128, bps: u64) -> (r: Option<u128>)
    ensures
        r matches Some(f) ==> f == fee_of(gross as int, bps as int),
        r is None <==> fee_of(gross as int, bps as int) > u128::MAX,
{
    let q: u128 = gross / 10000;
    let rem: u128 = gross % 10000;
    proof {
        assert(rem * (bps as u128) <= 9999 * (u64::MAX as u128)) by (nonlinear_arith)
            requires
                rem <= 9999,
                bps <= u64::MAX,
        ;
    }
    let part2: u128 = (rem * (bps as u128)) / 10000;
    match q.checked_mul(bps as u128) {
        Some(p1) => {
            let r = p1.checked_add(part2);
            proof {
                lemma_fee_split(gross as int, bps as int);
                assert(q * (bps as u128) == p1);
            }
            r
        },
        None => {
            proof {
                lemma_fee_split(gross as int, bps as int);
                assert(q * (bps as u128) > u128::MAX);
            }
            None
        },
    }
}

proof fn lemma_fee_split(gross: int, bps: int)
    requires
        gross >= 0,
        bps >= 0,
    ensures
        fee_of(gross, bps) == (gross / 10000) * bps + (gross % 10000) * bps / 10000,
        fee_of(gross, bps) >= (gross / 10000) * bps,
{
    let q = gross / 10000;
    let r = gross % 10000;
    assert(gross == 10000 * q + r) by (nonlinear_arith)
        requires
            q == gross / 10000,
            r == gross % 10000,
            gross >= 0,
    ;
    assert(gross * bps == 10000 * (q * bps) + r * bps) by (nonlinear_arith)
        requires
            gross == 10000 * q + r,
    ;
    assert((10000 * (q * bps) + r * bps) / 10000 == q * bps + (r * bps) / 10000)
        by (nonlinear_arith)
        requires
            r * bps >= 0,
    ;
    assert((r * bps) / 10000 >= 0) by (nonlinear_arith)
        requires
            r * bps >= 0,
    ;
}

} // verus!
