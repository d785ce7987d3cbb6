use vstd::prelude::*;
use vstd::arithmetic::div_mod::{lemma_fundamental_div_mod, lemma_fundamental_div_mod_converse};

verus! {

/// The share of a released funding that the platform keeps, in percent.
pub const PLATFORM_FEE_PERCENT: u32 = 3;

/// The platform fee on a funding: `PLATFORM_FEE_PERCENT` percent of it,
/// rounded down.
pub open spec fn fee_of(amount: int) -> int {
    amount * PLATFORM_FEE_PERCENT / 100
}

/// What the worker receives of a funding once the fee is taken.
pub open spec fn payout_of(amount: int) -> int {
    amount - fee_of(amount)
}

/// Computes the platform fee on a non-negative funding, without an
/// intermediate product that could leave the range of `i128`.
pub fn platform_fee(amount: i128) -> (fee: i128)
    requires
        amount >= 0,
    ensures
        fee == fee_of(amount as int),
        0 <= fee <= amount,
{
    let rate: u128 = PLATFORM_FEE_PERCENT as u128;
    let a: u128 = amount as u128;
    let hundreds: u128 = a / 100;
    let rest: u128 = a % 100;
    proof {
        let p = rate as int;
        let q = hundreds as int;
        let r = rest as int;
        let rp = r * p;
        lemma_fundamental_div_mod(a as int, 100);
        lemma_fundamental_div_mod(rp, 100);
        assert(a as int * p == (q * p + rp / 100) * 100 + rp % 100) by (nonlinear_arith)
            requires
                a as int == 100 * q + r,
                rp == r * p,
                rp == 100 * (rp / 100) + rp % 100,
        ;
        lemma_fundamental_div_mod_converse(a as int * p, 100, q * p + rp / 100, rp % 100);
    }
    (hundreds * rate + rest * rate / 100) as i128
}

} // verus!
