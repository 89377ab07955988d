//! The liquidity pool: lenders deposit a token, borrowers take flash loans
//! from it, and the fees are shared among the lenders by their shares.
use vstd::prelude::*;

use crate::arith::fits_i128;
use crate::fixed_point::{fixed_div_ceil, lemma_mul_div_fits, mul_div_ceil};

pub mod balance;
pub mod checks;
pub mod contract;
pub mod history;
pub mod laws;
pub mod ledger;
pub mod math;
pub mod rewards;
pub mod storage;
pub mod types;

verus! {

/// The fee charged on a flash loan of `amount`: 0.08%, rounded up.
pub open spec fn fee_of(amount: int) -> int {
    mul_div_ceil(amount, 10_000_000, 12_500_000_000)
}

/// The fee charged on a flash loan of `amount`.
pub fn compute_fee(amount: &i128) -> (r: i128)
    requires
        fits_i128(*amount * 10_000_000),
    ensures
        r == fee_of(*amount as int),
{
    proof {
        lemma_mul_div_fits(*amount as int, 10_000_000, 12_500_000_000);
    }
    match fixed_div_ceil(*amount, 1250_0000000, 10_000_000) {
        Some(v) => v,
        None => {
            assert(false);
            0
        },
    }
}

} // verus!
