//! The fee-per-share arithmetic of the pool, in fixed point with seven
//! decimals (one stroop).
use vstd::prelude::*;

use crate::arith::fits_i128;
use crate::fixed_point::{
    fixed_div_floor, fixed_mul_ceil, fixed_mul_floor, lemma_mul_div_fits, mul_div_ceil,
    mul_div_floor, stroop, stroop_spec,
};

verus! {

/// The fee each share earns from `accrued_interest` spread over
/// `total_supply` shares, rounded down.
pub open spec fn interest_by_supply(accrued_interest: int, total_supply: int) -> int {
    mul_div_floor(accrued_interest, stroop_spec(), total_supply)
}

/// What the rounding down of `interest_by_supply` leaves undistributed.
pub open spec fn dust_of(accrued_interest: int, total_supply: int) -> int {
    accrued_interest - mul_div_ceil(
        interest_by_supply(accrued_interest, total_supply),
        total_supply,
        stroop_spec(),
    )
}

/// The inputs on which `compute_fee_per_share` completes: a positive
/// supply and no intermediate result outside the `i128` range.
pub open spec fn fee_per_share_ok(
    fee_per_share_universal: int,
    accrued_interest: int,
    total_supply: int,
) -> bool {
    &&& total_supply > 0
    &&& fits_i128(accrued_interest * stroop_spec())
    &&& fits_i128(interest_by_supply(accrued_interest, total_supply) * total_supply)
    &&& fits_i128(fee_per_share_universal + interest_by_supply(accrued_interest, total_supply))
    &&& fits_i128(dust_of(accrued_interest, total_supply))
}

/// The fee earned by `user_balance` shares since the universal fee per share
/// stood at `fee_per_share_particular`, rounded down.
pub open spec fn fee_earned(
    user_balance: int,
    fee_per_share_universal: int,
    fee_per_share_particular: int,
) -> int {
    mul_div_floor(user_balance, fee_per_share_universal - fee_per_share_particular, stroop_spec())
}

/// The inputs on which `compute_fee_earned` completes.
pub open spec fn fee_earned_ok(
    user_balance: int,
    fee_per_share_universal: int,
    fee_per_share_particular: int,
) -> bool {
    &&& fits_i128(fee_per_share_universal - fee_per_share_particular)
    &&& fits_i128(user_balance * (fee_per_share_universal - fee_per_share_particular))
}

/// Adds the fee per share of `accrued_interest` to the universal fee per
/// share and returns it together with the dust that rounding leaves over.
pub fn compute_fee_per_share(
    fee_per_share_universal: i128,
    accrued_interest: i128,
    total_supply: i128,
) -> (r: (i128, i128))
    requires
        fee_per_share_ok(
            fee_per_share_universal as int,
            accrued_interest as int,
            total_supply as int,
        ),
    ensures
        r.0 == fee_per_share_universal + interest_by_supply(
            accrued_interest as int,
            total_supply as int,
        ),
        r.1 == dust_of(accrued_interest as int, total_supply as int),
{
    let s = stroop();
    proof {
        lemma_mul_div_fits(accrued_interest as int, s as int, total_supply as int);
    }
    let interest_by_supply = match fixed_div_floor(accrued_interest, total_supply, s) {
        Some(v) => v,
        None => {
            assert(false);
            0
        },
    };
    let computed_floored = fee_per_share_universal + interest_by_supply;
    proof {
        lemma_mul_div_fits(interest_by_supply as int, total_supply as int, s as int);
    }
    let distributed = match fixed_mul_ceil(interest_by_supply, total_supply, s) {
        Some(v) => v,
        None => {
            assert(false);
            0
        },
    };
    let dust = accrued_interest - distributed;
    (computed_floored, dust)
}

/// The fee earned by `user_balance` shares since the universal fee per share
/// stood at `fee_per_share_particular`.
pub fn compute_fee_earned(
    user_balance: i128,
    fee_per_share_universal: i128,
    fee_per_share_particular: i128,
) -> (r: i128)
    requires
        fee_earned_ok(
            user_balance as int,
            fee_per_share_universal as int,
            fee_per_share_particular as int,
        ),
    ensures
        r == fee_earned(
            user_balance as int,
            fee_per_share_universal as int,
            fee_per_share_particular as int,
        ),
{
    let s = stroop();
    let delta = fee_per_share_universal - fee_per_share_particular;
    proof {
        lemma_mul_div_fits(user_balance as int, delta as int, s as int);
    }
    match fixed_mul_floor(user_balance, delta, s) {
        Some(v) => v,
        None => {
            assert(false);
            0
        },
    }
}

} // verus!
