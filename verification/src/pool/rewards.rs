//! How collected fees turn into rewards: every share earns the universal
//! fee per share, and a lender's rewards mature when their entries are
//! brought up to the universal fee per share.
use vstd::prelude::*;

use crate::arith::fits_i128;
use crate::fixed_point::{fixed_div_floor, lemma_mul_div_fits, stroop, stroop_spec};
use crate::pool::math::{
    compute_fee_earned, compute_fee_per_share, dust_of, fee_earned, fee_earned_ok,
    fee_per_share_ok, interest_by_supply,
};
use crate::pool::storage::{LenderState, PoolState};
use crate::pool::types::Error;

verus! {

/// The fee that `lender` has earned and not yet had credited.
pub open spec fn pending_fees(pool: PoolState, lender: LenderState) -> int {
    fee_earned(
        lender.balance as int,
        pool.fee_per_share_universal as int,
        lender.fee_per_share_particular as int,
    )
}

/// Whether a rewards update of `lender` stays in the `i128` range.
pub open spec fn rewards_update_ok(pool: PoolState, lender: LenderState) -> bool {
    &&& fee_earned_ok(
        lender.balance as int,
        pool.fee_per_share_universal as int,
        lender.fee_per_share_particular as int,
    )
    &&& fits_i128(lender.matured + pending_fees(pool, lender))
}

/// `lender` after a rewards update: the pending fees are credited and the
/// lender's fee per share catches up with the pool's.
pub open spec fn rewards_updated(pool: PoolState, lender: LenderState) -> LenderState {
    LenderState {
        balance: lender.balance,
        fee_per_share_particular: pool.fee_per_share_universal,
        matured: (lender.matured + pending_fees(pool, lender)) as i128,
    }
}

/// Whether spreading `collected` (with the dust already held) over the
/// shares completes.
pub open spec fn universal_update_ok(pool: PoolState, collected: int) -> bool {
    &&& fits_i128(collected + pool.dust)
    &&& fee_per_share_ok(
        pool.fee_per_share_universal as int,
        collected + pool.dust,
        pool.tot_supply as int,
    )
}

/// The pool after `collected` (with the dust already held) has been spread
/// over the shares.
pub open spec fn universal_updated(pool: PoolState, collected: int) -> PoolState {
    PoolState {
        fee_per_share_universal: (pool.fee_per_share_universal + interest_by_supply(
            collected + pool.dust,
            pool.tot_supply as int,
        )) as i128,
        dust: dust_of(collected + pool.dust, pool.tot_supply as int) as i128,
        ..pool
    }
}

/// Credits the fees that `lender` has earned since their last update.
pub fn update_rewards(pool: &PoolState, lender: &mut LenderState)
    requires
        rewards_update_ok(*pool, *old(lender)),
    ensures
        *final(lender) == rewards_updated(*pool, *old(lender)),
{
    let fee_per_share_universal = pool.fee_per_share_universal;
    let lender_fees = compute_fee_earned(
        lender.balance,
        fee_per_share_universal,
        lender.fee_per_share_particular,
    );
    lender.fee_per_share_particular = fee_per_share_universal;
    lender.matured = lender.matured + lender_fees;
}

/// Tells whether `update_rewards` can run on `lender`.
pub fn rewards_update_fits(pool: &PoolState, lender: &LenderState) -> (b: bool)
    ensures
        b == rewards_update_ok(*pool, *lender),
{
    let delta = match pool.fee_per_share_universal.checked_sub(lender.fee_per_share_particular) {
        Some(d) => d,
        None => return false,
    };
    if lender.balance.checked_mul(delta).is_none() {
        return false;
    }
    let fees = compute_fee_earned(
        lender.balance,
        pool.fee_per_share_universal,
        lender.fee_per_share_particular,
    );
    lender.matured.checked_add(fees).is_some()
}

/// Spreads `collected` fees, together with the dust held from earlier
/// rounds, over the current shares.
pub fn update_fee_per_share_universal(pool: &mut PoolState, collected: i128)
    requires
        universal_update_ok(*old(pool), collected as int),
    ensures
        *final(pool) == universal_updated(*old(pool), collected as int),
{
    let accrued = collected + pool.dust;
    let (fee_per_share_universal, dust) = compute_fee_per_share(
        pool.fee_per_share_universal,
        accrued,
        pool.tot_supply,
    );
    pool.fee_per_share_universal = fee_per_share_universal;
    pool.dust = dust;
}

/// Tells whether `update_fee_per_share_universal` can run.
pub fn universal_update_fits(pool: &PoolState, collected: i128) -> (b: bool)
    ensures
        b == universal_update_ok(*pool, collected as int),
{
    let accrued = match collected.checked_add(pool.dust) {
        Some(a) => a,
        None => return false,
    };
    let supply = pool.tot_supply;
    if supply <= 0 {
        return false;
    }
    let s = stroop();
    if accrued.checked_mul(s).is_none() {
        return false;
    }
    proof {
        lemma_mul_div_fits(accrued as int, s as int, supply as int);
    }
    let ibs = match fixed_div_floor(accrued, supply, s) {
        Some(v) => v,
        None => {
            assert(false);
            0
        },
    };
    if ibs.checked_mul(supply).is_none() {
        return false;
    }
    if pool.fee_per_share_universal.checked_add(ibs).is_none() {
        return false;
    }
    proof {
        lemma_mul_div_fits(ibs as int, supply as int, s as int);
    }
    let distributed = match crate::fixed_point::fixed_mul_ceil(ibs, supply, s) {
        Some(v) => v,
        None => {
            assert(false);
            0
        },
    };
    accrued.checked_sub(distributed).is_some()
}

/// Pays out the matured fees of `lender`: returns the amount to send them
/// and clears it, or refuses when nothing has matured.
pub fn pay_matured(lender: &mut LenderState) -> (r: Result<i128, Error>)
    ensures
        old(lender).matured == 0 ==> r == Err::<i128, Error>(Error::NoFeesMatured)
            && *final(lender) == *old(lender),
        old(lender).matured != 0 ==> r == Ok::<i128, Error>(old(lender).matured)
            && *final(lender) == (LenderState { matured: 0, ..*old(lender) }),
{
    let matured = lender.matured;
    if matured == 0 {
        return Err(Error::NoFeesMatured);
    }
    lender.matured = 0;
    Ok(matured)
}

} // verus!
