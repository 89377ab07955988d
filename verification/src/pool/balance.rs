//! Minting and burning lender shares.
use vstd::prelude::*;

use crate::arith::fits_i128;
use crate::pool::storage::{LenderState, PoolState};

verus! {

/// Whether `shares` can be minted without leaving the `i128` range.
pub open spec fn mint_ok(pool: PoolState, lender: LenderState, shares: int) -> bool {
    fits_i128(pool.tot_supply + shares) && fits_i128(lender.balance + shares)
}

/// Whether `shares` can be burned without leaving the `i128` range.
pub open spec fn burn_ok(pool: PoolState, lender: LenderState, shares: int) -> bool {
    fits_i128(pool.tot_supply - shares) && fits_i128(lender.balance - shares)
}

/// Adds `shares` to the total supply and to the lender's balance.
pub fn mint_shares(pool: &mut PoolState, lender: &mut LenderState, shares: i128)
    requires
        mint_ok(*old(pool), *old(lender), shares as int),
    ensures
        *final(pool) == (PoolState { tot_supply: (old(pool).tot_supply + shares) as i128, ..*old(pool) }),
        *final(lender) == (LenderState { balance: (old(lender).balance + shares) as i128, ..*old(lender) }),
{
    pool.tot_supply = pool.tot_supply + shares;
    lender.balance = lender.balance + shares;
}

/// Takes `shares` off the total supply and off the lender's balance.
pub fn burn_shares(pool: &mut PoolState, lender: &mut LenderState, shares: i128)
    requires
        burn_ok(*old(pool), *old(lender), shares as int),
    ensures
        *final(pool) == (PoolState { tot_supply: (old(pool).tot_supply - shares) as i128, ..*old(pool) }),
        *final(lender) == (LenderState { balance: (old(lender).balance - shares) as i128, ..*old(lender) }),
{
    pool.tot_supply = pool.tot_supply - shares;
    lender.balance = lender.balance - shares;
}

} // verus!
