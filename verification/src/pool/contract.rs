//! The pool's entry points. Each one takes the storage entries that the call
//! reads and writes, and leaves the token transfers, the authorization and
//! the events to the caller: a deposit of `amount` moves `amount` from the
//! lender into the pool; a withdrawal of `amount` shares moves `amount` from
//! the pool to the lender; a payment of matured fees moves the returned
//! amount to the lender.
//!
//! A call yields `None` where the contract traps (an arithmetic overflow, or
//! the token of an uninitialized pool), `Some(Err(..))` where it refuses, and
//! `Some(Ok(..))` where it succeeds. Whenever it does not succeed, the
//! entries are left as they were, as the ledger reverts a failed call.
use vstd::prelude::*;

use crate::arith::fits_i128;
use crate::pool::balance::{burn_ok, burn_shares, mint_ok, mint_shares};
use crate::pool::checks::check_amount_gt_0;
use crate::pool::rewards::{
    pay_matured, rewards_update_fits, rewards_update_ok, rewards_updated, universal_update_fits,
    universal_update_ok, universal_updated, update_fee_per_share_universal, update_rewards,
};
use crate::pool::storage::{LenderState, PoolState};
use crate::pool::types::Error;
use crate::pool::{compute_fee, fee_of};

verus! {

/// The pool contract.
pub struct Pool;

/// The terms of a flash loan: the amount lent and the fee owed on it.
#[derive(Clone, Copy, Debug, PartialEq, Eq, Structural)]
pub struct BorrowTerms {
    pub amount: i128,
    pub fee: i128,
}

impl BorrowTerms {
    /// What the borrower has to pay back: the amount lent and the fee.
    pub fn total(&self) -> (r: i128)
        requires
            fits_i128(self.amount + self.fee),
        ensures
            r == self.amount + self.fee,
    {
        self.amount + self.fee
    }
}

/// How a call ended, relative to what `outcome` says it does: on success the
/// entries become the ones in `outcome`, otherwise they stay as they were.
pub open spec fn applied<T>(
    outcome: Option<Result<(PoolState, LenderState, T), Error>>,
    r: Option<Result<T, Error>>,
    pool_before: PoolState,
    lender_before: LenderState,
    pool_after: PoolState,
    lender_after: LenderState,
) -> bool {
    match outcome {
        None => r is None && pool_after == pool_before && lender_after == lender_before,
        Some(Err(e)) => r == Some(Err::<T, Error>(e)) && pool_after == pool_before
            && lender_after == lender_before,
        Some(Ok((p, l, v))) => r == Some(Ok::<T, Error>(v)) && pool_after == p && lender_after == l,
    }
}

/// A deposit of `amount` by `lender`: the lender's rewards are brought up to
/// date first, so that the new liquidity earns nothing of the fees collected
/// before it, then `amount` shares are minted to the lender.
pub open spec fn deposit_outcome(pool: PoolState, lender: LenderState, amount: int) -> Option<
    Result<(PoolState, LenderState, ()), Error>,
> {
    if amount <= 0 {
        Some(Err(Error::InvalidAmount))
    } else if !rewards_update_ok(pool, lender) || !pool.initialized {
        None
    } else if !mint_ok(pool, rewards_updated(pool, lender), amount) {
        None
    } else {
        let updated = rewards_updated(pool, lender);
        Some(
            Ok(
                (
                    PoolState { tot_supply: (pool.tot_supply + amount) as i128, ..pool },
                    LenderState { balance: (updated.balance + amount) as i128, ..updated },
                    (),
                ),
            ),
        )
    }
}

/// A withdrawal of `amount` shares by `lender`: refused for a non-positive
/// amount or one above the lender's shares; otherwise the rewards are
/// brought up to date (the matured fees stay in the pool) and the shares are
/// burned.
pub open spec fn withdraw_outcome(pool: PoolState, lender: LenderState, amount: int) -> Option<
    Result<(PoolState, LenderState, ()), Error>,
> {
    if amount <= 0 {
        Some(Err(Error::InvalidAmount))
    } else if lender.balance < amount {
        Some(Err(Error::InvalidShareBalance))
    } else if !rewards_update_ok(pool, lender) || !pool.initialized {
        None
    } else if !burn_ok(pool, rewards_updated(pool, lender), amount) {
        None
    } else {
        let updated = rewards_updated(pool, lender);
        Some(
            Ok(
                (
                    PoolState { tot_supply: (pool.tot_supply - amount) as i128, ..pool },
                    LenderState { balance: (updated.balance - amount) as i128, ..updated },
                    (),
                ),
            ),
        )
    }
}

/// A rewards update of `lender`, which anyone may ask for.
pub open spec fn update_fee_rewards_outcome(pool: PoolState, lender: LenderState) -> Option<
    Result<(PoolState, LenderState, ()), Error>,
> {
    if !rewards_update_ok(pool, lender) {
        None
    } else {
        Some(Ok((pool, rewards_updated(pool, lender), ())))
    }
}

/// A payment of the matured fees of `lender`, which are returned.
pub open spec fn withdraw_matured_outcome(pool: PoolState, lender: LenderState) -> Option<
    Result<(PoolState, LenderState, i128), Error>,
> {
    if !pool.initialized {
        None
    } else if lender.matured == 0 {
        Some(Err(Error::NoFeesMatured))
    } else {
        Some(Ok((pool, LenderState { matured: 0, ..lender }, lender.matured)))
    }
}

/// The terms on which the pool lends `amount`.
pub open spec fn borrow_terms_outcome(pool: PoolState, amount: int) -> Option<
    Result<BorrowTerms, Error>,
> {
    if !pool.initialized {
        Some(Err(Error::NotInitialized))
    } else if !fits_i128(amount * 10_000_000) || !fits_i128(amount + fee_of(amount)) {
        None
    } else {
        Some(Ok(BorrowTerms { amount: amount as i128, fee: fee_of(amount) as i128 }))
    }
}

/// The end of a flash loan on `terms`: refused when the borrower did not
/// pay back the amount and the fee; otherwise the fee is spread over the
/// shares.
pub open spec fn repay_outcome(pool: PoolState, terms: BorrowTerms, repaid: bool) -> Option<
    Result<PoolState, Error>,
> {
    if !repaid {
        Some(Err(Error::LoanNotRepaid))
    } else if !universal_update_ok(pool, terms.fee as int) {
        None
    } else {
        Some(Ok(universal_updated(pool, terms.fee as int)))
    }
}

/// Turns the result of the borrower's repayment transfer into the loan's
/// result.
pub fn transfer_from_to_pool(transfer_succeeded: bool) -> (r: Result<(), Error>)
    ensures
        transfer_succeeded ==> r is Ok,
        !transfer_succeeded ==> r == Err::<(), Error>(Error::LoanNotRepaid),
{
    if transfer_succeeded {
        Ok(())
    } else {
        Err(Error::LoanNotRepaid)
    }
}

/// Settles a flash loan on `terms` once the pool has tried to pull back the
/// amount and the fee from the borrower; `repaid` tells whether that
/// transfer went through.
pub fn try_repay(pool: &mut PoolState, terms: BorrowTerms, repaid: bool) -> (r: Option<
    Result<(), Error>,
>)
    ensures
        match repay_outcome(*old(pool), terms, repaid) {
            None => r is None && *final(pool) == *old(pool),
            Some(Err(e)) => r == Some(Err::<(), Error>(e)) && *final(pool) == *old(pool),
            Some(Ok(p)) => r == Some(Ok::<(), Error>(())) && *final(pool) == p,
        },
{
    if let Err(e) = transfer_from_to_pool(repaid) {
        return Some(Err(e));
    }
    if !universal_update_fits(pool, terms.fee) {
        return None;
    }
    update_fee_per_share_universal(pool, terms.fee);
    Some(Ok(()))
}

impl Pool {
    /// Sets the pool up; it can be done once only.
    pub fn initialize(pool: &mut PoolState) -> (r: Result<(), Error>)
        ensures
            old(pool).initialized ==> r == Err::<(), Error>(Error::AlreadyInitialized)
                && *final(pool) == *old(pool),
            !old(pool).initialized ==> r is Ok && *final(pool) == (PoolState {
                initialized: true,
                ..*old(pool)
            }),
    {
        if pool.initialized {
            return Err(Error::AlreadyInitialized);
        }
        pool.initialized = true;
        Ok(())
    }

    /// Deposits `amount` of the pool's token for `lender` and mints them as
    /// many shares.
    pub fn deposit(pool: &mut PoolState, lender: &mut LenderState, amount: i128) -> (r: Option<
        Result<(), Error>,
    >)
        ensures
            applied(
                deposit_outcome(*old(pool), *old(lender), amount as int),
                r,
                *old(pool),
                *old(lender),
                *final(pool),
                *final(lender),
            ),
    {
        if let Err(e) = check_amount_gt_0(amount) {
            return Some(Err(e));
        }
        if !rewards_update_fits(pool, lender) || !pool.initialized {
            return None;
        }
        let mut updated = *lender;
        update_rewards(pool, &mut updated);
        if pool.tot_supply.checked_add(amount).is_none() || updated.balance.checked_add(
            amount,
        ).is_none() {
            return None;
        }
        mint_shares(pool, &mut updated, amount);
        *lender = updated;
        Some(Ok(()))
    }

    /// Brings the rewards of `lender` up to date.
    pub fn update_fee_rewards(pool: &PoolState, lender: &mut LenderState) -> (r: Option<
        Result<(), Error>,
    >)
        ensures
            applied(
                update_fee_rewards_outcome(*pool, *old(lender)),
                r,
                *pool,
                *old(lender),
                *pool,
                *final(lender),
            ),
    {
        if !rewards_update_fits(pool, lender) {
            return None;
        }
        update_rewards(pool, lender);
        Some(Ok(()))
    }

    /// Pays out the matured fees of `lender`; the result is the amount to
    /// send to the lender.
    pub fn withdraw_matured(pool: &PoolState, lender: &mut LenderState) -> (r: Option<
        Result<i128, Error>,
    >)
        ensures
            applied(
                withdraw_matured_outcome(*pool, *old(lender)),
                r,
                *pool,
                *old(lender),
                *pool,
                *final(lender),
            ),
    {
        if !pool.initialized {
            return None;
        }
        Some(pay_matured(lender))
    }

    /// Burns `amount` of the shares of `lender`, against which the pool
    /// pays back `amount` of its token.
    pub fn withdraw(pool: &mut PoolState, lender: &mut LenderState, amount: i128) -> (r: Option<
        Result<(), Error>,
    >)
        ensures
            applied(
                withdraw_outcome(*old(pool), *old(lender), amount as int),
                r,
                *old(pool),
                *old(lender),
                *final(pool),
                *final(lender),
            ),
    {
        if let Err(e) = check_amount_gt_0(amount) {
            return Some(Err(e));
        }
        if lender.balance < amount {
            return Some(Err(Error::InvalidShareBalance));
        }
        if !rewards_update_fits(pool, lender) || !pool.initialized {
            return None;
        }
        let mut updated = *lender;
        update_rewards(pool, &mut updated);
        if pool.tot_supply.checked_sub(amount).is_none() || updated.balance.checked_sub(
            amount,
        ).is_none() {
            return None;
        }
        burn_shares(pool, &mut updated, amount);
        *lender = updated;
        Some(Ok(()))
    }

    /// The shares that `lender` holds.
    pub fn shares(lender: &LenderState) -> (r: i128)
        ensures
            r == lender.balance,
    {
        lender.balance
    }

    /// The matured fees of `lender`.
    pub fn matured(lender: &LenderState) -> (r: i128)
        ensures
            r == lender.matured,
    {
        lender.matured
    }

    /// Opens a flash loan of `amount`: the terms on which the pool lends it.
    /// The caller then sends `amount` to the receiver, invokes it, tries to
    /// pull back `terms.total()` and settles the loan with `try_repay`.
    pub fn borrow(pool: &PoolState, amount: i128) -> (r: Option<Result<BorrowTerms, Error>>)
        ensures
            r == borrow_terms_outcome(*pool, amount as int),
    {
        if !pool.initialized {
            return Some(Err(Error::NotInitialized));
        }
        if amount.checked_mul(10_000_000).is_none() {
            return None;
        }
        let fee = compute_fee(&amount);
        if amount.checked_add(fee).is_none() {
            return None;
        }
        Some(Ok(BorrowTerms { amount, fee }))
    }
}

} // verus!
