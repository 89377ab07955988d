//! The flash loan's entry points. Each one takes whether the contract is
//! initialized; the transfers, the receiver's invocation, the
//! authorization of the liquidity provider and the events are left to the
//! caller.
use vstd::prelude::*;

use crate::arith::fits_i128;
use crate::flash_loan::token_utility::{compute_fee, fee_of, xfer_from_to_fl};
use crate::flash_loan::types::Error;

verus! {

/// The storage entries of the flash loan that its logic reads.
#[derive(Clone, Copy, Debug, PartialEq, Eq, Structural)]
pub struct FlashLoanState {
    /// Whether the token and the liquidity provider have been set.
    pub initialized: bool,
}

/// The terms of a loan: the amount lent and the fee owed on it.
#[derive(Clone, Copy, Debug, PartialEq, Eq, Structural)]
pub struct LoanTerms {
    pub amount: i128,
    pub fee: i128,
}

/// The constructor of the flash loan.
pub struct FlashLoanCommon;

/// The borrowers' side of the flash loan.
pub struct FlashLoanBorrow;

/// The liquidity provider's side of the flash loan.
pub struct FlashLoanLender;

impl FlashLoanCommon {
    /// Sets the token and the liquidity provider; it can be done once only.
    pub fn init(state: &mut FlashLoanState) -> (r: Result<(), Error>)
        ensures
            old(state).initialized ==> r == Err::<(), Error>(Error::AlreadyInitialized)
                && *final(state) == *old(state),
            !old(state).initialized ==> r is Ok && final(state).initialized,
    {
        if state.initialized {
            return Err(Error::AlreadyInitialized);
        }
        state.initialized = true;
        Ok(())
    }
}

impl FlashLoanBorrow {
    /// Opens a loan of `amount`: the terms on which it is lent. `None` where
    /// the contract traps because the amount and the fee overflow. The
    /// caller sends `amount` to the receiver, invokes it, and tries to pull
    /// back the amount and the fee.
    pub fn borrow(state: &FlashLoanState, amount: i128) -> (r: Option<Result<LoanTerms, Error>>)
        ensures
            !state.initialized ==> r == Some(Err::<LoanTerms, Error>(Error::NotInitialized)),
            state.initialized && !fits_i128(amount + fee_of(amount as int)) ==> r is None,
            state.initialized && fits_i128(amount + fee_of(amount as int)) ==> r == Some(
                Ok::<LoanTerms, Error>(LoanTerms { amount, fee: fee_of(amount as int) as i128 }),
            ),
    {
        if !state.initialized {
            return Some(Err(Error::NotInitialized));
        }
        let fee = compute_fee(&amount);
        if amount.checked_add(fee).is_none() {
            return None;
        }
        Some(Ok(LoanTerms { amount, fee }))
    }

    /// Ends a loan once the flash loan has tried to pull back the amount and
    /// the fee: refused when that transfer failed; otherwise the fee goes on
    /// to the liquidity provider's vault, and the result is that fee.
    pub fn try_repay(terms: LoanTerms, repaid: bool) -> (r: Result<i128, Error>)
        ensures
            !repaid ==> r == Err::<i128, Error>(Error::LoanNotRepaid),
            repaid ==> r == Ok::<i128, Error>(terms.fee),
    {
        xfer_from_to_fl(repaid)?;
        Ok(terms.fee)
    }
}

impl FlashLoanLender {
    /// Lets the liquidity provider withdraw `amount`; refused before
    /// initialization. The result is the amount to send.
    pub fn withdraw(state: &FlashLoanState, amount: i128) -> (r: Result<i128, Error>)
        ensures
            !state.initialized ==> r == Err::<i128, Error>(Error::NotInitialized),
            state.initialized ==> r == Ok::<i128, Error>(amount),
    {
        if !state.initialized {
            return Err(Error::NotInitialized);
        }
        Ok(amount)
    }
}

} // verus!
