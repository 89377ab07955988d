//! The prototype's entry points. The signatures, the transfers, the
//! receiver's invocation and the calls into the fee vault are left to the
//! caller, which passes in what the logic reads.
use vstd::prelude::*;

use crate::arith::fits_i128;
use crate::prototype::types::Error;
use crate::prototype::utils::{
    compute_fee, fee_of, get_deposit, get_deposit_spec, remove_deposit, set_deposit, vault_xfer,
    xfer_in_pool,
};

verus! {

/// The storage entries of the prototype that its logic reads.
#[derive(Clone, Copy, Debug, PartialEq, Eq, Structural)]
pub struct ProtoState {
    /// Whether the token and the fee vault have been set.
    pub initialized: bool,
}

/// The terms of a loan: the amount lent and the fee owed on it.
#[derive(Clone, Copy, Debug, PartialEq, Eq, Structural)]
pub struct LoanTerms {
    pub amount: i128,
    pub fee: i128,
}

/// The constructor of the prototype.
pub struct FlashLoanCommon;

/// The borrowers' side of the prototype.
pub struct FlashLoanBorrow;

/// The liquidity providers' side of the prototype.
pub struct FlashLoanLender;

impl FlashLoanCommon {
    /// Sets the token and the fee vault; it can be done once only.
    pub fn init(state: &mut ProtoState) -> (r: Result<(), Error>)
        ensures
            old(state).initialized ==> r == Err::<(), Error>(Error::ContractAlreadyInitialized)
                && *final(state) == *old(state),
            !old(state).initialized ==> r is Ok && final(state).initialized,
    {
        if state.initialized {
            return Err(Error::ContractAlreadyInitialized);
        }
        state.initialized = true;
        Ok(())
    }
}

impl FlashLoanBorrow {
    /// Opens a loan of `amount` to a receiver, which must be a contract:
    /// the terms on which it is lent. `None` where the repaid total
    /// overflows.
    pub fn borrow(state: &ProtoState, receiver_is_contract: bool, amount: i128) -> (r: Option<
        Result<LoanTerms, Error>,
    >)
        ensures
            !state.initialized ==> r == Some(Err::<LoanTerms, Error>(Error::Generic)),
            state.initialized && !receiver_is_contract ==> r == Some(
                Err::<LoanTerms, Error>(Error::Generic),
            ),
            state.initialized && receiver_is_contract && !fits_i128(amount + fee_of(amount as int))
                ==> r is None,
            state.initialized && receiver_is_contract && fits_i128(amount + fee_of(amount as int))
                ==> r == Some(
                Ok::<LoanTerms, Error>(LoanTerms { amount, fee: fee_of(amount as int) as i128 }),
            ),
    {
        if !state.initialized {
            return Some(Err(Error::Generic));
        }
        if !receiver_is_contract {
            return Some(Err(Error::Generic));
        }
        let fee = compute_fee(&amount);
        if amount.checked_add(fee).is_none() {
            return None;
        }
        Some(Ok(LoanTerms { amount, fee }))
    }
}

impl FlashLoanLender {
    /// Records a deposit of `amount` by a liquidity provider, once the pool
    /// has tried to pull it in; `pulled_in` tells whether that transfer went
    /// through. `None` where the recorded deposit overflows.
    pub fn prov_liq(state: &ProtoState, recorded: &mut Option<i128>, amount: i128, pulled_in: bool) -> (r: Option<
        Result<(), Error>,
    >)
        ensures
            !state.initialized ==> r == Some(Err::<(), Error>(Error::Generic))
                && *final(recorded) == *old(recorded),
            state.initialized && !pulled_in ==> r == Some(Err::<(), Error>(Error::GenericRepay))
                && *final(recorded) == *old(recorded),
            state.initialized && pulled_in && !fits_i128(get_deposit_spec(*old(recorded)) + amount)
                ==> r is None && *final(recorded) == *old(recorded),
            state.initialized && pulled_in && fits_i128(get_deposit_spec(*old(recorded)) + amount)
                ==> r == Some(Ok::<(), Error>(())) && *final(recorded) == Some(
                (get_deposit_spec(*old(recorded)) + amount) as i128,
            ),
    {
        if !state.initialized {
            return Some(Err(Error::Generic));
        }
        if let Err(e) = xfer_in_pool(pulled_in) {
            return Some(Err(e));
        }
        if get_deposit(*recorded).checked_add(amount).is_none() {
            return None;
        }
        set_deposit(recorded, amount);
        Some(Ok(()))
    }

    /// A liquidity provider's withdrawal of their recorded deposit, once
    /// the pool has tried to send them `get_deposit(*recorded)`; `paid_out`
    /// tells whether that transfer went through. On success the result is
    /// the amount sent and the recorded deposit is forgotten; a failed
    /// transfer is refused with `GenericLend` and changes nothing.
    pub fn withdraw(state: &ProtoState, recorded: &mut Option<i128>, paid_out: bool) -> (r: Result<
        i128,
        Error,
    >)
        ensures
            !state.initialized ==> r == Err::<i128, Error>(Error::Generic)
                && *final(recorded) == *old(recorded),
            state.initialized && !paid_out ==> r == Err::<i128, Error>(Error::GenericLend)
                && *final(recorded) == *old(recorded),
            state.initialized && paid_out ==> r == Ok::<i128, Error>(
                get_deposit_spec(*old(recorded)) as i128,
            ) && *final(recorded) is None,
    {
        if !state.initialized {
            return Err(Error::Generic);
        }
        let deposit_amount = get_deposit(*recorded);
        vault_xfer(paid_out)?;
        remove_deposit(recorded);
        Ok(deposit_amount)
    }

    /// Lets a liquidity provider withdraw the fees of `shares` from the fee
    /// vault; refused before initialization.
    pub fn width_fee(state: &ProtoState, shares: i128) -> (r: Result<i128, Error>)
        ensures
            !state.initialized ==> r == Err::<i128, Error>(Error::Generic),
            state.initialized ==> r == Ok::<i128, Error>(shares),
    {
        if !state.initialized {
            return Err(Error::Generic);
        }
        Ok(shares)
    }
}

} // verus!
