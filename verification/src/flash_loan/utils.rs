//! The helpers of the flash loan's first release, which charged its fee in
//! basis points and told lending failures from repayment failures.
use vstd::prelude::*;

use crate::arith::{div_trunc, fits_i128, tdiv};
use crate::flash_loan::types::Error;

verus! {

/// The fee on a loan of `amount`: five basis points, rounded toward zero.
pub open spec fn fee_of(amount: int) -> int {
    tdiv(5 * amount, 10000)
}

/// The fee on a loan of `amount`.
pub fn compute_fee(amount: &i128) -> (r: i128)
    requires
        fits_i128(5 * *amount),
    ensures
        r == fee_of(*amount as int),
{
    div_trunc(5 * *amount, 10000)
}

/// Turns the result of a transfer out of the flash loan into the call's
/// result.
pub fn transfer(transfer_succeeded: bool) -> (r: Result<(), Error>)
    ensures
        transfer_succeeded ==> r is Ok,
        !transfer_succeeded ==> r == Err::<(), Error>(Error::GenericLend),
{
    if transfer_succeeded {
        Ok(())
    } else {
        Err(Error::GenericLend)
    }
}

/// Turns the result of pulling a repayment into the flash loan into the
/// call's result.
pub fn xfer_from_to_fl(transfer_succeeded: bool) -> (r: Result<(), Error>)
    ensures
        transfer_succeeded ==> r is Ok,
        !transfer_succeeded ==> r == Err::<(), Error>(Error::GenericRepay),
{
    if transfer_succeeded {
        Ok(())
    } else {
        Err(Error::GenericRepay)
    }
}

/// The repayment of a loan of `amount`: the borrower owes the amount and
/// the fee; once pulled back, the fee goes on to the liquidity provider.
/// `pulled_back` and `fee_forwarded` tell whether those two transfers went
/// through. `None` where the repaid total overflows.
pub fn try_repay(amount: &i128, pulled_back: bool, fee_forwarded: bool) -> (r: Option<
    Result<(), Error>,
>)
    requires
        fits_i128(5 * *amount),
    ensures
        !fits_i128(*amount + fee_of(*amount as int)) ==> r is None,
        fits_i128(*amount + fee_of(*amount as int)) ==> r == Some(
            if !pulled_back {
                Err::<(), Error>(Error::GenericRepay)
            } else if !fee_forwarded {
                Err::<(), Error>(Error::GenericLend)
            } else {
                Ok::<(), Error>(())
            },
        ),
{
    let fees = compute_fee(amount);
    if amount.checked_add(fees).is_none() {
        return None;
    }
    if let Err(e) = xfer_from_to_fl(pulled_back) {
        return Some(Err(e));
    }
    if let Err(e) = transfer(fee_forwarded) {
        return Some(Err(e));
    }
    Some(Ok(()))
}

} // verus!
