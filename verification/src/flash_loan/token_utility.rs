//! The fee of the flash loan and the handling of the repayment transfer.
use vstd::prelude::*;

use crate::arith::{div_trunc, tdiv};
use crate::flash_loan::types::Error;

verus! {

/// The fee on a loan of `amount`: 0.05%, rounded toward zero.
pub open spec fn fee_of(amount: int) -> int {
    tdiv(amount, 2000)
}

/// The fee on a loan of `amount`.
pub fn compute_fee(amount: &i128) -> (r: i128)
    ensures
        r == fee_of(*amount as int),
{
    div_trunc(*amount, 2000)
}

/// Turns the result of pulling the amount and the fee back from the
/// borrower into the loan's result.
pub fn xfer_from_to_fl(transfer_succeeded: bool) -> (r: Result<(), Error>)
    ensures
        transfer_succeeded ==> r is Ok,
        !transfer_succeeded ==> r == Err::<(), Error>(Error::LoanNotRepaid),
{
    if transfer_succeeded {
        Ok(())
    } else {
        Err(Error::LoanNotRepaid)
    }
}

/// The fee on a loan never exceeds one two-thousandth of it and is never
/// negative for a non-negative amount.
pub proof fn lemma_fee_bounds(amount: int)
    requires
        amount >= 0,
    ensures
        0 <= fee_of(amount),
        fee_of(amount) * 2000 <= amount < (fee_of(amount) + 1) * 2000,
{
    assert(0 <= amount / 2000 && (amount / 2000) * 2000 <= amount < (amount / 2000 + 1) * 2000)
        by (nonlinear_arith)
        requires
            amount >= 0,
    ;
}

} // verus!
