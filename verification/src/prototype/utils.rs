//! The prototype's fee, its bookkeeping of the liquidity providers'
//! deposits, and the handling of its transfers' results.
use vstd::prelude::*;

use crate::arith::{div_trunc, fits_i128, tdiv};
use crate::prototype::types::Error;

verus! {

/// The fee on a loan of `amount`: five basis points, `5 * amount / 10000`,
/// rounded toward zero.
pub open spec fn fee_of(amount: int) -> int {
    tdiv(5 * amount, 10000)
}

/// Five basis points of `amount` are its two-thousandth part, rounded the
/// same way.
proof fn lemma_fee_is_two_thousandth(amount: int)
    ensures
        fee_of(amount) == tdiv(amount, 2000),
{
    if amount >= 0 {
        assert((5 * amount) / 10000 == amount / 2000) by (nonlinear_arith)
            requires
                amount >= 0,
        ;
    } else {
        assert((-(5 * amount)) / 10000 == (-amount) / 2000) by (nonlinear_arith)
            requires
                amount < 0,
        ;
    }
}

/// The fee on a loan of `amount`.
pub fn compute_fee(amount: &i128) -> (r: i128)
    ensures
        r == fee_of(*amount as int),
{
    proof {
        lemma_fee_is_two_thousandth(*amount as int);
    }
    div_trunc(*amount, 2000)
}

/// Turns the result of a transfer out of the pool into the call's result.
pub fn vault_xfer(transfer_succeeded: bool) -> (r: Result<(), Error>)
    ensures
        transfer_succeeded ==> r is Ok,
        !transfer_succeeded ==> r == Err::<(), Error>(Error::GenericLend),
{
    if transfer_succeeded {
        Ok(())
    } else {
        Err(Error::GenericLend)
    }
}

/// Turns the result of pulling funds into the pool into the call's result.
pub fn xfer_in_pool(transfer_succeeded: bool) -> (r: Result<(), Error>)
    ensures
        transfer_succeeded ==> r is Ok,
        !transfer_succeeded ==> r == Err::<(), Error>(Error::GenericRepay),
{
    if transfer_succeeded {
        Ok(())
    } else {
        Err(Error::GenericRepay)
    }
}

/// The repayment of a loan of `amount`: the borrower owes the amount and
/// the fee; once pulled back, the fee goes on to the fee vault.
/// `pulled_back` and `fee_forwarded` tell whether those two transfers went
/// through. `None` where the repaid total overflows.
pub fn try_repay(amount: &i128, pulled_back: bool, fee_forwarded: bool) -> (r: Option<
    Result<(), Error>,
>)
    ensures
        !fits_i128(*amount + fee_of(*amount as int)) ==> r is None,
        fits_i128(*amount + fee_of(*amount as int)) ==> r == Some(
            if !pulled_back {
                Err::<(), Error>(Error::GenericRepay)
            } else if !fee_forwarded {
                Err::<(), Error>(Error::GenericLend)
            } else {
                Ok::<(), Error>(())
            },
        ),
{
    let fees = compute_fee(amount);
    if amount.checked_add(fees).is_none() {
        return None;
    }
    if let Err(e) = xfer_in_pool(pulled_back) {
        return Some(Err(e));
    }
    if let Err(e) = vault_xfer(fee_forwarded) {
        return Some(Err(e));
    }
    Some(Ok(()))
}

/// A liquidity provider's recorded deposit; one never recorded reads as
/// zero.
pub fn get_deposit(recorded: Option<i128>) -> (r: i128)
    ensures
        recorded matches Some(d) ==> r == d,
        recorded is None ==> r == 0,
{
    match recorded {
        Some(d) => d,
        None => 0,
    }
}

/// Adds `amount` to a liquidity provider's recorded deposit.
pub fn set_deposit(recorded: &mut Option<i128>, amount: i128)
    requires
        fits_i128(get_deposit_spec(*old(recorded)) + amount),
    ensures
        *final(recorded) == Some((get_deposit_spec(*old(recorded)) + amount) as i128),
{
    let current_deposit = get_deposit(*recorded);
    *recorded = Some(current_deposit + amount);
}

/// A liquidity provider's recorded deposit, zero when none is recorded.
pub open spec fn get_deposit_spec(recorded: Option<i128>) -> int {
    match recorded {
        Some(d) => d as int,
        None => 0,
    }
}

/// Forgets a liquidity provider's recorded deposit.
pub fn remove_deposit(recorded: &mut Option<i128>)
    ensures
        *final(recorded) is None,
{
    *recorded = None;
}

} // verus!
