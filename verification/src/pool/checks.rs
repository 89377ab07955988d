//! Guards that the pool applies before it moves funds.
use vstd::prelude::*;

use crate::pool::types::Error;

verus! {

/// Extra check, advised by the auditors against rounding effects, that the
/// pool's token balance never falls below the total supply of shares.
/// The caller reads both numbers: the balance from the token contract, the
/// supply from the pool's storage.
pub fn check_balance_ge_supply(pool_balance: i128, total_supply: i128) -> (r: Result<(), Error>)
    ensures
        pool_balance < total_supply ==> r == Err::<(), Error>(Error::BalanceLtSupply),
        pool_balance >= total_supply ==> r is Ok,
{
    if pool_balance < total_supply {
        return Err(Error::BalanceLtSupply);
    }
    Ok(())
}

/// Makes sure that an amount is strictly positive.
pub fn check_amount_gt_0(amount: i128) -> (r: Result<(), Error>)
    ensures
        amount <= 0 ==> r == Err::<(), Error>(Error::InvalidAmount),
        amount > 0 ==> r is Ok,
{
    if amount <= 0 {
        return Err(Error::InvalidAmount);
    }
    Ok(())
}

} // verus!
