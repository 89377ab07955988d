//! The vault's entry points. Each one takes the storage entries that the
//! call reads and writes, whether the caller passed the vault's
//! administrator (who must also authorize the call), and the combined token
//! balance of the vault and its flash loan where the call reads it. The
//! token transfers are left to the caller: a deposit of `amount` moves
//! `amount` from the lender into the flash loan; a fee withdrawal moves the
//! returned fee from the vault to the lender; a withdrawal moves the first
//! returned amount (the lender's deposit) out of the flash loan and the
//! second (the fees) out of the vault to the lender.
//!
//! A call yields `None` where the contract traps (a division by zero or an
//! arithmetic overflow), `Some(Err(..))` where it refuses, and `Some(Ok(..))`
//! where it succeeds; the entries change only when it succeeds.
use vstd::prelude::*;

use crate::arith::{div_ok, div_trunc, fits_i128, tdiv};
use crate::flash_loan_vault::math::{
    compute_deposit_ratio, compute_fee_amount, compute_shares_amount, deposit_ratio,
    deposit_ratio_fits, deposit_ratio_ok, fee_amount, fee_amount_fits, fee_amount_ok,
    shares_amount, shares_amount_fits, shares_amount_ok,
};
use crate::flash_loan_vault::storage::{
    batch_at, burn_shares, burned_batch, get_batch, get_increment, mint_shares, new_batch,
    BookView, LenderBook, VaultState,
};
use crate::flash_loan_vault::types::{BatchObj, Error};

verus! {

/// The vault contract.
pub struct VaultContract;

/// Refuses a call made without the vault's administrator.
pub fn auth_admin(is_admin: bool) -> (r: Result<(), Error>)
    ensures
        is_admin ==> r is Ok,
        !is_admin ==> r == Err::<(), Error>(Error::InvalidAdminAuth),
{
    if is_admin {
        Ok(())
    } else {
        Err(Error::InvalidAdminAuth)
    }
}

/// How a call ended, relative to what `outcome` says it does.
pub open spec fn applied<T>(
    outcome: Option<Result<(VaultState, BookView, T), Error>>,
    r: Option<Result<T, Error>>,
    vault_before: VaultState,
    book_before: BookView,
    vault_after: VaultState,
    book_after: BookView,
) -> bool {
    match outcome {
        None => r is None && vault_after == vault_before && book_after.batches
            == book_before.batches && book_after.initial_deposit == book_before.initial_deposit,
        Some(Err(e)) => r == Some(Err::<T, Error>(e)) && vault_after == vault_before
            && book_after.batches == book_before.batches && book_after.initial_deposit
            == book_before.initial_deposit,
        Some(Ok((v, b, x))) => r == Some(Ok::<T, Error>(x)) && vault_after == v
            && book_after.batches == b.batches && book_after.initial_deposit == b.initial_deposit,
    }
}

/// A deposit of `amount` by the lender while the vault and the flash loan
/// hold `balance` together: the lender gets a new batch of shares priced at
/// the current balance (one share per unit for the first deposit ever), and
/// their recorded deposit grows by `amount`. The result is the new batch's
/// number.
pub open spec fn deposit_outcome(
    vault: VaultState,
    book: BookView,
    is_admin: bool,
    amount: int,
    balance: int,
) -> Option<Result<(VaultState, BookView, i128), Error>> {
    if !is_admin {
        Some(Err(Error::InvalidAdminAuth))
    } else if vault.tot_supply != 0 && !shares_amount_ok(amount, vault.tot_supply as int, balance) {
        None
    } else {
        let shares = if vault.tot_supply == 0 {
            amount
        } else {
            shares_amount(amount, vault.tot_supply as int, balance)
        };
        if !fits_i128(vault.tot_supply + shares) {
            None
        } else if book.batches.len() != 0 && !fits_i128(book.initial_deposit + amount) {
            None
        } else {
            Some(
                Ok(
                    (
                        VaultState { tot_supply: (vault.tot_supply + shares) as i128, ..vault },
                        BookView {
                            batches: book.batches.push(Some(new_batch(shares, amount))),
                            initial_deposit: if book.batches.len() != 0 {
                                book.initial_deposit + amount
                            } else {
                                amount
                            },
                        },
                        book.batches.len() as i128,
                    ),
                ),
            )
        }
    }
}

/// The shares minted back after a fee withdrawal from the deposit part
/// `new_deposit` of the burned shares, when `total_supply` shares stood for
/// `total_balance` before the withdrawal of `fee`.
pub open spec fn reminted_shares(
    new_deposit: int,
    burned: int,
    total_supply: int,
    total_balance: int,
    fee: int,
) -> Option<int> {
    let new_tot_supply = total_supply - burned;
    let new_tot_bal = total_balance - fee;
    if !fits_i128(new_tot_bal) {
        None
    } else if total_balance != new_deposit {
        if !fits_i128(new_tot_bal - new_deposit) || !shares_amount_ok(
            new_deposit,
            new_tot_supply,
            new_tot_bal - new_deposit,
        ) {
            None
        } else {
            Some(shares_amount(new_deposit, new_tot_supply, new_tot_bal - new_deposit))
        }
    } else {
        if !shares_amount_ok(new_deposit, total_supply, new_deposit) {
            None
        } else {
            Some(shares_amount(new_deposit, total_supply, new_deposit))
        }
    }
}

/// A fee withdrawal on `shares` of the lender's batch `batch_n` while the
/// vault and the flash loan hold `total_balance`: the lender is paid what
/// the shares are worth beyond the part of the batch's deposit they stand
/// for, the shares are burned, and that deposit part is minted back as a new
/// batch at the new price. The result is the fee paid.
pub open spec fn withdraw_fee_outcome(
    vault: VaultState,
    book: BookView,
    is_admin: bool,
    batch_n: int,
    shares: int,
    total_balance: int,
) -> Option<Result<(VaultState, BookView, i128), Error>> {
    if !is_admin {
        Some(Err(Error::InvalidAdminAuth))
    } else {
        match batch_at(book, batch_n) {
            None => Some(Err(Error::BatchDoesntExist)),
            Some(batch) => {
                let supply = vault.tot_supply as int;
                if batch.curr_s < shares {
                    Some(Err(Error::InvalidShareBalance))
                } else if !deposit_ratio_ok(batch.deposit as int, shares, batch.init_s as int) {
                    None
                } else {
                    let new_deposit = deposit_ratio(batch.deposit as int, shares, batch.init_s as int);
                    if !fee_amount_ok(new_deposit, shares, supply, total_balance) {
                        None
                    } else {
                        let fee = fee_amount(new_deposit, shares, supply, total_balance);
                        if !fits_i128(batch.curr_s - shares) || !fits_i128(supply - shares) {
                            None
                        } else {
                            match reminted_shares(new_deposit, shares, supply, total_balance, fee) {
                                None => None,
                                Some(new_shares) => if !fits_i128(supply - shares + new_shares) {
                                    None
                                } else {
                                    Some(
                                        Ok(
                                            (
                                                VaultState {
                                                    tot_supply: (supply - shares + new_shares) as i128,
                                                    ..vault
                                                },
                                                BookView {
                                                    batches: book.batches.update(
                                                        batch_n,
                                                        burned_batch(batch, shares),
                                                    ).push(Some(new_batch(new_shares, new_deposit))),
                                                    initial_deposit: book.initial_deposit,
                                                },
                                                fee as i128,
                                            ),
                                        ),
                                    )
                                },
                            }
                        }
                    }
                }
            },
        }
    }
}

/// One batch's turn in a full withdrawal. The running values are the fees
/// paid so far, the supply and the balance as the withdrawal reckons them,
/// and the vault's actual supply.
pub open spec fn withdraw_step(batch: BatchObj, acc: (int, int, int, int)) -> Option<
    (int, int, int, int),
> {
    let (amount, temp_supply, temp_balance, supply) = acc;
    let shares = batch.curr_s as int;
    if !deposit_ratio_ok(batch.deposit as int, shares, batch.init_s as int) {
        None
    } else {
        let new_deposit = deposit_ratio(batch.deposit as int, shares, batch.init_s as int);
        if !fee_amount_ok(new_deposit, shares, temp_supply, temp_balance) {
            None
        } else {
            let fee = fee_amount(new_deposit, shares, temp_supply, temp_balance);
            let amount1 = amount + fee;
            let balance1 = temp_balance - fee;
            let supply1 = temp_supply - shares;
            let actual = supply - shares;
            let divisor = if balance1 != new_deposit {
                balance1 - new_deposit
            } else {
                new_deposit
            };
            if !fits_i128(amount1) || !fits_i128(balance1) || !fits_i128(supply1) || !fits_i128(
                actual,
            ) || !fits_i128(divisor) || !fits_i128(new_deposit * supply1) || !div_ok(
                new_deposit * supply1,
                divisor,
            ) || !fits_i128(supply1 + tdiv(new_deposit * supply1, divisor)) {
                None
            } else {
                Some((amount1, supply1 + tdiv(new_deposit * supply1, divisor), balance1, actual))
            }
        }
    }
}

/// A full withdrawal's pass over the batches `batches`, in order.
pub open spec fn withdraw_scan(batches: Seq<Option<BatchObj>>, start: (int, int, int, int)) -> Option<
    (int, int, int, int),
>
    decreases batches.len(),
{
    if batches.len() == 0 {
        Some(start)
    } else {
        match withdraw_scan(batches.drop_last(), start) {
            None => None,
            Some(acc) => match batches.last() {
                None => Some(acc),
                Some(batch) => withdraw_step(batch, acc),
            },
        }
    }
}

/// A full withdrawal while the vault and the flash loan hold
/// `total_balance`: every batch of the lender is burned and its fees added
/// up, the lender's deposit comes back from the flash loan and the fees
/// from the vault. The result is the deposit and the fees.
pub open spec fn withdraw_outcome(
    vault: VaultState,
    book: BookView,
    is_admin: bool,
    total_balance: int,
) -> Option<Result<(VaultState, BookView, (i128, i128)), Error>> {
    if !is_admin {
        Some(Err(Error::InvalidAdminAuth))
    } else {
        let supply = vault.tot_supply as int;
        match withdraw_scan(book.batches, (0, supply, total_balance, supply)) {
            None => None,
            Some((amount, _ts, _tb, actual)) => Some(
                Ok(
                    (
                        VaultState { tot_supply: actual as i128, ..vault },
                        BookView {
                            batches: cleared(book.batches.len()),
                            initial_deposit: book.initial_deposit,
                        },
                        (book.initial_deposit as i128, amount as i128),
                    ),
                ),
            ),
        }
    }
}

/// `n` removed batches.
pub open spec fn cleared(n: nat) -> Seq<Option<BatchObj>> {
    Seq::new(n, |i: int| None)
}

/// Once a full withdrawal's pass fails, it fails on any longer run of
/// batches.
proof fn lemma_scan_stays_failed(
    batches: Seq<Option<BatchObj>>,
    k: int,
    start: (int, int, int, int),
)
    requires
        0 <= k <= batches.len(),
        withdraw_scan(batches.take(k), start) is None,
    ensures
        withdraw_scan(batches, start) is None,
    decreases batches.len() - k,
{
    if k == batches.len() {
        assert(batches.take(k) =~= batches);
    } else {
        assert(batches.take(k + 1).drop_last() =~= batches.take(k));
        lemma_scan_stays_failed(batches, k + 1, start);
    }
}

/// One batch's turn in a full withdrawal, computed.
fn withdraw_batch(
    batch: BatchObj,
    amount: i128,
    temp_supply: i128,
    temp_balance: i128,
    supply: i128,
) -> (r: Option<(i128, i128, i128, i128)>)
    ensures
        match withdraw_step(
            batch,
            (amount as int, temp_supply as int, temp_balance as int, supply as int),
        ) {
            None => r is None,
            Some((a, ts, tb, s)) => r == Some((a as i128, ts as i128, tb as i128, s as i128)),
        },
{
    let withdrawable_shares = batch.curr_s;
    if !deposit_ratio_fits(batch.deposit, withdrawable_shares, batch.init_s) {
        return None;
    }
    let new_deposit = compute_deposit_ratio(batch.deposit, withdrawable_shares, batch.init_s);
    if !fee_amount_fits(new_deposit, withdrawable_shares, temp_supply, temp_balance) {
        return None;
    }
    let fee_amount = compute_fee_amount(
        new_deposit,
        withdrawable_shares,
        temp_supply,
        temp_balance,
    );
    let amount1 = match amount.checked_add(fee_amount) {
        Some(v) => v,
        None => return None,
    };
    let balance1 = match temp_balance.checked_sub(fee_amount) {
        Some(v) => v,
        None => return None,
    };
    let supply1 = match temp_supply.checked_sub(withdrawable_shares) {
        Some(v) => v,
        None => return None,
    };
    let actual = match supply.checked_sub(withdrawable_shares) {
        Some(v) => v,
        None => return None,
    };
    let divisor = if balance1 != new_deposit {
        match balance1.checked_sub(new_deposit) {
            Some(v) => v,
            None => return None,
        }
    } else {
        new_deposit
    };
    let product = match new_deposit.checked_mul(supply1) {
        Some(v) => v,
        None => return None,
    };
    if divisor == 0 || (product == i128::MIN && divisor == -1) {
        return None;
    }
    let minted = div_trunc(product, divisor);
    let supply2 = match supply1.checked_add(minted) {
        Some(v) => v,
        None => return None,
    };
    Some((amount1, supply2, balance1, actual))
}

impl VaultContract {
    /// Sets the vault up; it can be done once only.
    pub fn initialize(vault: &mut VaultState) -> (r: Result<(), Error>)
        ensures
            old(vault).initialized ==> r == Err::<(), Error>(Error::VaultAlreadyInitialized)
                && *final(vault) == *old(vault),
            !old(vault).initialized ==> r is Ok && *final(vault) == (VaultState {
                initialized: true,
                ..*old(vault)
            }),
    {
        if vault.initialized {
            return Err(Error::VaultAlreadyInitialized);
        }
        vault.initialized = true;
        Ok(())
    }

    /// Deposits `amount` for the lender and mints them a batch of shares.
    pub fn deposit(
        vault: &mut VaultState,
        book: &mut LenderBook,
        is_admin: bool,
        amount: i128,
        balance: i128,
    ) -> (r: Option<Result<i128, Error>>)
        ensures
            applied(
                deposit_outcome(*old(vault), old(book)@, is_admin, amount as int, balance as int),
                r,
                *old(vault),
                old(book)@,
                *final(vault),
                final(book)@,
            ),
    {
        if let Err(e) = auth_admin(is_admin) {
            return Some(Err(e));
        }
        let total_supply = vault.tot_supply;
        let shares = if 0 == total_supply {
            amount
        } else {
            if !shares_amount_fits(amount, total_supply, balance) {
                return None;
            }
            compute_shares_amount(amount, total_supply, balance)
        };
        if total_supply.checked_add(shares).is_none() {
            return None;
        }
        let first = book.batches.len() == 0;
        if !first && book.initial_deposit.checked_add(amount).is_none() {
            return None;
        }
        let increment = mint_shares(vault, book, shares, amount);
        if increment != 0 {
            book.initial_deposit = book.initial_deposit + amount;
        } else {
            book.initial_deposit = amount;
        }
        Some(Ok(increment))
    }

    /// Pays the lender the fees earned by `shares` of their batch `batch_n`
    /// and mints the deposit part of those shares back as a new batch; the
    /// result is the fee to send to the lender.
    pub fn withdraw_fee(
        vault: &mut VaultState,
        book: &mut LenderBook,
        is_admin: bool,
        batch_n: i128,
        shares: i128,
        total_balance: i128,
    ) -> (r: Option<Result<i128, Error>>)
        ensures
            applied(
                withdraw_fee_outcome(
                    *old(vault),
                    old(book)@,
                    is_admin,
                    batch_n as int,
                    shares as int,
                    total_balance as int,
                ),
                r,
                *old(vault),
                old(book)@,
                *final(vault),
                final(book)@,
            ),
    {
        if let Err(e) = auth_admin(is_admin) {
            return Some(Err(e));
        }
        let batch = match get_batch(book, batch_n) {
            Some(b) => b,
            None => return Some(Err(Error::BatchDoesntExist)),
        };
        let total_supply = vault.tot_supply;
        if batch.curr_s < shares {
            return Some(Err(Error::InvalidShareBalance));
        }
        if !deposit_ratio_fits(batch.deposit, shares, batch.init_s) {
            return None;
        }
        let new_deposit = compute_deposit_ratio(batch.deposit, shares, batch.init_s);
        if !fee_amount_fits(new_deposit, shares, total_supply, total_balance) {
            return None;
        }
        let fee_amount = compute_fee_amount(new_deposit, shares, total_supply, total_balance);
        if batch.curr_s.checked_sub(shares).is_none() || total_supply.checked_sub(shares).is_none() {
            return None;
        }
        let new_tot_supply = total_supply - shares;
        let new_tot_bal = match total_balance.checked_sub(fee_amount) {
            Some(v) => v,
            None => return None,
        };
        let new_shares = if total_balance != new_deposit {
            let divisor = match new_tot_bal.checked_sub(new_deposit) {
                Some(v) => v,
                None => return None,
            };
            if !shares_amount_fits(new_deposit, new_tot_supply, divisor) {
                return None;
            }
            compute_shares_amount(new_deposit, new_tot_supply, divisor)
        } else {
            if !shares_amount_fits(new_deposit, total_supply, new_deposit) {
                return None;
            }
            compute_shares_amount(new_deposit, total_supply, new_deposit)
        };
        if new_tot_supply.checked_add(new_shares).is_none() {
            return None;
        }
        burn_shares(vault, book, shares, batch_n);
        mint_shares(vault, book, new_shares, new_deposit);
        Some(Ok(fee_amount))
    }

    /// Burns every batch of the lender and adds up their fees; the result is
    /// the lender's deposit, to be withdrawn from the flash loan, and the
    /// fees, to be sent from the vault.
    pub fn withdraw(
        vault: &mut VaultState,
        book: &mut LenderBook,
        is_admin: bool,
        total_balance: i128,
    ) -> (r: Option<Result<(i128, i128), Error>>)
        ensures
            applied(
                withdraw_outcome(*old(vault), old(book)@, is_admin, total_balance as int),
                r,
                *old(vault),
                old(book)@,
                *final(vault),
                final(book)@,
            ),
    {
        if let Err(e) = auth_admin(is_admin) {
            return Some(Err(e));
        }
        let increment = book.batches.len();
        let mut amount: i128 = 0;
        let mut temp_supply: i128 = vault.tot_supply;
        let mut temp_balance: i128 = total_balance;
        let mut supply: i128 = vault.tot_supply;
        let ghost start = (0int, vault.tot_supply as int, total_balance as int, vault.tot_supply as int);
        let mut batch_n: usize = 0;
        while batch_n < increment
            invariant
                increment == book.batches@.len(),
                batch_n <= increment,
                is_admin,
                *vault == *old(vault),
                book@.batches == old(book)@.batches,
                book@.initial_deposit == old(book)@.initial_deposit,
                start == (0int, old(vault).tot_supply as int, total_balance as int, old(vault).tot_supply as int),
                withdraw_scan(book.batches@.take(batch_n as int), start) == Some(
                    (amount as int, temp_supply as int, temp_balance as int, supply as int),
                ),
            decreases increment - batch_n,
        {
            let ghost acc = (amount as int, temp_supply as int, temp_balance as int, supply as int);
            assert(book.batches@.take(batch_n + 1).drop_last() =~= book.batches@.take(
                batch_n as int,
            ));
            if let Some(batch) = book.batches[batch_n] {
                match withdraw_batch(batch, amount, temp_supply, temp_balance, supply) {
                    Some((a, ts, tb, s)) => {
                        amount = a;
                        temp_supply = ts;
                        temp_balance = tb;
                        supply = s;
                    },
                    None => {
                        proof {
                            let pre = book.batches@.take(batch_n + 1);
                            assert(pre.last() == Some(batch));
                            assert(withdraw_step(batch, acc) is None);
                            assert(withdraw_scan(pre, start) is None);
                            lemma_scan_stays_failed(book.batches@, batch_n + 1, start);
                        }
                        return None;
                    },
                }
            }
            batch_n = batch_n + 1;
        }
        assert(book.batches@.take(increment as int) =~= book.batches@);
        let ghost len = book.batches@.len();
        let mut j: usize = 0;
        while j < increment
            invariant
                increment == book.batches@.len(),
                len == increment,
                j <= increment,
                *vault == *old(vault),
                book@.initial_deposit == old(book)@.initial_deposit,
                forall|k: int| 0 <= k < j ==> book.batches@[k] is None,
            decreases increment - j,
        {
            book.batches.set(j, None);
            j = j + 1;
        }
        assert(book.batches@ =~= cleared(len));
        vault.tot_supply = supply;
        Some(Ok((book.initial_deposit, amount)))
    }

    /// The lender's batch `batch_n`.
    pub fn get_shares(book: &LenderBook, batch_n: i128) -> (r: Result<BatchObj, Error>)
        ensures
            batch_at(book@, batch_n as int) matches Some(b) ==> r == Ok::<BatchObj, Error>(b),
            batch_at(book@, batch_n as int) is None ==> r == Err::<BatchObj, Error>(
                Error::BatchDoesntExist,
            ),
    {
        match get_batch(book, batch_n) {
            Some(b) => Ok(b),
            None => Err(Error::BatchDoesntExist),
        }
    }

    /// The number that the lender's next batch gets.
    pub fn get_increment(book: &LenderBook) -> (r: Result<i128, Error>)
        ensures
            r == Ok::<i128, Error>(book@.batches.len() as i128),
    {
        Ok(get_increment(book))
    }
}

} // verus!
