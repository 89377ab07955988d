//! This vault's entry points. Each one takes the storage entries that the
//! call reads and writes and the token balances it reads; the token
//! transfers are left to the caller. A call yields `None` where the contract
//! panics on a division by zero, an arithmetic overflow or a missing batch;
//! `fee_withd` requires instead that its batch exists and holds the shares.
//! The entries change only when a call completes.
use vstd::prelude::*;

use crate::arith::{checked_mul_div, div_ok, div_trunc, fits_i128, mul_div_ok, tdiv};
use crate::fl_vault::storage::{
    burn_ok, burn_shares, burned, get_user_batches, mint_shares, new_batch, remove_first,
    BatchObj, FlBookView, FlLenderBook, FlVaultState,
};

verus! {

broadcast use vstd::std_specs::hash::group_hash_axioms;

/// The vault contract.
pub struct VaultContract;

/// The part of `deposit` that `burned` of `initial` shares stand for:
/// `deposit * burned / initial`, rounded toward zero. The ratio of the
/// shares is taken exactly, not cut to a fixed number of decimals first.
pub open spec fn deposit_part(deposit: int, burned: int, initial: int) -> int {
    tdiv(deposit * burned, initial)
}

/// Whether `deposit_part` is computed without a panic: a non-zero
/// `initial` and a part that is an `i128`, however large the product
/// `deposit * burned`.
pub open spec fn deposit_part_ok(deposit: int, burned: int, initial: int) -> bool {
    mul_div_ok(deposit, burned, initial)
}

/// What `burned` of `supply` shares are worth out of `balance`, beyond
/// `deposit`.
pub open spec fn fee_part(deposit: int, burned: int, supply: int, balance: int) -> int {
    tdiv(balance * burned, supply) - deposit
}

/// Whether `fee_part` is computed without a panic.
pub open spec fn fee_part_ok(deposit: int, burned: int, supply: int, balance: int) -> bool {
    &&& fits_i128(balance * burned)
    &&& div_ok(balance * burned, supply)
    &&& fits_i128(tdiv(balance * burned, supply) - deposit)
}

fn compute_deposit_part(deposit: i128, burned: i128, initial: i128) -> (r: Option<i128>)
    ensures
        deposit_part_ok(deposit as int, burned as int, initial as int) ==> r == Some(
            deposit_part(deposit as int, burned as int, initial as int) as i128,
        ) && fits_i128(deposit_part(deposit as int, burned as int, initial as int)),
        !deposit_part_ok(deposit as int, burned as int, initial as int) ==> r is None,
{
    checked_mul_div(deposit, burned, initial)
}

fn compute_fee_part(deposit: i128, burned: i128, supply: i128, balance: i128) -> (r: Option<i128>)
    ensures
        fee_part_ok(deposit as int, burned as int, supply as int, balance as int) ==> r == Some(
            fee_part(deposit as int, burned as int, supply as int, balance as int) as i128,
        ),
        !fee_part_ok(deposit as int, burned as int, supply as int, balance as int) ==> r is None,
{
    let product = match balance.checked_mul(burned) {
        Some(v) => v,
        None => return None,
    };
    if supply == 0 || (product == i128::MIN && supply == -1) {
        return None;
    }
    div_trunc(product, supply).checked_sub(deposit)
}

/// `a * b / c` as Rust computes it, or `None` where that panics.
fn mul_div(a: i128, b: i128, c: i128) -> (r: Option<i128>)
    ensures
        fits_i128(a * b) && div_ok(a * b, c as int) ==> r == Some(tdiv(a * b, c as int) as i128)
            && fits_i128(tdiv(a * b, c as int)),
        !(fits_i128(a * b) && div_ok(a * b, c as int)) ==> r is None,
{
    let product = match a.checked_mul(b) {
        Some(v) => v,
        None => return None,
    };
    if c == 0 || (product == i128::MIN && c == -1) {
        return None;
    }
    Some(div_trunc(product, c))
}

/// A deposit of `amount` at ledger time `now`, where the vault and its flash
/// loan hold `balance` together once the amount has arrived: the lender's
/// recorded deposit becomes `amount`, and a batch of shares priced at the
/// balance before the deposit is minted (one share per unit for the first
/// deposit ever). The result is the batch's timestamp.
pub open spec fn deposit_outcome(
    vault: FlVaultState,
    book: FlBookView,
    amount: int,
    balance: int,
    now: u64,
) -> Option<(FlVaultState, FlBookView, u64)> {
    let supply = vault.tot_supply as int;
    if supply != 0 && !(fits_i128(balance - amount) && fits_i128(amount * supply) && div_ok(
        amount * supply,
        balance - amount,
    )) {
        None
    } else {
        let shares = if supply == 0 {
            amount
        } else {
            tdiv(amount * supply, balance - amount)
        };
        if !fits_i128(supply + shares) {
            None
        } else {
            Some(
                (
                    FlVaultState { tot_supply: (supply + shares) as i128, ..vault },
                    FlBookView {
                        batches: book.batches.insert(0, now),
                        store: book.store.insert(now, new_batch(shares, amount)),
                        initial_deposit: Some(amount as i128),
                    },
                    now,
                ),
            )
        }
    }
}

/// The fee that a withdrawal on `shares` of the batch minted at `batch_ts`
/// pays, while the vault and its flash loan hold `total_balance`: `None`
/// where the call panics, `Some(None)` where the shares are worth less than
/// the deposit part they stand for and nothing happens.
pub open spec fn fee_quote(
    vault: FlVaultState,
    book: FlBookView,
    batch_ts: u64,
    shares: int,
    total_balance: int,
) -> Option<Option<(int, int)>> {
    if !book.store.contains_key(batch_ts) {
        None
    } else {
        let batch = book.store[batch_ts];
        if batch.curr_s < shares || !deposit_part_ok(batch.deposit as int, shares, batch.init_s as int) {
            None
        } else {
            let new_deposit = deposit_part(batch.deposit as int, shares, batch.init_s as int);
            if !fee_part_ok(new_deposit, shares, vault.tot_supply as int, total_balance) {
                None
            } else {
                let fee = fee_part(new_deposit, shares, vault.tot_supply as int, total_balance);
                if fee >= 0 {
                    Some(Some((fee, new_deposit)))
                } else {
                    Some(None)
                }
            }
        }
    }
}

/// A fee withdrawal on `shares` of the batch minted at `batch_ts`, where the
/// vault and its flash loan held `total_balance` before the fee was paid and
/// hold `new_total_balance` after, at ledger time `now`: the shares are
/// burned and the deposit part they stand for is minted back as a new batch
/// at the new price. The result is the fee paid, if any.
pub open spec fn fee_withd_outcome(
    vault: FlVaultState,
    book: FlBookView,
    batch_ts: u64,
    shares: int,
    total_balance: int,
    new_total_balance: int,
    now: u64,
) -> Option<(FlVaultState, FlBookView, Option<i128>)> {
    match fee_quote(vault, book, batch_ts, shares, total_balance) {
        None => None,
        Some(None) => Some((vault, book, None)),
        Some(Some((fee, new_deposit))) => {
            let supply = vault.tot_supply as int;
            if !burn_ok(vault, book, batch_ts, shares) {
                None
            } else {
                let new_supply = supply - shares;
                let divisor = if total_balance != new_deposit {
                    new_total_balance - new_deposit
                } else {
                    new_deposit
                };
                let base = if total_balance != new_deposit {
                    new_supply
                } else {
                    supply
                };
                if !fits_i128(divisor) || !fits_i128(new_deposit * base) || !div_ok(
                    new_deposit * base,
                    divisor,
                ) {
                    None
                } else {
                    let new_shares = tdiv(new_deposit * base, divisor);
                    if !fits_i128(new_supply + new_shares) {
                        None
                    } else {
                        let after_burn = burned(book, book.store[batch_ts], batch_ts, shares);
                        Some(
                            (
                                FlVaultState { tot_supply: (new_supply + new_shares) as i128, ..vault },
                                FlBookView {
                                    batches: after_burn.batches.insert(0, now),
                                    store: after_burn.store.insert(
                                        now,
                                        new_batch(new_shares, new_deposit),
                                    ),
                                    initial_deposit: book.initial_deposit,
                                },
                                Some(fee as i128),
                            ),
                        )
                    }
                }
            }
        },
    }
}

/// The running values of a full withdrawal: the fees so far, the supply and
/// the balance as the withdrawal reckons them, the vault's actual supply,
/// and the lender's entries.
pub struct WithdrawAcc {
    pub amount: int,
    pub temp_supply: int,
    pub temp_balance: int,
    pub supply: int,
    pub book: FlBookView,
}

/// One batch's turn in a full withdrawal: its fee is added up and all its
/// shares are burned.
pub open spec fn withdraw_step(acc: WithdrawAcc, batch_ts: u64) -> Option<WithdrawAcc> {
    if !acc.book.store.contains_key(batch_ts) {
        None
    } else {
        let batch = acc.book.store[batch_ts];
        let shares = batch.curr_s as int;
        if !deposit_part_ok(batch.deposit as int, shares, batch.init_s as int) {
            None
        } else {
            let new_deposit = deposit_part(batch.deposit as int, shares, batch.init_s as int);
            if !fee_part_ok(new_deposit, shares, acc.temp_supply, acc.temp_balance) {
                None
            } else {
                let fee = fee_part(new_deposit, shares, acc.temp_supply, acc.temp_balance);
                let amount1 = acc.amount + fee;
                let balance1 = acc.temp_balance - fee;
                let supply1 = acc.temp_supply - shares;
                let divisor = if balance1 != new_deposit {
                    balance1 - new_deposit
                } else {
                    new_deposit
                };
                if !fits_i128(amount1) || !fits_i128(balance1) || !fits_i128(supply1)
                    || !fits_i128(acc.supply - shares) || !acc.book.batches.contains(batch_ts)
                    || !fits_i128(divisor) || !fits_i128(new_deposit * supply1) || !div_ok(
                    new_deposit * supply1,
                    divisor,
                ) || !fits_i128(supply1 + tdiv(new_deposit * supply1, divisor)) {
                    None
                } else {
                    Some(
                        WithdrawAcc {
                            amount: amount1,
                            temp_supply: supply1 + tdiv(new_deposit * supply1, divisor),
                            temp_balance: balance1,
                            supply: acc.supply - shares,
                            book: FlBookView {
                                batches: remove_first(acc.book.batches, batch_ts),
                                store: acc.book.store.remove(batch_ts),
                                initial_deposit: acc.book.initial_deposit,
                            },
                        },
                    )
                }
            }
        }
    }
}

/// A full withdrawal's pass over the timestamps `list`, in order.
pub open spec fn withdraw_scan(list: Seq<u64>, start: WithdrawAcc) -> Option<WithdrawAcc>
    decreases list.len(),
{
    if list.len() == 0 {
        Some(start)
    } else {
        match withdraw_scan(list.drop_last(), start) {
            None => None,
            Some(acc) => withdraw_step(acc, list.last()),
        }
    }
}

/// A full withdrawal while the vault and its flash loan hold
/// `total_balance`: every batch on the lender's list is burned and its fee
/// added up; the lender's deposit comes back from the flash loan and the
/// fees from the vault. The result is the deposit and the fees.
pub open spec fn withdraw_outcome(vault: FlVaultState, book: FlBookView, total_balance: int) -> Option<
    (FlVaultState, FlBookView, (i128, i128)),
> {
    let supply = vault.tot_supply as int;
    let start = WithdrawAcc {
        amount: 0,
        temp_supply: supply,
        temp_balance: total_balance,
        supply,
        book,
    };
    match withdraw_scan(book.batches, start) {
        None => None,
        Some(acc) => match book.initial_deposit {
            None => None,
            Some(initial) => Some(
                (
                    FlVaultState { tot_supply: acc.supply as i128, ..vault },
                    acc.book,
                    (initial, acc.amount as i128),
                ),
            ),
        },
    }
}

/// How a call ended, relative to what `outcome` says it does.
pub open spec fn applied<T>(
    outcome: Option<(FlVaultState, FlBookView, T)>,
    r: Option<T>,
    vault_before: FlVaultState,
    book_before: FlBookView,
    vault_after: FlVaultState,
    book_after: FlBookView,
) -> bool {
    match outcome {
        None => r is None && vault_after == vault_before && book_after.batches
            == book_before.batches && book_after.store == book_before.store
            && book_after.initial_deposit == book_before.initial_deposit,
        Some((v, b, x)) => r == Some(x) && vault_after == v && book_after.batches == b.batches
            && book_after.store == b.store && book_after.initial_deposit == b.initial_deposit,
    }
}

proof fn lemma_scan_stays_failed(list: Seq<u64>, k: int, start: WithdrawAcc)
    requires
        0 <= k <= list.len(),
        withdraw_scan(list.take(k), start) is None,
    ensures
        withdraw_scan(list, start) is None,
    decreases list.len() - k,
{
    if k == list.len() {
        assert(list.take(k) =~= list);
    } else {
        assert(list.take(k + 1).drop_last() =~= list.take(k));
        lemma_scan_stays_failed(list, k + 1, start);
    }
}

impl VaultContract {
    /// Sets the vault up; `None` (the contract panics) once it is set.
    pub fn initialize(vault: &mut FlVaultState) -> (r: Option<()>)
        ensures
            old(vault).initialized ==> r is None && *final(vault) == *old(vault),
            !old(vault).initialized ==> r is Some && *final(vault) == (FlVaultState {
                initialized: true,
                ..*old(vault)
            }),
    {
        if vault.initialized {
            return None;
        }
        vault.initialized = true;
        Some(())
    }

    /// Records a deposit of `amount` at ledger time `now` and mints its
    /// batch; `balance` is what the vault and its flash loan hold together
    /// once the amount has arrived.
    pub fn deposit(
        vault: &mut FlVaultState,
        book: &mut FlLenderBook,
        amount: i128,
        balance: i128,
        now: u64,
    ) -> (r: Option<u64>)
        ensures
            applied(
                deposit_outcome(*old(vault), old(book)@, amount as int, balance as int, now),
                r,
                *old(vault),
                old(book)@,
                *final(vault),
                final(book)@,
            ),
    {
        let tot_supply = vault.tot_supply;
        let shares = if 0 == tot_supply {
            amount
        } else {
            let remaining = match balance.checked_sub(amount) {
                Some(v) => v,
                None => return None,
            };
            match mul_div(amount, tot_supply, remaining) {
                Some(v) => v,
                None => return None,
            }
        };
        if tot_supply.checked_add(shares).is_none() {
            return None;
        }
        book.initial_deposit = Some(amount);
        Some(mint_shares(vault, book, shares, amount, now))
    }

    /// The lender's batch minted at `batch_ts`; `None` (the contract
    /// panics) when there is none.
    pub fn get_shares(book: &FlLenderBook, batch_ts: u64) -> (r: Option<BatchObj>)
        ensures
            book@.store.contains_key(batch_ts) ==> r == Some(book@.store[batch_ts]),
            !book@.store.contains_key(batch_ts) ==> r is None,
    {
        match book.store.get(&batch_ts) {
            Some(b) => Some(*b),
            None => None,
        }
    }

    /// The timestamps of the lender's batches, newest first.
    pub fn batches(book: &FlLenderBook) -> (r: Vec<u64>)
        ensures
            r@ == book@.batches,
    {
        get_user_batches(book)
    }

    /// The fee that `fee_withd` would pay for these shares: `None` where it
    /// panics, `Some(None)` where it pays nothing and changes nothing.
    pub fn fee_withd_quote(
        vault: &FlVaultState,
        book: &FlLenderBook,
        batch_ts: u64,
        shares: i128,
        total_balance: i128,
    ) -> (r: Option<Option<i128>>)
        ensures
            match fee_quote(*vault, book@, batch_ts, shares as int, total_balance as int) {
                None => r is None,
                Some(None) => r == Some(None::<i128>),
                Some(Some((fee, _d))) => r == Some(Some(fee as i128)),
            },
    {
        let batch = match book.store.get(&batch_ts) {
            Some(b) => *b,
            None => return None,
        };
        if batch.curr_s < shares {
            return None;
        }
        let new_deposit = match compute_deposit_part(batch.deposit, shares, batch.init_s) {
            Some(v) => v,
            None => return None,
        };
        let fee_amount = match compute_fee_part(new_deposit, shares, vault.tot_supply, total_balance) {
            Some(v) => v,
            None => return None,
        };
        if fee_amount >= 0 {
            Some(Some(fee_amount))
        } else {
            Some(None)
        }
    }

    /// Burns `shares` of the lender's batch minted at `batch_ts` against
    /// their fee and mints the deposit part back as a new batch at ledger
    /// time `now`. `total_balance` is what the vault and its flash loan held
    /// before the fee was paid, `new_total_balance` what they hold after;
    /// the result is the fee paid, if any. The contract panics where the
    /// batch is missing or holds fewer than `shares`: callers check that
    /// first (with `get_shares`, or `fee_withd_quote`, which answers `None`
    /// there). `None` stands for the remaining panics: a division by zero,
    /// an arithmetic overflow, or a batch missing from the lender's list.
    pub fn fee_withd(
        vault: &mut FlVaultState,
        book: &mut FlLenderBook,
        batch_ts: u64,
        shares: i128,
        total_balance: i128,
        new_total_balance: i128,
        now: u64,
    ) -> (r: Option<Option<i128>>)
        requires
            old(book)@.store.contains_key(batch_ts),
            shares <= old(book)@.store[batch_ts].curr_s,
        ensures
            applied(
                fee_withd_outcome(
                    *old(vault),
                    old(book)@,
                    batch_ts,
                    shares as int,
                    total_balance as int,
                    new_total_balance as int,
                    now,
                ),
                r,
                *old(vault),
                old(book)@,
                *final(vault),
                final(book)@,
            ),
    {
        let tot_supply = vault.tot_supply;
        let batch = match book.store.get(&batch_ts) {
            Some(b) => *b,
            None => return None,
        };
        let new_deposit = match compute_deposit_part(batch.deposit, shares, batch.init_s) {
            Some(v) => v,
            None => return None,
        };
        let fee_amount = match compute_fee_part(new_deposit, shares, tot_supply, total_balance) {
            Some(v) => v,
            None => return None,
        };
        if fee_amount < 0 {
            return Some(None);
        }
        let left = match batch.curr_s.checked_sub(shares) {
            Some(v) => v,
            None => return None,
        };
        let new_tot_supply = match tot_supply.checked_sub(shares) {
            Some(v) => v,
            None => return None,
        };
        if left == 0 {
            let mut found = false;
            let mut i: usize = 0;
            let n = book.batches.len();
            while i < n
                invariant
                    n == book.batches@.len(),
                    i <= n,
                    found == exists|j: int| 0 <= j < i && book.batches@[j] == batch_ts,
                decreases n - i,
            {
                if book.batches[i] == batch_ts {
                    found = true;
                }
                i = i + 1;
            }
            if !found {
                return None;
            }
        }
        let new_shares = if total_balance != new_deposit {
            let divisor = match new_total_balance.checked_sub(new_deposit) {
                Some(v) => v,
                None => return None,
            };
            match mul_div(new_deposit, new_tot_supply, divisor) {
                Some(v) => v,
                None => return None,
            }
        } else {
            match mul_div(new_deposit, tot_supply, new_deposit) {
                Some(v) => v,
                None => return None,
            }
        };
        if new_tot_supply.checked_add(new_shares).is_none() {
            return None;
        }
        burn_shares(vault, book, shares, batch_ts);
        mint_shares(vault, book, new_shares, new_deposit, now);
        Some(Some(fee_amount))
    }

    /// Burns every batch on the lender's list and adds up their fees, where
    /// the vault and its flash loan hold `total_balance`; the result is the
    /// lender's deposit, to come back from the flash loan, and the fees, to
    /// be sent from the vault.
    pub fn withdraw(vault: &mut FlVaultState, book: &mut FlLenderBook, total_balance: i128) -> (r:
        Option<(i128, i128)>)
        ensures
            applied(
                withdraw_outcome(*old(vault), old(book)@, total_balance as int),
                r,
                *old(vault),
                old(book)@,
                *final(vault),
                final(book)@,
            ),
    {
        let ghost vault0 = *vault;
        let ghost book0 = book@;
        let list = get_user_batches(book);
        let n = list.len();
        let mut amount: i128 = 0;
        let mut temp_supply: i128 = vault.tot_supply;
        let mut temp_balance: i128 = total_balance;
        let mut work_vault = *vault;
        let mut work = FlLenderBook {
            batches: book.batches.clone(),
            store: book.store.clone(),
            initial_deposit: book.initial_deposit,
        };
        let ghost start = WithdrawAcc {
            amount: 0,
            temp_supply: vault0.tot_supply as int,
            temp_balance: total_balance as int,
            supply: vault0.tot_supply as int,
            book: book0,
        };
        let mut k: usize = 0;
        while k < n
            invariant
                n == list@.len(),
                list@ == book0.batches,
                k <= n,
                *vault == vault0,
                book@ == book0,
                start == (WithdrawAcc {
                    amount: 0,
                    temp_supply: vault0.tot_supply as int,
                    temp_balance: total_balance as int,
                    supply: vault0.tot_supply as int,
                    book: book0,
                }),
                withdraw_scan(list@.take(k as int), start) == Some(
                    WithdrawAcc {
                        amount: amount as int,
                        temp_supply: temp_supply as int,
                        temp_balance: temp_balance as int,
                        supply: work_vault.tot_supply as int,
                        book: work@,
                    },
                ),
                work_vault.initialized == vault0.initialized,
                work@.initial_deposit == book0.initial_deposit,
            decreases n - k,
        {
            let ghost acc = WithdrawAcc {
                amount: amount as int,
                temp_supply: temp_supply as int,
                temp_balance: temp_balance as int,
                supply: work_vault.tot_supply as int,
                book: work@,
            };
            assert(list@.take(k + 1).drop_last() =~= list@.take(k as int));
            let batch_ts = list[k];
            let batch = match work.store.get(&batch_ts) {
                Some(b) => *b,
                None => {
                    proof {
                        lemma_scan_stays_failed(list@, k + 1, start);
                    }
                    return None;
                },
            };
            let curr_s = batch.curr_s;
            let step = withdraw_batch(
                batch,
                amount,
                temp_supply,
                temp_balance,
                work_vault.tot_supply,
            );
            match step {
                None => {
                    proof {
                        lemma_scan_stays_failed(list@, k + 1, start);
                    }
                    return None;
                },
                Some((a, ts, tb)) => {
                    let mut listed = false;
                    let mut i: usize = 0;
                    let m = work.batches.len();
                    while i < m
                        invariant
                            m == work.batches@.len(),
                            i <= m,
                            listed == exists|j: int| 0 <= j < i && work.batches@[j] == batch_ts,
                        decreases m - i,
                    {
                        if work.batches[i] == batch_ts {
                            listed = true;
                        }
                        i = i + 1;
                    }
                    if !listed {
                        proof {
                            lemma_scan_stays_failed(list@, k + 1, start);
                        }
                        return None;
                    }
                    burn_shares(&mut work_vault, &mut work, curr_s, batch_ts);
                    amount = a;
                    temp_supply = ts;
                    temp_balance = tb;
                    proof {
                        assert(work@.batches == remove_first(acc.book.batches, batch_ts));
                        assert(work@.store == acc.book.store.remove(batch_ts));
                    }
                },
            }
            k = k + 1;
        }
        assert(list@.take(n as int) =~= list@);
        let initial_deposit = match work.initial_deposit {
            Some(d) => d,
            None => return None,
        };
        *vault = work_vault;
        *book = work;
        Some((initial_deposit, amount))
    }
}

/// One batch's turn in a full withdrawal, computed: the running fees, the
/// reckoned supply and the reckoned balance after it, or `None` where the
/// contract panics.
fn withdraw_batch(
    batch: BatchObj,
    amount: i128,
    temp_supply: i128,
    temp_balance: i128,
    supply: i128,
) -> (r: Option<(i128, i128, i128)>)
    ensures
        ({
            let shares = batch.curr_s as int;
            let new_deposit = deposit_part(batch.deposit as int, shares, batch.init_s as int);
            let fee = fee_part(new_deposit, shares, temp_supply as int, temp_balance as int);
            let amount1 = amount + fee;
            let balance1 = temp_balance - fee;
            let supply1 = temp_supply - shares;
            let divisor = if balance1 != new_deposit {
                balance1 - new_deposit
            } else {
                new_deposit
            };
            let ok = deposit_part_ok(batch.deposit as int, shares, batch.init_s as int)
                && fee_part_ok(new_deposit, shares, temp_supply as int, temp_balance as int)
                && fits_i128(amount1) && fits_i128(balance1) && fits_i128(supply1) && fits_i128(
                supply - shares,
            ) && fits_i128(divisor) && fits_i128(new_deposit * supply1) && div_ok(
                new_deposit * supply1,
                divisor,
            ) && fits_i128(supply1 + tdiv(new_deposit * supply1, divisor));
            &&& !ok ==> r is None
            &&& ok ==> r == Some(
                (
                    amount1 as i128,
                    (supply1 + tdiv(new_deposit * supply1, divisor)) as i128,
                    balance1 as i128,
                ),
            )
        }),
{
    let shares = batch.curr_s;
    let new_deposit = match compute_deposit_part(batch.deposit, shares, batch.init_s) {
        Some(v) => v,
        None => return None,
    };
    let fee = match compute_fee_part(new_deposit, shares, temp_supply, temp_balance) {
        Some(v) => v,
        None => return None,
    };
    let amount1 = match amount.checked_add(fee) {
        Some(v) => v,
        None => return None,
    };
    let balance1 = match temp_balance.checked_sub(fee) {
        Some(v) => v,
        None => return None,
    };
    let supply1 = match temp_supply.checked_sub(shares) {
        Some(v) => v,
        None => return None,
    };
    if supply.checked_sub(shares).is_none() {
        return None;
    }
    let divisor = if balance1 != new_deposit {
        match balance1.checked_sub(new_deposit) {
            Some(v) => v,
            None => return None,
        }
    } else {
        new_deposit
    };
    let minted = match mul_div(new_deposit, supply1, divisor) {
        Some(v) => v,
        None => return None,
    };
    let supply2 = match supply1.checked_add(minted) {
        Some(v) => v,
        None => return None,
    };
    Some((amount1, supply2, balance1))
}

/// Each batch's turn in a full withdrawal takes it off the front of what is
/// left of the lender's list.
proof fn lemma_scan_consumes_list(list: Seq<u64>, start: WithdrawAcc, k: int)
    requires
        0 <= k <= list.len(),
        start.book.batches == list,
        withdraw_scan(list.take(k), start) is Some,
    ensures
        withdraw_scan(list.take(k), start)->0.book.batches == list.skip(k),
    decreases k,
{
    if k == 0 {
        assert(list.take(0) =~= Seq::<u64>::empty());
        assert(list.skip(0) =~= list);
    } else {
        let pre = list.take(k);
        assert(pre.drop_last() =~= list.take(k - 1));
        lemma_scan_consumes_list(list, start, k - 1);
        let rest = list.skip(k - 1);
        assert(rest[0] == list[k - 1]);
        assert(rest.drop_first() =~= list.skip(k));
    }
}

/// A completed full withdrawal leaves the lender's list of batches empty.
pub proof fn lemma_withdraw_empties_list(vault: FlVaultState, book: FlBookView, total_balance: int)
    requires
        withdraw_outcome(vault, book, total_balance) is Some,
    ensures
        ({
            let (_v, b, _r) = withdraw_outcome(vault, book, total_balance)->0;
            b.batches == Seq::<u64>::empty()
        }),
{
    let supply = vault.tot_supply as int;
    let start = WithdrawAcc {
        amount: 0,
        temp_supply: supply,
        temp_balance: total_balance,
        supply,
        book,
    };
    assert(book.batches.take(book.batches.len() as int) =~= book.batches);
    lemma_scan_consumes_list(book.batches, start, book.batches.len() as int);
    assert(book.batches.skip(book.batches.len() as int) =~= Seq::<u64>::empty());
}

} // verus!
