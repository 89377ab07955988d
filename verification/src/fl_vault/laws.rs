//! Properties of the timestamp-keyed vault that span its functions: how a
//! deposit is priced, what a fee withdrawal pays, and how a full withdrawal
//! adds up its batches.
use vstd::prelude::*;

use crate::arith::{fits_i128, lemma_product_nonneg, lemma_tdiv_floor_bounds, tdiv};
use crate::fl_vault::contract::{
    deposit_outcome, fee_quote, fee_withd_outcome, withdraw_outcome, withdraw_scan, WithdrawAcc,
};
use crate::fl_vault::storage::{BatchObj, FlBookView, FlVaultState};

verus! {

/// A deposit of `amount` when the vault and its flash loan hold `balance`
/// once it has arrived mints a batch at `now` that stands for `amount` and
/// holds the shares the supply grows by. The first deposit ever mints one
/// share per unit; later ones are priced at the balance before the deposit
/// against the current supply, `amount * supply / (balance - amount)`, so
/// that for non-negative values
/// `shares * (balance - amount) <= amount * supply < (shares + 1) * (balance - amount)`,
/// and a deposit at par (`balance - amount == supply`) mints `amount`
/// shares.
pub proof fn lemma_deposit_priced_at_balance(
    vault: FlVaultState,
    book: FlBookView,
    amount: int,
    balance: int,
    now: u64,
)
    requires
        deposit_outcome(vault, book, amount, balance, now) is Some,
    ensures
        ({
            let (v1, b1, ts) = deposit_outcome(vault, book, amount, balance, now)->0;
            let supply = vault.tot_supply as int;
            let shares = v1.tot_supply - supply;
            let before = balance - amount;
            &&& ts == now
            &&& b1.store.contains_key(now)
            &&& b1.store[now] == (BatchObj {
                init_s: shares as i128,
                deposit: amount as i128,
                curr_s: shares as i128,
            })
            &&& b1.batches == book.batches.insert(0, now)
            &&& b1.initial_deposit == Some(amount as i128)
            &&& supply == 0 ==> shares == amount
            &&& supply != 0 ==> shares == tdiv(amount * supply, before)
            &&& (amount >= 0 && supply > 0 && before > 0 ==> shares * before <= amount * supply
                < (shares + 1) * before)
            &&& (amount >= 0 && supply > 0 && before == supply ==> shares == amount)
        }),
{
    let supply = vault.tot_supply as int;
    let before = balance - amount;
    if amount >= 0 && supply > 0 && before > 0 {
        lemma_product_nonneg(amount, supply);
        lemma_tdiv_floor_bounds(amount * supply, before);
    }
    if amount >= 0 && supply > 0 && before == supply {
        lemma_product_nonneg(amount, supply);
        assert((amount * supply) / supply == amount) by (nonlinear_arith)
            requires
                supply > 0,
        ;
    }
}

/// A fee withdrawal on `shares` of a batch pays what the shares are worth,
/// `balance * shares / supply`, less the part of the batch's deposit that
/// they stand for, `deposit * shares / initial`; it pays nothing and changes
/// nothing where that is negative. The part is minted back as the batch at
/// `now`. For non-negative values the part is proportional to the shares:
/// `part * initial <= deposit * shares < (part + 1) * initial`, so half the
/// shares of a batch stand for half its deposit.
pub proof fn lemma_fee_withdrawal_pays_beyond_deposit_part(
    vault: FlVaultState,
    book: FlBookView,
    batch_ts: u64,
    shares: int,
    total_balance: int,
    new_total_balance: int,
    now: u64,
)
    requires
        fee_quote(vault, book, batch_ts, shares, total_balance) is Some,
    ensures
        book.store.contains_key(batch_ts),
        shares <= book.store[batch_ts].curr_s,
        ({
            let b = book.store[batch_ts];
            let part = tdiv(b.deposit * shares, b.init_s as int);
            let worth = tdiv(total_balance * shares, vault.tot_supply as int);
            let outcome = fee_withd_outcome(
                vault,
                book,
                batch_ts,
                shares,
                total_balance,
                new_total_balance,
                now,
            );
            &&& fee_quote(vault, book, batch_ts, shares, total_balance) == (if worth - part >= 0 {
                Some(Some((worth - part, part)))
            } else {
                Some(None::<(int, int)>)
            })
            &&& (b.deposit >= 0 && shares >= 0 && b.init_s > 0 ==> part * b.init_s <= b.deposit
                * shares < (part + 1) * b.init_s)
            &&& (outcome matches Some((_v1, b1, Some(fee))) ==> fee == worth - part
                && b1.store.contains_key(now) && b1.store[now].deposit == part
                && b1.store[now].init_s == b1.store[now].curr_s)
            &&& (outcome matches Some((v1, b1, None)) ==> worth < part && v1 == vault && b1
                == book)
        }),
{
    let b = book.store[batch_ts];
    if b.deposit >= 0 && shares >= 0 && b.init_s > 0 {
        lemma_product_nonneg(b.deposit as int, shares);
        lemma_tdiv_floor_bounds(b.deposit * shares, b.init_s as int);
    }
}

/// In a full withdrawal the fees paid so far and the balance the next batch
/// is reckoned on always add up to what they added up to at the start:
/// each batch's fee is taken off the balance before the next batch is
/// reckoned. The fees added up never leave the `i128` range.
pub proof fn lemma_withdraw_balance_carries_fees(list: Seq<u64>, start: WithdrawAcc)
    requires
        withdraw_scan(list, start) is Some,
        fits_i128(start.amount),
    ensures
        withdraw_scan(list, start)->0.amount + withdraw_scan(list, start)->0.temp_balance
            == start.amount + start.temp_balance,
        fits_i128(withdraw_scan(list, start)->0.amount),
    decreases list.len(),
{
    if list.len() > 0 {
        lemma_withdraw_balance_carries_fees(list.drop_last(), start);
    }
}

/// Each batch of a full withdrawal adds its fee to the fees paid so far:
/// `balance * shares / supply`, on the balance and supply as reckoned after
/// the earlier batches, less the part `deposit * shares / initial` of its
/// deposit; all its shares are burned and it leaves the lender's store.
pub proof fn lemma_withdraw_adds_batch_fee(list: Seq<u64>, start: WithdrawAcc, batch_ts: u64)
    requires
        withdraw_scan(list.push(batch_ts), start) is Some,
    ensures
        withdraw_scan(list, start) is Some,
        withdraw_scan(list, start)->0.book.store.contains_key(batch_ts),
        ({
            let before = withdraw_scan(list, start)->0;
            let after = withdraw_scan(list.push(batch_ts), start)->0;
            let b = before.book.store[batch_ts];
            let s = b.curr_s as int;
            &&& after.amount == before.amount + tdiv(before.temp_balance * s, before.temp_supply)
                - tdiv(b.deposit * s, b.init_s as int)
            &&& after.temp_balance == before.temp_balance - (after.amount - before.amount)
            &&& after.supply == before.supply - s
            &&& !after.book.store.contains_key(batch_ts)
        }),
{
    assert(list.push(batch_ts).drop_last() =~= list);
}

/// A full withdrawal pays back the lender's recorded deposit and the fees
/// that the pass over their batches adds up, starting from nothing on the
/// vault's supply and the whole balance; the vault's supply loses the
/// burned shares, and the fees and the balance left add up to the balance.
pub proof fn lemma_withdraw_pays_deposit_and_fees(
    vault: FlVaultState,
    book: FlBookView,
    total_balance: int,
)
    requires
        withdraw_outcome(vault, book, total_balance) is Some,
    ensures
        ({
            let supply = vault.tot_supply as int;
            let start = WithdrawAcc {
                amount: 0,
                temp_supply: supply,
                temp_balance: total_balance,
                supply,
                book,
            };
            let (v1, _b1, paid) = withdraw_outcome(vault, book, total_balance)->0;
            let (deposit, fees) = paid;
            let acc = withdraw_scan(book.batches, start)->0;
            &&& withdraw_scan(book.batches, start) is Some
            &&& book.initial_deposit == Some(deposit)
            &&& fees == acc.amount
            &&& fees + acc.temp_balance == total_balance
            &&& v1.tot_supply == acc.supply
        }),
{
    let supply = vault.tot_supply as int;
    let start = WithdrawAcc {
        amount: 0,
        temp_supply: supply,
        temp_balance: total_balance,
        supply,
        book,
    };
    lemma_withdraw_balance_carries_fees(book.batches, start);
    lemma_scan_supply_fits(book.batches, start);
}

proof fn lemma_scan_supply_fits(list: Seq<u64>, start: WithdrawAcc)
    requires
        withdraw_scan(list, start) is Some,
        fits_i128(start.supply),
    ensures
        fits_i128(withdraw_scan(list, start)->0.supply),
    decreases list.len(),
{
    if list.len() > 0 {
        lemma_scan_supply_fits(list.drop_last(), start);
    }
}

} // verus!
