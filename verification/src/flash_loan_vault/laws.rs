//! Properties of the vault that span its functions.
use vstd::prelude::*;

use crate::arith::{fits_i128, lemma_product_nonneg, lemma_tdiv_floor_bounds, tdiv};
use crate::flash_loan_vault::contract::{
    cleared, deposit_outcome, withdraw_fee_outcome, withdraw_outcome, withdraw_scan,
    withdraw_step,
};
use crate::flash_loan_vault::math::{lemma_par_shares, shares_amount};
use crate::flash_loan_vault::storage::{batch_at, new_batch, BookView, VaultState};
use crate::flash_loan_vault::types::BatchObj;

verus! {

/// The shares left in `batches`.
pub open spec fn shares_left(batches: Seq<Option<BatchObj>>) -> int
    decreases batches.len(),
{
    if batches.len() == 0 {
        0
    } else {
        shares_left(batches.drop_last()) + match batches.last() {
            None => 0,
            Some(b) => b.curr_s as int,
        }
    }
}

proof fn lemma_scan_burns_shares_left(
    batches: Seq<Option<BatchObj>>,
    start: (int, int, int, int),
)
    requires
        withdraw_scan(batches, start) is Some,
        fits_i128(start.3),
    ensures
        ({
            let (_amount, _temp_supply, _temp_balance, supply) = withdraw_scan(batches, start)->0;
            supply == start.3 - shares_left(batches) && fits_i128(supply)
        }),
    decreases batches.len(),
{
    if batches.len() > 0 {
        lemma_scan_burns_shares_left(batches.drop_last(), start);
    }
}

/// A full withdrawal takes out of the supply exactly the shares left in the
/// lender's batches, and leaves the lender no batch.
pub proof fn lemma_withdraw_burns_every_batch(
    vault: VaultState,
    book: BookView,
    total_balance: int,
)
    requires
        withdraw_outcome(vault, book, true, total_balance) matches Some(Ok(_)),
    ensures
        ({
            let (v1, b1, _paid) = withdraw_outcome(vault, book, true, total_balance)->0->Ok_0;
            &&& v1.tot_supply == vault.tot_supply - shares_left(book.batches)
            &&& forall|n: int| #[trigger] batch_at(b1, n) is None
            &&& b1.batches.len() == book.batches.len()
        }),
{
    let supply = vault.tot_supply as int;
    lemma_scan_burns_shares_left(book.batches, (0, supply, total_balance, supply));
    let (v1, b1, _paid) = withdraw_outcome(vault, book, true, total_balance)->0->Ok_0;
    assert(b1.batches == cleared(book.batches.len()));
    assert forall|n: int| #[trigger] batch_at(b1, n) is None by {
        if 0 <= n < b1.batches.len() {
            assert(b1.batches[n] is None);
        }
    }
}

/// While the vault's supply stands at par with its balance, a deposit
/// mints exactly as many shares as it brings, in a new batch that stands for
/// the whole amount.
pub proof fn lemma_deposit_at_par(vault: VaultState, book: BookView, amount: int)
    requires
        vault.tot_supply > 0,
        amount >= 0,
        book.batches.len() <= i128::MAX,
        fits_i128(amount * vault.tot_supply),
        deposit_outcome(vault, book, true, amount, vault.tot_supply as int) matches Some(Ok(_)),
    ensures
        ({
            let (v1, b1, n) = deposit_outcome(vault, book, true, amount, vault.tot_supply as int)->0->Ok_0;
            &&& v1.tot_supply == vault.tot_supply + amount
            &&& batch_at(b1, n as int) == Some(new_batch(amount, amount))
        }),
{
    lemma_par_shares(amount, vault.tot_supply as int);
    let (v1, b1, n) = deposit_outcome(vault, book, true, amount, vault.tot_supply as int)->0->Ok_0;
    assert(n as int == book.batches.len());
}

/// A lender's first deposit comes back whole: after a deposit of `amount`
/// into an empty book, a full withdrawal (whatever the vault holds by then)
/// returns `amount` as the deposit part, next to the fees.
pub proof fn lemma_first_deposit_returned(
    vault: VaultState,
    book: BookView,
    amount: i128,
    balance: int,
    later_balance: int,
)
    requires
        book.batches.len() == 0,
        deposit_outcome(vault, book, true, amount as int, balance) matches Some(Ok(_)),
        ({
            let (v1, b1, _n) = deposit_outcome(vault, book, true, amount as int, balance)->0->Ok_0;
            withdraw_outcome(v1, b1, true, later_balance) matches Some(Ok(_))
        }),
    ensures
        ({
            let (v1, b1, _n) = deposit_outcome(vault, book, true, amount as int, balance)->0->Ok_0;
            let (_v2, _b2, paid) = withdraw_outcome(v1, b1, true, later_balance)->0->Ok_0;
            paid.0 == amount
        }),
{
}

/// The running values of a full withdrawal keep the fees paid and the
/// balance left adding up to what they added up to at the start.
proof fn lemma_scan_conserves(batches: Seq<Option<BatchObj>>, start: (int, int, int, int))
    requires
        withdraw_scan(batches, start) is Some,
        fits_i128(start.0),
        fits_i128(start.3),
    ensures
        ({
            let (amount, _temp_supply, temp_balance, supply) = withdraw_scan(batches, start)->0;
            let (amount0, _temp_supply0, temp_balance0, _supply0) = start;
            &&& amount + temp_balance == amount0 + temp_balance0
            &&& fits_i128(amount)
            &&& fits_i128(supply)
        }),
    decreases batches.len(),
{
    if batches.len() > 0 {
        lemma_scan_conserves(batches.drop_last(), start);
    }
}

/// A full withdrawal adds up the fees of the lender's batches in order. With
/// one more batch at the end of the book, it pays what it pays without that
/// batch, plus the batch's fee: `balance * shares / supply`, on the balance
/// left once the earlier fees are paid and the supply as the withdrawal
/// reckons it by then, less the part `deposit * shares / initial` of the
/// batch's deposit. The deposit paid back is the same, and the vault's
/// supply loses the batch's shares.
pub proof fn lemma_withdraw_adds_batch_fees(
    vault: VaultState,
    book: BookView,
    batch: BatchObj,
    total_balance: int,
)
    requires
        withdraw_outcome(
            vault,
            BookView { batches: book.batches.push(Some(batch)), ..book },
            true,
            total_balance,
        ) matches Some(Ok(_)),
    ensures
        withdraw_outcome(vault, book, true, total_balance) matches Some(Ok(_)),
        ({
            let longer = BookView { batches: book.batches.push(Some(batch)), ..book };
            let (v2, _b2, paid2) = withdraw_outcome(vault, longer, true, total_balance)->0->Ok_0;
            let (v1, _b1, paid1) = withdraw_outcome(vault, book, true, total_balance)->0->Ok_0;
            let supply = vault.tot_supply as int;
            let (fees, reckoned_supply, balance_left, _actual) = withdraw_scan(
                book.batches,
                (0, supply, total_balance, supply),
            )->0;
            let (deposit1, fees1) = paid1;
            let (deposit2, fees2) = paid2;
            let s = batch.curr_s as int;
            &&& deposit2 == deposit1
            &&& fees == fees1
            &&& balance_left == total_balance - fees1
            &&& fees2 == fees1 + tdiv(balance_left * s, reckoned_supply) - tdiv(
                batch.deposit * s,
                batch.init_s as int,
            )
            &&& v2.tot_supply == v1.tot_supply - s
        }),
{
    let longer = BookView { batches: book.batches.push(Some(batch)), ..book };
    let supply = vault.tot_supply as int;
    let start = (0, supply, total_balance, supply);
    assert(longer.batches.drop_last() =~= book.batches);
    assert(longer.batches.last() == Some(batch));
    lemma_scan_conserves(book.batches, start);
}

/// A fee withdrawal on `shares` of a batch pays `balance * shares / supply`
/// less the part of the batch's deposit that the shares stand for,
/// `deposit * shares / initial`, measured against the shares the batch was
/// minted with, whatever was burned from it before; that part is minted
/// back as a new batch at the end of the book. The batch keeps its initial
/// shares and deposit and loses the burned shares, and goes when none are
/// left. For non-negative values the part is proportional to the shares:
/// `part * initial <= deposit * shares < (part + 1) * initial`, so
/// successive withdrawals on one batch take at most its deposit.
pub proof fn lemma_withdraw_fee_pays_beyond_deposit_part(
    vault: VaultState,
    book: BookView,
    batch_n: int,
    shares: int,
    total_balance: int,
)
    requires
        withdraw_fee_outcome(vault, book, true, batch_n, shares, total_balance) matches Some(
            Ok(_),
        ),
    ensures
        batch_at(book, batch_n) is Some,
        ({
            let b = batch_at(book, batch_n)->0;
            let (_v1, b1, fee) = withdraw_fee_outcome(
                vault,
                book,
                true,
                batch_n,
                shares,
                total_balance,
            )->0->Ok_0;
            let part = tdiv(b.deposit * shares, b.init_s as int);
            &&& fee == tdiv(total_balance * shares, vault.tot_supply as int) - part
            &&& b1.batches.len() == book.batches.len() + 1
            &&& b1.batches.last() matches Some(nb) && nb.deposit == part && nb.init_s
                == nb.curr_s
            &&& batch_at(b1, batch_n) == (if b.curr_s == shares {
                None
            } else {
                Some(BatchObj { curr_s: (b.curr_s - shares) as i128, ..b })
            })
            &&& (b.deposit >= 0 && shares >= 0 && b.init_s > 0 ==> part * b.init_s <= b.deposit
                * shares < (part + 1) * b.init_s)
        }),
{
    let b = batch_at(book, batch_n)->0;
    if b.deposit >= 0 && shares >= 0 && b.init_s > 0 {
        lemma_product_nonneg(b.deposit as int, shares);
        lemma_tdiv_floor_bounds(b.deposit * shares, b.init_s as int);
    }
}

/// A deposit of `amount` while the vault and the flash loan hold `balance`
/// adds a batch at the end of the lender's book, numbered by its place,
/// that stands for `amount` and holds the shares the supply grows by; the
/// lender's recorded deposit grows by `amount` (it becomes `amount` for a
/// first deposit). The first deposit ever mints one share per unit; later
/// ones are priced at the balance against the current supply,
/// `amount * supply / balance`, so that for non-negative values
/// `shares * balance <= amount * supply < (shares + 1) * balance`.
pub proof fn lemma_deposit_priced_at_balance(
    vault: VaultState,
    book: BookView,
    amount: i128,
    balance: int,
)
    requires
        book.batches.len() <= i128::MAX,
        deposit_outcome(vault, book, true, amount as int, balance) matches Some(Ok(_)),
    ensures
        ({
            let (v1, b1, n) = deposit_outcome(vault, book, true, amount as int, balance)->0->Ok_0;
            let supply = vault.tot_supply as int;
            let shares = v1.tot_supply - supply;
            &&& n == book.batches.len()
            &&& b1.batches == book.batches.push(
                Some(
                    BatchObj {
                        init_s: shares as i128,
                        deposit: amount,
                        curr_s: shares as i128,
                    },
                ),
            )
            &&& b1.initial_deposit == (if book.batches.len() == 0 {
                amount as int
            } else {
                book.initial_deposit + amount
            })
            &&& supply == 0 ==> shares == amount
            &&& supply != 0 ==> shares == tdiv(amount * supply, balance)
            &&& (amount >= 0 && supply > 0 && balance > 0 ==> shares * balance <= amount * supply
                < (shares + 1) * balance)
        }),
{
    let supply = vault.tot_supply as int;
    if amount >= 0 && supply > 0 && balance > 0 {
        lemma_product_nonneg(amount as int, supply);
        lemma_tdiv_floor_bounds(amount * supply, balance);
    }
}

} // verus!
