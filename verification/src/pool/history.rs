//! The pool over its whole life: any sequence of calls, from a new pool
//! whose lenders hold nothing, and what every state it reaches keeps.
use vstd::prelude::*;

use crate::fixed_point::lemma_mul_div_fits;
use crate::pool::contract::{
    borrow_terms_outcome, deposit_outcome, repay_outcome, update_fee_rewards_outcome,
    withdraw_matured_outcome, withdraw_outcome,
};
use crate::pool::ledger::{
    ledger_wf, lemma_deposit_keeps_books, lemma_fresh_books, lemma_repay_keeps_books,
    lemma_solvent_passes_balance_check, lemma_update_keeps_books,
    lemma_withdraw_keeps_books, lemma_withdraw_matured_keeps_books, solvent,
};
use crate::pool::storage::{LenderState, PoolState};

verus! {

/// A call on the pool. A lender is named by their place in the book of
/// lenders.
pub enum PoolCall {
    Initialize,
    Deposit(int, i128),
    Withdraw(int, i128),
    UpdateFeeRewards(int),
    WithdrawMatured(int),
    /// A flash loan of the amount; the flag tells whether the borrower pays
    /// back the amount and the fee.
    Loan(i128, bool),
}

/// The pool's entries, every lender's entries, and the pool's holdings of
/// its token.
pub struct PoolBooks {
    pub pool: PoolState,
    pub lenders: Seq<LenderState>,
    pub holdings: int,
}

/// A new pool with `n` lenders who hold nothing.
pub open spec fn fresh_books(n: nat) -> PoolBooks {
    PoolBooks {
        pool: PoolState {
            initialized: false,
            tot_supply: 0,
            fee_per_share_universal: 0,
            dust: 0,
        },
        lenders: Seq::new(
            n,
            |i: int| LenderState { balance: 0, fee_per_share_particular: 0, matured: 0 },
        ),
        holdings: 0,
    }
}

/// The books after `call`. A call that is refused or traps is reverted and
/// leaves them as they were; so is a transfer of a negative amount, which
/// the token refuses, and a call on a lender outside the book.
pub open spec fn apply_call(b: PoolBooks, call: PoolCall) -> PoolBooks {
    match call {
        PoolCall::Initialize => PoolBooks {
            pool: PoolState { initialized: true, ..b.pool },
            ..b
        },
        PoolCall::Deposit(i, amount) => if 0 <= i < b.lenders.len() {
            match deposit_outcome(b.pool, b.lenders[i], amount as int) {
                Some(Ok((p, l, _u))) => PoolBooks {
                    pool: p,
                    lenders: b.lenders.update(i, l),
                    holdings: b.holdings + amount,
                },
                _ => b,
            }
        } else {
            b
        },
        PoolCall::Withdraw(i, amount) => if 0 <= i < b.lenders.len() {
            match withdraw_outcome(b.pool, b.lenders[i], amount as int) {
                Some(Ok((p, l, _u))) => PoolBooks {
                    pool: p,
                    lenders: b.lenders.update(i, l),
                    holdings: b.holdings - amount,
                },
                _ => b,
            }
        } else {
            b
        },
        PoolCall::UpdateFeeRewards(i) => if 0 <= i < b.lenders.len() {
            match update_fee_rewards_outcome(b.pool, b.lenders[i]) {
                Some(Ok((p, l, _u))) => PoolBooks { pool: p, lenders: b.lenders.update(i, l), ..b },
                _ => b,
            }
        } else {
            b
        },
        PoolCall::WithdrawMatured(i) => if 0 <= i < b.lenders.len() {
            match withdraw_matured_outcome(b.pool, b.lenders[i]) {
                Some(Ok((p, l, paid))) => PoolBooks {
                    pool: p,
                    lenders: b.lenders.update(i, l),
                    holdings: b.holdings - paid,
                },
                _ => b,
            }
        } else {
            b
        },
        PoolCall::Loan(amount, repaid) => if amount < 0 {
            b
        } else {
            match borrow_terms_outcome(b.pool, amount as int) {
                Some(Ok(terms)) => match repay_outcome(b.pool, terms, repaid) {
                    Some(Ok(p)) => PoolBooks { pool: p, holdings: b.holdings + terms.fee, ..b },
                    _ => b,
                },
                _ => b,
            }
        },
    }
}

/// The books after `calls`, in order, starting from `start`.
pub open spec fn run_calls(start: PoolBooks, calls: Seq<PoolCall>) -> PoolBooks
    decreases calls.len(),
{
    if calls.len() == 0 {
        start
    } else {
        apply_call(run_calls(start, calls.drop_last()), calls.last())
    }
}

/// Consistent books of a solvent pool.
pub open spec fn sound(b: PoolBooks) -> bool {
    ledger_wf(b.pool, b.lenders) && solvent(b.holdings, b.pool, b.lenders)
}

proof fn lemma_call_keeps_sound(b: PoolBooks, call: PoolCall)
    requires
        sound(b),
    ensures
        sound(apply_call(b, call)),
{
    match call {
        PoolCall::Initialize => {
            assert(forall|j: int|
                0 <= j < b.lenders.len() ==> #[trigger] b.lenders[j].wf(b.pool) ==> b.lenders[j].wf(
                    PoolState { initialized: true, ..b.pool },
                ));
        },
        PoolCall::Deposit(i, amount) => {
            if 0 <= i < b.lenders.len() && deposit_outcome(b.pool, b.lenders[i], amount as int) matches Some(Ok(_)) {
                lemma_deposit_keeps_books(b.pool, b.lenders, i, amount as int, b.holdings);
            }
        },
        PoolCall::Withdraw(i, amount) => {
            if 0 <= i < b.lenders.len() && withdraw_outcome(b.pool, b.lenders[i], amount as int) matches Some(Ok(_)) {
                lemma_withdraw_keeps_books(b.pool, b.lenders, i, amount as int, b.holdings);
            }
        },
        PoolCall::UpdateFeeRewards(i) => {
            if 0 <= i < b.lenders.len() && update_fee_rewards_outcome(b.pool, b.lenders[i]) matches Some(Ok(_)) {
                lemma_update_keeps_books(b.pool, b.lenders, i, b.holdings);
            }
        },
        PoolCall::WithdrawMatured(i) => {
            if 0 <= i < b.lenders.len() && withdraw_matured_outcome(b.pool, b.lenders[i]) matches Some(Ok(_)) {
                lemma_withdraw_matured_keeps_books(b.pool, b.lenders, i, b.holdings);
            }
        },
        PoolCall::Loan(amount, repaid) => {
            if amount >= 0 {
                if let Some(Ok(terms)) = borrow_terms_outcome(b.pool, amount as int) {
                    if repay_outcome(b.pool, terms, repaid) matches Some(Ok(_)) {
                        lemma_mul_div_fits(amount as int, 10_000_000, 12_500_000_000);
                        assert(repaid);
                        lemma_repay_keeps_books(b.pool, b.lenders, terms, b.holdings);
                    }
                }
            }
        },
    }
}

/// Whatever calls a new pool goes through, its books stay consistent, it
/// stays solvent (its holdings cover every share, the dust and every fee
/// owed), and its holdings never fall below the total supply of shares: the
/// check `check_balance_ge_supply` passes in every state the pool reaches.
pub proof fn lemma_reachable_pool_passes_balance_check(n: nat, calls: Seq<PoolCall>)
    ensures
        sound(run_calls(fresh_books(n), calls)),
        run_calls(fresh_books(n), calls).holdings >= run_calls(
            fresh_books(n),
            calls,
        ).pool.tot_supply,
    decreases calls.len(),
{
    let b = run_calls(fresh_books(n), calls);
    if calls.len() == 0 {
        let f = fresh_books(n);
        lemma_fresh_books(f.pool, f.lenders);
    } else {
        lemma_reachable_pool_passes_balance_check(n, calls.drop_last());
        lemma_call_keeps_sound(run_calls(fresh_books(n), calls.drop_last()), calls.last());
    }
    lemma_solvent_passes_balance_check(b.pool, b.lenders, b.holdings);
}

} // verus!
