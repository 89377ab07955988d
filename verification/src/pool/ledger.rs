//! The pool's books as a whole: the entries of every lender next to the
//! pool-wide entries and the pool's token holdings. The laws here show that
//! every call keeps the total supply equal to the sum of the lenders' shares,
//! and keeps the pool able to pay back every share, every matured fee and
//! every fee still pending.
use vstd::prelude::*;

use crate::fixed_point::{lemma_div_range, mul_div_ceil, stroop_spec};
use crate::pool::contract::{
    deposit_outcome, repay_outcome, update_fee_rewards_outcome, withdraw_matured_outcome,
    withdraw_outcome, BorrowTerms,
};
use crate::pool::laws::lemma_fees_conserved;
use crate::pool::math::interest_by_supply;
use crate::pool::rewards::{pending_fees, rewards_update_ok, rewards_updated, universal_updated};
use crate::pool::storage::{LenderState, PoolState};

verus! {

/// The sum of the shares of `lenders`.
pub open spec fn sum_balances(lenders: Seq<LenderState>) -> int
    decreases lenders.len(),
{
    if lenders.len() == 0 {
        0
    } else {
        sum_balances(lenders.drop_last()) + lenders.last().balance
    }
}

/// What the pool owes `lender` in fees, scaled by one stroop: the matured
/// fees and the exact (unrounded) pending fees at universal fee per share
/// `u`.
pub open spec fn owed_fees_scaled(u: int, lender: LenderState) -> int {
    lender.matured * stroop_spec() + lender.balance * (u - lender.fee_per_share_particular)
}

/// `owed_fees_scaled` summed over `lenders`.
pub open spec fn sum_owed_fees(u: int, lenders: Seq<LenderState>) -> int
    decreases lenders.len(),
{
    if lenders.len() == 0 {
        0
    } else {
        sum_owed_fees(u, lenders.drop_last()) + owed_fees_scaled(u, lenders.last())
    }
}

/// The books are consistent: the pool-wide entries and every lender's
/// entries are well formed, and the total supply is the sum of the shares.
pub open spec fn ledger_wf(pool: PoolState, lenders: Seq<LenderState>) -> bool {
    &&& pool.wf()
    &&& sum_balances(lenders) == pool.tot_supply
    &&& forall|i: int| 0 <= i < lenders.len() ==> (#[trigger] lenders[i]).wf(pool)
}

/// The pool's `holdings` of its token cover every share, the dust, and
/// every fee owed to the lenders.
pub open spec fn solvent(holdings: int, pool: PoolState, lenders: Seq<LenderState>) -> bool {
    holdings * stroop_spec() >= pool.tot_supply * stroop_spec() + pool.dust * stroop_spec()
        + sum_owed_fees(pool.fee_per_share_universal as int, lenders)
}

proof fn lemma_sum_balances_update(lenders: Seq<LenderState>, i: int, x: LenderState)
    requires
        0 <= i < lenders.len(),
    ensures
        sum_balances(lenders.update(i, x)) == sum_balances(lenders) - lenders[i].balance
            + x.balance,
    decreases lenders.len(),
{
    let u = lenders.update(i, x);
    if i == lenders.len() - 1 {
        assert(u.drop_last() =~= lenders.drop_last());
    } else {
        assert(u.drop_last() =~= lenders.drop_last().update(i, x));
        lemma_sum_balances_update(lenders.drop_last(), i, x);
    }
}

proof fn lemma_sum_owed_update(u: int, lenders: Seq<LenderState>, i: int, x: LenderState)
    requires
        0 <= i < lenders.len(),
    ensures
        sum_owed_fees(u, lenders.update(i, x)) == sum_owed_fees(u, lenders) - owed_fees_scaled(
            u,
            lenders[i],
        ) + owed_fees_scaled(u, x),
    decreases lenders.len(),
{
    let s = lenders.update(i, x);
    if i == lenders.len() - 1 {
        assert(s.drop_last() =~= lenders.drop_last());
    } else {
        assert(s.drop_last() =~= lenders.drop_last().update(i, x));
        lemma_sum_owed_update(u, lenders.drop_last(), i, x);
    }
}

proof fn lemma_balance_le_sum(lenders: Seq<LenderState>, i: int)
    requires
        0 <= i < lenders.len(),
        forall|j: int| 0 <= j < lenders.len() ==> (#[trigger] lenders[j]).balance >= 0,
    ensures
        0 <= lenders[i].balance <= sum_balances(lenders),
    decreases lenders.len(),
{
    lemma_sum_balances_nonneg(lenders.drop_last());
    if i < lenders.len() - 1 {
        lemma_balance_le_sum(lenders.drop_last(), i);
    }
}

proof fn lemma_sum_balances_nonneg(lenders: Seq<LenderState>)
    requires
        forall|j: int| 0 <= j < lenders.len() ==> (#[trigger] lenders[j]).balance >= 0,
    ensures
        sum_balances(lenders) >= 0,
    decreases lenders.len(),
{
    if lenders.len() > 0 {
        lemma_sum_balances_nonneg(lenders.drop_last());
    }
}

/// Raising the universal fee per share by `d` raises what is owed by `d`
/// per share.
proof fn lemma_sum_owed_shift(u: int, d: int, lenders: Seq<LenderState>)
    ensures
        sum_owed_fees(u + d, lenders) == sum_owed_fees(u, lenders) + d * sum_balances(lenders),
    decreases lenders.len(),
{
    if lenders.len() > 0 {
        lemma_sum_owed_shift(u, d, lenders.drop_last());
        let l = lenders.last();
        let b = l.balance as int;
        let p = l.fee_per_share_particular as int;
        assert(b * (u + d - p) == b * (u - p) + d * b) by (nonlinear_arith);
        let sb = sum_balances(lenders.drop_last());
        assert(d * (sb + b) == d * sb + d * b) by (nonlinear_arith);
    }
}

/// A rewards update never raises what the pool owes the lender: the fee it
/// credits is the pending fee rounded down.
proof fn lemma_update_lowers_owed(pool: PoolState, lender: LenderState)
    requires
        rewards_update_ok(pool, lender),
        lender.wf(pool),
    ensures
        owed_fees_scaled(pool.fee_per_share_universal as int, rewards_updated(pool, lender))
            <= owed_fees_scaled(pool.fee_per_share_universal as int, lender),
        rewards_updated(pool, lender).wf(pool),
{
    let b = lender.balance as int;
    let d = pool.fee_per_share_universal - lender.fee_per_share_particular;
    let x = b * d;
    let e = pending_fees(pool, lender);
    assert(e == x / stroop_spec());
    assert(e * stroop_spec() <= x) by (nonlinear_arith)
        requires
            e == x / stroop_spec(),
            stroop_spec() > 0,
    ;
    assert(x >= 0) by (nonlinear_arith)
        requires
            b >= 0,
            d >= 0,
            x == b * d,
    ;
    lemma_div_range(x, stroop_spec());
    let l1 = rewards_updated(pool, lender);
    assert(l1.balance * (pool.fee_per_share_universal - l1.fee_per_share_particular) == 0) by (
    nonlinear_arith)
        requires
            l1.fee_per_share_particular == pool.fee_per_share_universal,
    ;
    assert(l1.matured * stroop_spec() == lender.matured * stroop_spec() + e * stroop_spec()) by (
    nonlinear_arith)
        requires
            l1.matured == lender.matured + e,
    ;
}

/// A lender whose fee per share is up to date is owed only their matured
/// fees, whatever their shares.
proof fn lemma_owed_up_to_date(u: int, lender: LenderState, shares: int)
    requires
        lender.fee_per_share_particular == u,
    ensures
        owed_fees_scaled(u, LenderState { balance: shares as i128, ..lender }) == owed_fees_scaled(
            u,
            lender,
        ),
{
    assert((shares as i128) * (u - lender.fee_per_share_particular) == 0) by (nonlinear_arith)
        requires
            lender.fee_per_share_particular == u,
    ;
    assert(lender.balance * (u - lender.fee_per_share_particular) == 0) by (nonlinear_arith)
        requires
            lender.fee_per_share_particular == u,
    ;
}

/// A deposit keeps the books consistent, and a solvent pool that receives
/// the deposited amount stays solvent.
pub proof fn lemma_deposit_keeps_books(
    pool: PoolState,
    lenders: Seq<LenderState>,
    i: int,
    amount: int,
    holdings: int,
)
    requires
        ledger_wf(pool, lenders),
        0 <= i < lenders.len(),
        deposit_outcome(pool, lenders[i], amount) matches Some(Ok(_)),
    ensures
        ({
            let (p1, l1, _u) = deposit_outcome(pool, lenders[i], amount)->0->Ok_0;
            &&& ledger_wf(p1, lenders.update(i, l1))
            &&& solvent(holdings, pool, lenders) ==> solvent(
                holdings + amount,
                p1,
                lenders.update(i, l1),
            )
        }),
{
    let l = lenders[i];
    let (p1, l1, _u) = deposit_outcome(pool, l, amount)->0->Ok_0;
    let u = pool.fee_per_share_universal as int;
    lemma_update_lowers_owed(pool, l);
    let mid = rewards_updated(pool, l);
    lemma_owed_up_to_date(u, mid, l1.balance as int);
    assert(l1 == LenderState { balance: l1.balance, ..mid });
    lemma_sum_balances_update(lenders, i, l1);
    lemma_sum_owed_update(u, lenders, i, l1);
    let ls = lenders.update(i, l1);
    assert forall|j: int| 0 <= j < ls.len() implies (#[trigger] ls[j]).wf(p1) by {
        if j != i {
            assert(ls[j] == lenders[j]);
            assert(lenders[j].wf(pool));
        }
    }
    if solvent(holdings, pool, lenders) {
        assert((holdings + amount) * stroop_spec() == holdings * stroop_spec() + amount
            * stroop_spec()) by (nonlinear_arith);
        assert((pool.tot_supply + amount) * stroop_spec() == pool.tot_supply * stroop_spec()
            + amount * stroop_spec()) by (nonlinear_arith);
    }
}

/// A withdrawal keeps the books consistent, and a solvent pool that pays
/// out the withdrawn amount stays solvent.
pub proof fn lemma_withdraw_keeps_books(
    pool: PoolState,
    lenders: Seq<LenderState>,
    i: int,
    amount: int,
    holdings: int,
)
    requires
        ledger_wf(pool, lenders),
        0 <= i < lenders.len(),
        withdraw_outcome(pool, lenders[i], amount) matches Some(Ok(_)),
    ensures
        ({
            let (p1, l1, _u) = withdraw_outcome(pool, lenders[i], amount)->0->Ok_0;
            &&& ledger_wf(p1, lenders.update(i, l1))
            &&& solvent(holdings, pool, lenders) ==> solvent(
                holdings - amount,
                p1,
                lenders.update(i, l1),
            )
        }),
{
    let l = lenders[i];
    let (p1, l1, _u) = withdraw_outcome(pool, l, amount)->0->Ok_0;
    let u = pool.fee_per_share_universal as int;
    assert forall|j: int| 0 <= j < lenders.len() implies (#[trigger] lenders[j]).balance
        >= 0 by {
        assert(lenders[j].wf(pool));
    }
    lemma_balance_le_sum(lenders, i);
    lemma_update_lowers_owed(pool, l);
    let mid = rewards_updated(pool, l);
    lemma_owed_up_to_date(u, mid, l1.balance as int);
    assert(l1 == LenderState { balance: l1.balance, ..mid });
    lemma_sum_balances_update(lenders, i, l1);
    lemma_sum_owed_update(u, lenders, i, l1);
    let ls = lenders.update(i, l1);
    assert forall|j: int| 0 <= j < ls.len() implies (#[trigger] ls[j]).wf(p1) by {
        if j != i {
            assert(ls[j] == lenders[j]);
            assert(lenders[j].wf(pool));
        }
    }
    if solvent(holdings, pool, lenders) {
        assert((holdings - amount) * stroop_spec() == holdings * stroop_spec() - amount
            * stroop_spec()) by (nonlinear_arith);
        assert((pool.tot_supply - amount) * stroop_spec() == pool.tot_supply * stroop_spec()
            - amount * stroop_spec()) by (nonlinear_arith);
    }
}

/// A rewards update keeps the books consistent and the pool solvent.
pub proof fn lemma_update_keeps_books(
    pool: PoolState,
    lenders: Seq<LenderState>,
    i: int,
    holdings: int,
)
    requires
        ledger_wf(pool, lenders),
        0 <= i < lenders.len(),
        update_fee_rewards_outcome(pool, lenders[i]) matches Some(Ok(_)),
    ensures
        ({
            let (p1, l1, _u) = update_fee_rewards_outcome(pool, lenders[i])->0->Ok_0;
            &&& ledger_wf(p1, lenders.update(i, l1))
            &&& solvent(holdings, pool, lenders) ==> solvent(
                holdings,
                p1,
                lenders.update(i, l1),
            )
        }),
{
    let l = lenders[i];
    let u = pool.fee_per_share_universal as int;
    assert(l.wf(pool));
    lemma_update_lowers_owed(pool, l);
    let l1 = rewards_updated(pool, l);
    lemma_sum_balances_update(lenders, i, l1);
    lemma_sum_owed_update(u, lenders, i, l1);
    let ls = lenders.update(i, l1);
    assert forall|j: int| 0 <= j < ls.len() implies (#[trigger] ls[j]).wf(pool) by {
        if j != i {
            assert(ls[j] == lenders[j]);
        }
    }
}

/// Paying out matured fees keeps the books consistent, and a solvent pool
/// that sends the fees stays solvent.
pub proof fn lemma_withdraw_matured_keeps_books(
    pool: PoolState,
    lenders: Seq<LenderState>,
    i: int,
    holdings: int,
)
    requires
        ledger_wf(pool, lenders),
        0 <= i < lenders.len(),
        withdraw_matured_outcome(pool, lenders[i]) matches Some(Ok(_)),
    ensures
        ({
            let (p1, l1, paid) = withdraw_matured_outcome(pool, lenders[i])->0->Ok_0;
            &&& ledger_wf(p1, lenders.update(i, l1))
            &&& solvent(holdings, pool, lenders) ==> solvent(
                holdings - paid,
                p1,
                lenders.update(i, l1),
            )
        }),
{
    let l = lenders[i];
    let (p1, l1, paid) = withdraw_matured_outcome(pool, l)->0->Ok_0;
    let u = pool.fee_per_share_universal as int;
    assert(l.wf(pool));
    lemma_sum_balances_update(lenders, i, l1);
    lemma_sum_owed_update(u, lenders, i, l1);
    let ls = lenders.update(i, l1);
    assert forall|j: int| 0 <= j < ls.len() implies (#[trigger] ls[j]).wf(pool) by {
        if j != i {
            assert(ls[j] == lenders[j]);
        }
    }
    assert((holdings - paid) * stroop_spec() == holdings * stroop_spec() - paid * stroop_spec())
        by (nonlinear_arith);
    assert(l.matured * stroop_spec() == paid * stroop_spec());
    assert(l1.matured * stroop_spec() == 0) by (nonlinear_arith)
        requires
            l1.matured == 0,
    ;
}

/// A repaid flash loan keeps the books consistent, and a solvent pool that
/// receives the fee stays solvent: the fee covers what the shares earn from
/// it and the new dust.
pub proof fn lemma_repay_keeps_books(
    pool: PoolState,
    lenders: Seq<LenderState>,
    terms: BorrowTerms,
    holdings: int,
)
    requires
        ledger_wf(pool, lenders),
        terms.fee >= 0,
        repay_outcome(pool, terms, true) matches Some(Ok(_)),
    ensures
        ({
            let p1 = repay_outcome(pool, terms, true)->0->Ok_0;
            &&& ledger_wf(p1, lenders)
            &&& solvent(holdings, pool, lenders) ==> solvent(holdings + terms.fee, p1, lenders)
        }),
{
    let p1 = universal_updated(pool, terms.fee as int);
    lemma_fees_conserved(pool, terms.fee as int);
    let u = pool.fee_per_share_universal as int;
    let d = p1.fee_per_share_universal - pool.fee_per_share_universal;
    let s = pool.tot_supply as int;
    lemma_sum_owed_shift(u, d, lenders);
    assert forall|j: int| 0 <= j < lenders.len() implies (#[trigger] lenders[j]).wf(p1) by {
        assert(lenders[j].wf(pool));
    }
    // c * stroop >= d * s, where c is d * s / stroop rounded up
    let c = mul_div_ceil(d, s, stroop_spec());
    let m = d * s;
    assert(c * stroop_spec() >= d * s) by (nonlinear_arith)
        requires
            c == -((-m) / stroop_spec()),
            m == d * s,
            stroop_spec() > 0,
    ;
    if solvent(holdings, pool, lenders) {
        assert((holdings + terms.fee) * stroop_spec() == holdings * stroop_spec() + terms.fee
            * stroop_spec()) by (nonlinear_arith);
        assert(c * stroop_spec() + p1.dust * stroop_spec() == (terms.fee + pool.dust)
            * stroop_spec()) by (nonlinear_arith)
            requires
                c + p1.dust == terms.fee + pool.dust,
        ;
        assert(d * sum_balances(lenders) == d * s);
    }
}

proof fn lemma_sum_owed_nonneg(pool: PoolState, lenders: Seq<LenderState>)
    requires
        forall|i: int| 0 <= i < lenders.len() ==> (#[trigger] lenders[i]).wf(pool),
    ensures
        sum_owed_fees(pool.fee_per_share_universal as int, lenders) >= 0,
    decreases lenders.len(),
{
    if lenders.len() > 0 {
        lemma_sum_owed_nonneg(pool, lenders.drop_last());
        let l = lenders.last();
        assert(l.wf(pool));
        let d = pool.fee_per_share_universal - l.fee_per_share_particular;
        assert(l.matured * stroop_spec() >= 0) by (nonlinear_arith)
            requires
                l.matured >= 0,
        ;
        assert(l.balance * d >= 0) by (nonlinear_arith)
            requires
                l.balance >= 0,
                d >= 0,
        ;
    }
}

/// In consistent books, a solvent pool always passes the auditors' check
/// that its token balance is not below the total supply of shares.
pub proof fn lemma_solvent_passes_balance_check(
    pool: PoolState,
    lenders: Seq<LenderState>,
    holdings: int,
)
    requires
        ledger_wf(pool, lenders),
        solvent(holdings, pool, lenders),
    ensures
        holdings >= pool.tot_supply,
{
    lemma_sum_owed_nonneg(pool, lenders);
    assert(pool.dust * stroop_spec() >= 0) by (nonlinear_arith)
        requires
            pool.dust >= 0,
    ;
    assert(holdings >= pool.tot_supply) by (nonlinear_arith)
        requires
            holdings * stroop_spec() >= pool.tot_supply * stroop_spec(),
            stroop_spec() > 0,
    ;
}

/// The books of a new pool, where no lender holds anything, are consistent,
/// and the pool is solvent with empty holdings.
pub proof fn lemma_fresh_books(pool: PoolState, lenders: Seq<LenderState>)
    requires
        pool.tot_supply == 0,
        pool.fee_per_share_universal == 0,
        pool.dust == 0,
        forall|i: int| 0 <= i < lenders.len() ==> #[trigger] lenders[i] == (LenderState {
            balance: 0,
            fee_per_share_particular: 0,
            matured: 0,
        }),
    ensures
        ledger_wf(pool, lenders),
        solvent(0, pool, lenders),
    decreases lenders.len(),
{
    if lenders.len() > 0 {
        let rest = lenders.drop_last();
        assert forall|i: int| 0 <= i < rest.len() implies #[trigger] rest[i] == (LenderState {
            balance: 0,
            fee_per_share_particular: 0,
            matured: 0,
        }) by {
            assert(rest[i] == lenders[i]);
        }
        lemma_fresh_books(pool, rest);
        assert(lenders.last() == lenders[lenders.len() - 1]);
    }
}

} // verus!
