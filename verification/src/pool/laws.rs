//! Properties of the pool that span its functions.
use vstd::prelude::*;

use crate::arith::fits_i128;
use crate::fixed_point::{lemma_div_range, lemma_mul_div_fits, mul_div_ceil, mul_div_floor, stroop_spec};
use crate::pool::contract::{deposit_outcome, withdraw_outcome, withdraw_matured_outcome};
use crate::pool::fee_of;
use crate::pool::math::{dust_of, interest_by_supply};
use crate::pool::rewards::{pending_fees, rewards_update_ok, rewards_updated, universal_update_ok, universal_updated};
use crate::pool::storage::{LenderState, PoolState};
use crate::pool::types::Error;

verus! {

/// The flash-loan fee is 0.08% of the amount, rounded up: the smallest fee
/// `f` with `1250 * f >= amount`.
pub proof fn lemma_fee_is_eight_basis_points(amount: int)
    requires
        fits_i128(amount * 10_000_000),
    ensures
        fee_of(amount) * 1250 >= amount,
        (fee_of(amount) - 1) * 1250 < amount,
        amount >= 0 ==> 0 <= fee_of(amount) <= amount,
{
    let n = -(amount * 10_000_000);
    let q = n / 12_500_000_000;
    let r = n % 12_500_000_000;
    assert(n == 12_500_000_000 * q + r && 0 <= r < 12_500_000_000) by (nonlinear_arith)
        requires
            q == n / 12_500_000_000,
            r == n % 12_500_000_000,
    ;
    assert(fee_of(amount) == -q);
    assert(-q * 1250 >= amount) by (nonlinear_arith)
        requires
            n == -(amount * 10_000_000),
            n == 12_500_000_000 * q + r,
            0 <= r < 12_500_000_000,
    ;
    assert((-q - 1) * 1250 < amount) by (nonlinear_arith)
        requires
            n == -(amount * 10_000_000),
            n == 12_500_000_000 * q + r,
            0 <= r < 12_500_000_000,
    ;
    if amount >= 0 {
        assert(-q <= amount) by (nonlinear_arith)
            requires
                amount >= 0,
                n == -(amount * 10_000_000),
                n == 12_500_000_000 * q + r,
                0 <= r < 12_500_000_000,
        ;
    }
}

/// A rewards update is idempotent: a second update right after the first
/// credits nothing more.
pub proof fn lemma_rewards_update_idempotent(pool: PoolState, lender: LenderState)
    requires
        rewards_update_ok(pool, lender),
    ensures
        rewards_update_ok(pool, rewards_updated(pool, lender)),
        rewards_updated(pool, rewards_updated(pool, lender)) == rewards_updated(pool, lender),
{
    let l1 = rewards_updated(pool, lender);
    assert(pending_fees(pool, l1) == 0) by {
        assert((l1.balance as int) * 0 == 0);
    }
}

/// Bringing rewards up to date in two steps, at an intermediate universal
/// fee per share and then at the final one, never credits more than one
/// update at the final one, and credits at most one unit less: the two
/// roundings down lose at most one unit between them.
pub proof fn lemma_rewards_update_in_steps(
    mid: PoolState,
    last: PoolState,
    lender: LenderState,
)
    requires
        0 <= lender.balance,
        lender.fee_per_share_particular <= mid.fee_per_share_universal
            <= last.fee_per_share_universal,
        rewards_update_ok(mid, lender),
        rewards_update_ok(last, rewards_updated(mid, lender)),
        rewards_update_ok(last, lender),
    ensures
        ({
            let stepped = rewards_updated(last, rewards_updated(mid, lender));
            let direct = rewards_updated(last, lender);
            &&& stepped.balance == direct.balance
            &&& stepped.fee_per_share_particular == direct.fee_per_share_particular
            &&& direct.matured - 1 <= stepped.matured <= direct.matured
        }),
{
    let st = stroop_spec();
    let b = lender.balance as int;
    let x = b * (mid.fee_per_share_universal - lender.fee_per_share_particular);
    let y = b * (last.fee_per_share_universal - mid.fee_per_share_universal);
    assert(x + y == b * (last.fee_per_share_universal - lender.fee_per_share_particular))
        by (nonlinear_arith)
        requires
            x == b * (mid.fee_per_share_universal - lender.fee_per_share_particular),
            y == b * (last.fee_per_share_universal - mid.fee_per_share_universal),
    ;
    assert(x >= 0 && y >= 0) by (nonlinear_arith)
        requires
            b >= 0,
            lender.fee_per_share_particular <= mid.fee_per_share_universal
                <= last.fee_per_share_universal,
            x == b * (mid.fee_per_share_universal - lender.fee_per_share_particular),
            y == b * (last.fee_per_share_universal - mid.fee_per_share_universal),
    ;
    assert(x / st + y / st <= (x + y) / st <= x / st + y / st + 1) by (nonlinear_arith)
        requires
            x >= 0,
            y >= 0,
            st > 0,
    ;
}

/// Depositing and then withdrawing the same amount gives the lender and the
/// pool back their shares and supply; the withdrawal cannot be refused and
/// credits no further rewards.
pub proof fn lemma_deposit_then_withdraw(pool: PoolState, lender: LenderState, amount: int)
    requires
        deposit_outcome(pool, lender, amount) is Some,
        deposit_outcome(pool, lender, amount)->0 is Ok,
        lender.balance >= 0,
    ensures
        ({
            let (p1, l1, _u) = deposit_outcome(pool, lender, amount)->0->Ok_0;
            withdraw_outcome(p1, l1, amount) == Some(
                Ok::<(PoolState, LenderState, ()), Error>((pool, LenderState { balance: lender.balance, ..l1 }, ())),
            )
        }),
{
    let (p1, l1, _u) = deposit_outcome(pool, lender, amount)->0->Ok_0;
    let mid = rewards_updated(pool, lender);
    assert(pending_fees(p1, l1) == 0) by {
        assert((l1.balance as int) * 0 == 0);
    }
    assert(rewards_updated(p1, l1) == l1);
    assert(p1.tot_supply == pool.tot_supply + amount);
    assert(l1.balance == lender.balance + amount);
    let p2 = PoolState { tot_supply: (p1.tot_supply - amount) as i128, ..p1 };
    assert(p2 == pool);
    let l2 = LenderState { balance: (l1.balance - amount) as i128, ..l1 };
    assert(l2 == LenderState { balance: lender.balance, ..l1 });
}

/// A deposit or a withdrawal changes the total supply by exactly what it
/// changes the lender's shares by.
pub proof fn lemma_supply_moves_with_balance(pool: PoolState, lender: LenderState, amount: int)
    ensures
        deposit_outcome(pool, lender, amount) matches Some(Ok((p1, l1, _u))) ==> p1.tot_supply
            - pool.tot_supply == l1.balance - lender.balance == amount,
        withdraw_outcome(pool, lender, amount) matches Some(Ok((p1, l1, _u))) ==> p1.tot_supply
            - pool.tot_supply == l1.balance - lender.balance == -amount,
{
}

/// Paying out matured fees twice in a row: the second payment is refused.
pub proof fn lemma_matured_paid_once(pool: PoolState, lender: LenderState)
    requires
        withdraw_matured_outcome(pool, lender) matches Some(Ok(_)),
    ensures
        ({
            let (p1, l1, _paid) = withdraw_matured_outcome(pool, lender)->0->Ok_0;
            withdraw_matured_outcome(p1, l1) == Some(
                Err::<(PoolState, LenderState, i128), Error>(Error::NoFeesMatured),
            )
        }),
{
}

/// Spreading `collected` over the shares loses nothing: the fees given to
/// the shares (rounded up) and the new dust add up to what was collected
/// together with the old dust. The new dust is non-negative and worth less
/// than one stroop per share, and the universal fee per share does not
/// decrease.
pub proof fn lemma_fees_conserved(pool: PoolState, collected: int)
    requires
        universal_update_ok(pool, collected),
        collected + pool.dust >= 0,
    ensures
        ({
            let p1 = universal_updated(pool, collected);
            &&& mul_div_ceil(
                p1.fee_per_share_universal - pool.fee_per_share_universal,
                pool.tot_supply as int,
                stroop_spec(),
            ) + p1.dust == collected + pool.dust
            &&& p1.dust >= 0
            &&& p1.dust * stroop_spec() < pool.tot_supply
            &&& p1.fee_per_share_universal >= pool.fee_per_share_universal
        }),
{
    let a = collected + pool.dust;
    let s = pool.tot_supply as int;
    let st = stroop_spec();
    let ibs = interest_by_supply(a, s);
    lemma_mul_div_fits(a, st, s);
    // ibs = floor(a * st / s): s * ibs <= a * st < s * ibs + s
    let n = a * st;
    assert(ibs == n / s);
    assert(s * ibs <= n < s * ibs + s) by (nonlinear_arith)
        requires
            s > 0,
            ibs == n / s,
    ;
    // c = ceil(ibs * s / st): (c - 1) * st < ibs * s <= c * st
    let c = mul_div_ceil(ibs, s, st);
    let m = ibs * s;
    assert(c == -((-m) / st));
    assert((c - 1) * st < m <= c * st) by (nonlinear_arith)
        requires
            c == -((-m) / st),
            st > 0,
    ;
    assert(m == s * ibs) by (nonlinear_arith)
        requires
            m == ibs * s,
    ;
    // dust = a - c
    assert(a - c >= 0) by (nonlinear_arith)
        requires
            (c - 1) * st < m,
            m <= n,
            n == a * st,
            st > 0,
    ;
    assert((a - c) * st < s) by (nonlinear_arith)
        requires
            m <= c * st,
            n < m + s,
            n == a * st,
    ;
    assert(ibs >= 0) by {
        lemma_div_range(n, s);
        assert(n >= 0) by (nonlinear_arith)
            requires
                a >= 0,
                n == a * st,
                st > 0,
        ;
    }
}

/// A lender whose rewards are up to date earns, from the next collected
/// fee, no more than their share of it, `earned * supply <= fee * shares`
/// (where the fee includes the dust held from earlier rounds), and falls
/// short of that share by less than one unit plus one unit per stroop of
/// shares: `(earned + 1) * supply * STROOP + shares * supply > fee * shares * STROOP`.
pub proof fn lemma_rewards_proportional(pool: PoolState, lender: LenderState, collected: int)
    requires
        universal_update_ok(pool, collected),
        collected + pool.dust >= 0,
        lender.fee_per_share_particular == pool.fee_per_share_universal,
        0 <= lender.balance,
    ensures
        pending_fees(universal_updated(pool, collected), lender) * pool.tot_supply <= (
        collected + pool.dust) * lender.balance,
        (pending_fees(universal_updated(pool, collected), lender) + 1) * pool.tot_supply
            * stroop_spec() + lender.balance * pool.tot_supply > (collected + pool.dust)
            * lender.balance * stroop_spec(),
{
    let a = collected + pool.dust;
    let s = pool.tot_supply as int;
    let st = stroop_spec();
    let b = lender.balance as int;
    let ibs = interest_by_supply(a, s);
    let n = a * st;
    assert(s * ibs <= n) by (nonlinear_arith)
        requires
            s > 0,
            ibs == n / s,
    ;
    let p1 = universal_updated(pool, collected);
    assert(p1.fee_per_share_universal - lender.fee_per_share_particular == ibs);
    let e = pending_fees(p1, lender);
    assert(e == (b * ibs) / st);
    assert(e * st <= b * ibs) by (nonlinear_arith)
        requires
            e == (b * ibs) / st,
            st > 0,
    ;
    assert(e * s <= a * b) by (nonlinear_arith)
        requires
            e * st <= b * ibs,
            s * ibs <= a * st,
            b >= 0,
            s > 0,
            st > 0,
    ;
    assert(s * ibs > n - s) by (nonlinear_arith)
        requires
            s > 0,
            ibs == n / s,
    ;
    assert(e * st > b * ibs - st) by (nonlinear_arith)
        requires
            e == (b * ibs) / st,
            st > 0,
    ;
    assert((e + 1) * s * st + b * s > a * b * st) by (nonlinear_arith)
        requires
            e * st > b * ibs - st,
            s * ibs > a * st - s,
            b >= 0,
            s > 0,
            st > 0,
    ;
}

/// Liquidity deposited after fees were collected earns nothing of them:
/// right after a deposit the lender has no pending fee.
pub proof fn lemma_deposit_earns_no_past_fees(pool: PoolState, lender: LenderState, amount: int)
    requires
        deposit_outcome(pool, lender, amount) matches Some(Ok(_)),
    ensures
        ({
            let (p1, l1, _u) = deposit_outcome(pool, lender, amount)->0->Ok_0;
            pending_fees(p1, l1) == 0
        }),
{
    let (p1, l1, _u) = deposit_outcome(pool, lender, amount)->0->Ok_0;
    assert((l1.balance as int) * 0 == 0);
}

/// A lender without shares earns nothing, whatever fees the pool collects.
pub proof fn lemma_no_shares_no_fees(pool: PoolState, lender: LenderState)
    requires
        lender.balance == 0,
    ensures
        pending_fees(pool, lender) == 0,
{
    assert(0 * (pool.fee_per_share_universal - lender.fee_per_share_particular) == 0);
}

} // verus!
