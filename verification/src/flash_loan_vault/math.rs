//! The share arithmetic of the vault, in Rust's integer division.
use vstd::prelude::*;

use crate::arith::{checked_mul_div, div_ok, div_trunc, fits_i128, mul_div_ok, tdiv};

verus! {

/// The part of `deposit` that `burned` of `initial` shares stand for:
/// `deposit * burned / initial`, rounded toward zero. The ratio of the
/// shares is taken exactly, not cut to a fixed number of decimals first.
pub open spec fn deposit_ratio(deposit: int, burned: int, initial: int) -> int {
    tdiv(deposit * burned, initial)
}

/// The inputs on which `compute_deposit_ratio` completes: a non-zero
/// `initial` and a part that is an `i128`, however large the product
/// `deposit * burned`.
pub open spec fn deposit_ratio_ok(deposit: int, burned: int, initial: int) -> bool {
    mul_div_ok(deposit, burned, initial)
}

/// The shares that `deposited` buys when `total_supply` shares stand for
/// `pool_balance`.
pub open spec fn shares_amount(deposited: int, total_supply: int, pool_balance: int) -> int {
    tdiv(deposited * total_supply, pool_balance)
}

/// The inputs on which `compute_shares_amount` completes.
pub open spec fn shares_amount_ok(deposited: int, total_supply: int, pool_balance: int) -> bool {
    fits_i128(deposited * total_supply) && div_ok(deposited * total_supply, pool_balance)
}

/// The fees that `burned` of `total_supply` shares earn out of
/// `pool_balance`, beyond the deposit `ratio_deposit` they stand for.
pub open spec fn fee_amount(
    ratio_deposit: int,
    burned: int,
    total_supply: int,
    pool_balance: int,
) -> int {
    tdiv(pool_balance * burned, total_supply) - ratio_deposit
}

/// The inputs on which `compute_fee_amount` completes.
pub open spec fn fee_amount_ok(
    ratio_deposit: int,
    burned: int,
    total_supply: int,
    pool_balance: int,
) -> bool {
    &&& fits_i128(pool_balance * burned)
    &&& div_ok(pool_balance * burned, total_supply)
    &&& fits_i128(tdiv(pool_balance * burned, total_supply) - ratio_deposit)
}

/// The part of `deposit` that `burned` of `initial` shares stand for.
pub fn compute_deposit_ratio(deposit: i128, burned: i128, initial: i128) -> (r: i128)
    requires
        deposit_ratio_ok(deposit as int, burned as int, initial as int),
    ensures
        r == deposit_ratio(deposit as int, burned as int, initial as int),
{
    match checked_mul_div(deposit, burned, initial) {
        Some(v) => v,
        None => {
            assert(false);
            0
        },
    }
}

/// The shares that `deposited` buys when `total_supply` shares stand for
/// `pool_balance`.
pub fn compute_shares_amount(deposited: i128, total_supply: i128, pool_balance: i128) -> (r: i128)
    requires
        shares_amount_ok(deposited as int, total_supply as int, pool_balance as int),
    ensures
        r == shares_amount(deposited as int, total_supply as int, pool_balance as int),
{
    div_trunc(deposited * total_supply, pool_balance)
}

/// The fees that `burned` of `total_supply` shares earn out of
/// `pool_balance`, beyond the deposit `ratio_deposit` they stand for.
pub fn compute_fee_amount(
    ratio_deposit: i128,
    burned: i128,
    total_supply: i128,
    pool_balance: i128,
) -> (r: i128)
    requires
        fee_amount_ok(ratio_deposit as int, burned as int, total_supply as int, pool_balance as int),
    ensures
        r == fee_amount(ratio_deposit as int, burned as int, total_supply as int, pool_balance as int),
{
    div_trunc(pool_balance * burned, total_supply) - ratio_deposit
}

/// Tells whether `compute_deposit_ratio` completes on these inputs.
pub fn deposit_ratio_fits(deposit: i128, burned: i128, initial: i128) -> (b: bool)
    ensures
        b == deposit_ratio_ok(deposit as int, burned as int, initial as int),
{
    checked_mul_div(deposit, burned, initial).is_some()
}

/// Tells whether `compute_shares_amount` completes on these inputs.
pub fn shares_amount_fits(deposited: i128, total_supply: i128, pool_balance: i128) -> (b: bool)
    ensures
        b == shares_amount_ok(deposited as int, total_supply as int, pool_balance as int),
{
    let product = match deposited.checked_mul(total_supply) {
        Some(v) => v,
        None => return false,
    };
    !(pool_balance == 0 || (product == i128::MIN && pool_balance == -1))
}

/// Tells whether `compute_fee_amount` completes on these inputs.
pub fn fee_amount_fits(ratio_deposit: i128, burned: i128, total_supply: i128, pool_balance: i128) -> (b: bool)
    ensures
        b == fee_amount_ok(ratio_deposit as int, burned as int, total_supply as int, pool_balance as int),
{
    let product = match pool_balance.checked_mul(burned) {
        Some(v) => v,
        None => return false,
    };
    if total_supply == 0 || (product == i128::MIN && total_supply == -1) {
        return false;
    }
    let share = div_trunc(product, total_supply);
    share.checked_sub(ratio_deposit).is_some()
}

/// Burning every share of a batch stands for its whole deposit.
pub proof fn lemma_full_burn_returns_deposit(deposit: int, shares: int)
    requires
        shares > 0,
        fits_i128(deposit),
    ensures
        deposit_ratio_ok(deposit, shares, shares),
        deposit_ratio(deposit, shares, shares) == deposit,
{
    if deposit >= 0 {
        assert((deposit * shares) / shares == deposit) by (nonlinear_arith)
            requires
                shares > 0,
        ;
        assert(deposit * shares >= 0) by (nonlinear_arith)
            requires
                shares > 0,
                deposit >= 0,
        ;
    } else {
        assert((-(deposit * shares)) / shares == -deposit) by (nonlinear_arith)
            requires
                shares > 0,
        ;
        assert(deposit * shares < 0) by (nonlinear_arith)
            requires
                shares > 0,
                deposit < 0,
        ;
    }
}

/// Burning part of a batch never stands for more than its deposit, nor for
/// less than nothing, so its part is always computed.
pub proof fn lemma_partial_burn_bounded(deposit: int, burned: int, initial: int)
    requires
        fits_i128(deposit),
        deposit >= 0,
        0 <= burned <= initial,
        initial > 0,
    ensures
        deposit_ratio_ok(deposit, burned, initial),
        0 <= deposit_ratio(deposit, burned, initial) <= deposit,
{
    assert(0 <= deposit * burned <= deposit * initial) by (nonlinear_arith)
        requires
            deposit >= 0,
            0 <= burned <= initial,
    ;
    assert(0 <= (deposit * burned) / initial <= deposit) by (nonlinear_arith)
        requires
            0 <= deposit * burned <= deposit * initial,
            initial > 0,
    ;
}

/// When the shares stand one for one with the balance, a deposit buys
/// exactly its amount in shares.
pub proof fn lemma_par_shares(deposited: int, total: int)
    requires
        total > 0,
        deposited >= 0,
        fits_i128(deposited * total),
    ensures
        shares_amount_ok(deposited, total, total),
        shares_amount(deposited, total, total) == deposited,
{
    assert((deposited * total) / total == deposited) by (nonlinear_arith)
        requires
            total > 0,
    ;
    assert(deposited * total >= 0) by (nonlinear_arith)
        requires
            total > 0,
            deposited >= 0,
    ;
}

} // verus!
