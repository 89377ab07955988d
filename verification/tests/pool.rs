use xycloans::pool::checks::{check_amount_gt_0, check_balance_ge_supply};
use xycloans::pool::compute_fee;
use xycloans::pool::contract::{try_repay, BorrowTerms, Pool};
use xycloans::pool::math::{compute_fee_earned, compute_fee_per_share};
use xycloans::pool::storage::{LenderState, PoolState};
use xycloans::pool::types::Error;

const STROOP: i128 = 10_000_000;

fn new_pool() -> PoolState {
    let mut pool = PoolState::new();
    assert_eq!(Pool::initialize(&mut pool), Ok(()));
    pool
}

/// Runs one flash loan of `amount` that the borrower repays, and returns
/// the fee that the pool collected.
fn repaid_loan(pool: &mut PoolState, amount: i128) -> i128 {
    let terms = Pool::borrow(pool, amount).unwrap().unwrap();
    assert_eq!(try_repay(pool, terms, true), Some(Ok(())));
    terms.fee
}

fn collect(pool: &PoolState, lender: &mut LenderState) -> i128 {
    assert_eq!(Pool::update_fee_rewards(pool, lender), Some(Ok(())));
    Pool::withdraw_matured(pool, lender).unwrap().unwrap()
}

/// One lender deposits 100, one loan of 100 is repaid, and the lender
/// collects the whole fee.
fn collect_yield_raw_scenario() {
    let mut pool = new_pool();
    let mut user1 = LenderState::new();
    assert_eq!(Pool::deposit(&mut pool, &mut user1, 100 * STROOP), Some(Ok(())));
    let fee = repaid_loan(&mut pool, 100 * STROOP);
    assert_eq!(fee, 800_000);
    assert_eq!(collect(&pool, &mut user1), 800_000);
}

#[test]
fn test_collect_yield_raw() {
    collect_yield_raw_scenario();
}

#[test]
fn collect_fees_collect_yield_raw() {
    collect_yield_raw_scenario();
}

/// Four lenders deposit 500 in all, twenty loans of 100 are repaid, and
/// after every lender has collected, the pool holds exactly the deposits.
fn collect_yield_amounts_scenario() {
    let mut pool = new_pool();
    let mut users = [LenderState::new(); 4];
    let deposits = [100 * STROOP, 300 * STROOP, 50 * STROOP, 50 * STROOP];
    let mut holdings: i128 = 0;
    for (user, amount) in users.iter_mut().zip(deposits.iter()) {
        assert_eq!(Pool::deposit(&mut pool, user, *amount), Some(Ok(())));
        holdings += amount;
    }
    let total_deposited = 500 * STROOP;
    for _ in 0..20 {
        holdings += repaid_loan(&mut pool, 100 * STROOP);
    }
    for user in users.iter_mut() {
        holdings -= collect(&pool, user);
    }
    assert_eq!(holdings, total_deposited);
}

#[test]
fn collect_yield_amounts() {
    collect_yield_amounts_scenario();
}

#[test]
fn collect_yield_amounts_moderc3156() {
    // The receiver's interface does not change how the pool lends and
    // shares the fees.
    collect_yield_amounts_scenario();
}

#[test]
fn yield_collect_sequence() {
    let mut pool = new_pool();
    let mut user1 = LenderState::new();
    let mut user2 = LenderState::new();
    assert_eq!(Pool::deposit(&mut pool, &mut user1, 100 * STROOP), Some(Ok(())));
    assert_eq!(Pool::deposit(&mut pool, &mut user2, 300 * STROOP), Some(Ok(())));

    let expected_yield = repaid_loan(&mut pool, 400 * STROOP);
    assert_eq!(expected_yield, 3_200_000);
    let expected_user1_yield = expected_yield / 4;
    let expected_user2_yield = (expected_yield / 4) * 3;

    assert_eq!(Pool::update_fee_rewards(&pool, &mut user1), Some(Ok(())));
    assert_eq!(Pool::update_fee_rewards(&pool, &mut user2), Some(Ok(())));
    assert_eq!(Pool::withdraw_matured(&pool, &mut user2), Some(Ok(expected_user2_yield)));
    assert_eq!(Pool::withdraw_matured(&pool, &mut user1), Some(Ok(expected_user1_yield)));

    // A second loan, then user2 adds liquidity that did not take part in it.
    repaid_loan(&mut pool, 400 * STROOP);
    assert_eq!(Pool::deposit(&mut pool, &mut user2, 100 * STROOP), Some(Ok(())));
    assert_eq!(collect(&pool, &mut user2), expected_user2_yield);
    assert_eq!(collect(&pool, &mut user1), expected_user1_yield);
}

#[test]
fn deposit() {
    let mut pool = new_pool();
    let mut user1 = LenderState::new();
    assert_eq!(Pool::deposit(&mut pool, &mut user1, 1_000_000_000), Some(Ok(())));
    assert_eq!(Pool::shares(&user1), 1_000_000_000);
    assert_eq!(pool.tot_supply, 1_000_000_000);
}

#[test]
fn deposit_0() {
    let mut pool = new_pool();
    let mut user1 = LenderState::new();
    let r = Pool::deposit(&mut pool, &mut user1, 0);
    assert_eq!(r, Some(Err(Error::InvalidAmount)));
    assert_eq!(Error::InvalidAmount.code(), 6);
    assert_eq!(user1, LenderState::new());
    assert_eq!(pool.tot_supply, 0);
}

#[test]
fn withdraw_liquidity_raw() {
    let mut pool = new_pool();
    let mut user1 = LenderState::new();
    assert_eq!(Pool::deposit(&mut pool, &mut user1, 50 * STROOP), Some(Ok(())));
    assert_eq!(Pool::withdraw(&mut pool, &mut user1, 30 * STROOP), Some(Ok(())));
    assert_eq!(Pool::shares(&user1), 20 * STROOP);
    assert_eq!(pool.tot_supply, 20 * STROOP);
}

#[test]
fn withdraw_liquidity_0() {
    let mut pool = new_pool();
    let mut user1 = LenderState::new();
    assert_eq!(Pool::deposit(&mut pool, &mut user1, 50 * STROOP), Some(Ok(())));
    assert_eq!(Pool::withdraw(&mut pool, &mut user1, 0), Some(Err(Error::InvalidAmount)));
    assert_eq!(Pool::shares(&user1), 50 * STROOP);
}

#[test]
fn withdraw_more_than_held_is_refused() {
    let mut pool = new_pool();
    let mut user1 = LenderState::new();
    assert_eq!(Pool::deposit(&mut pool, &mut user1, 50 * STROOP), Some(Ok(())));
    let r = Pool::withdraw(&mut pool, &mut user1, 51 * STROOP);
    assert_eq!(r, Some(Err(Error::InvalidShareBalance)));
    assert_eq!(Error::InvalidShareBalance.code(), 2);
    assert_eq!(pool.tot_supply, 50 * STROOP);
}

#[test]
fn withdraw_liquidity_with_yield_raw() {
    let mut pool = new_pool();
    let mut user1 = LenderState::new();
    assert_eq!(Pool::deposit(&mut pool, &mut user1, 50 * STROOP), Some(Ok(())));
    let expected_yield = repaid_loan(&mut pool, 50 * STROOP);
    assert_eq!(expected_yield, 400_000);
    assert_eq!(Pool::withdraw(&mut pool, &mut user1, 30 * STROOP), Some(Ok(())));
    assert_eq!(Pool::matured(&user1), expected_yield);
}

#[test]
fn yield_availability() {
    let mut pool = new_pool();
    let mut user1 = LenderState::new();
    let mut user2 = LenderState::new();
    assert_eq!(Pool::deposit(&mut pool, &mut user1, 50 * STROOP), Some(Ok(())));
    assert_eq!(Pool::deposit(&mut pool, &mut user2, 50 * STROOP), Some(Ok(())));
    let expected_yield = repaid_loan(&mut pool, 50 * STROOP);
    assert_eq!(Pool::update_fee_rewards(&pool, &mut user1), Some(Ok(())));
    assert_eq!(Pool::withdraw(&mut pool, &mut user1, 50 * STROOP), Some(Ok(())));
    assert_eq!(Pool::matured(&user1), expected_yield / 2);

    // user1 holds no share any more: later fees do not reach them.
    repaid_loan(&mut pool, 50 * STROOP);
    assert_eq!(Pool::update_fee_rewards(&pool, &mut user1), Some(Ok(())));
    assert_eq!(Pool::matured(&user1), expected_yield / 2);
}

#[test]
fn fee_per_share() {
    let (fps, dust) = compute_fee_per_share(0, 500_000, 100 * STROOP);
    assert_eq!(fps, 5000);
    assert_eq!(dust, 0);
    let fees = compute_fee_earned(20 * STROOP, fps, 0);
    assert_eq!(fees, 100_000);
}

#[test]
fn test_dust() {
    let (fps, dust) = compute_fee_per_share(3 * STROOP, 50 * STROOP, 200001 * STROOP);
    assert_eq!(fps, 3 * STROOP + 2499);
    assert_eq!(dust, 197_501);
    assert!(dust * STROOP < 200001 * STROOP);
}

#[test]
fn fee_earned_rounds_down() {
    // 3 shares at 5 stroops per share earn 15 / 10^7 of a unit: nothing.
    assert_eq!(compute_fee_earned(3, 5, 0), 0);
    assert_eq!(compute_fee_earned(3 * STROOP, 7, 2), 15);
}

#[test]
fn loan_fee_is_eight_basis_points_rounded_up() {
    assert_eq!(compute_fee(&1_000_000_000), 800_000);
    assert_eq!(compute_fee(&1250), 1);
    assert_eq!(compute_fee(&1251), 2);
    assert_eq!(compute_fee(&1), 1);
    assert_eq!(compute_fee(&0), 0);
}

#[test]
fn dust_is_carried_to_the_next_loan() {
    let mut pool = new_pool();
    let mut user1 = LenderState::new();
    // Three units of shares: a fee of one stroop is worth less than a stroop
    // per unit, so it stays as dust until enough has gathered.
    assert_eq!(Pool::deposit(&mut pool, &mut user1, 3 * STROOP), Some(Ok(())));
    let terms = BorrowTerms { amount: 1250, fee: 1 };
    assert_eq!(try_repay(&mut pool, terms, true), Some(Ok(())));
    assert_eq!((pool.fee_per_share_universal, pool.dust), (0, 1));
    assert_eq!(try_repay(&mut pool, terms, true), Some(Ok(())));
    assert_eq!((pool.fee_per_share_universal, pool.dust), (0, 2));
    assert_eq!(try_repay(&mut pool, terms, true), Some(Ok(())));
    assert_eq!((pool.fee_per_share_universal, pool.dust), (1, 0));
    assert_eq!(collect(&pool, &mut user1), 3);
}

#[test]
fn unrepaid_loan_is_refused() {
    let mut pool = new_pool();
    let mut user1 = LenderState::new();
    assert_eq!(Pool::deposit(&mut pool, &mut user1, 100 * STROOP), Some(Ok(())));
    let before = pool;
    let terms = Pool::borrow(&pool, 100 * STROOP).unwrap().unwrap();
    assert_eq!(terms.total(), 100 * STROOP + 800_000);
    assert_eq!(try_repay(&mut pool, terms, false), Some(Err(Error::LoanNotRepaid)));
    assert_eq!(Error::LoanNotRepaid.code(), 4);
    assert_eq!(pool, before);
}

#[test]
fn borrow_before_initialize_is_refused() {
    let pool = PoolState::new();
    assert_eq!(Pool::borrow(&pool, 100), Some(Err(Error::NotInitialized)));
    assert_eq!(Error::NotInitialized.code(), 1);
}

#[test]
fn initialize_twice_is_refused() {
    let mut pool = new_pool();
    assert_eq!(Pool::initialize(&mut pool), Err(Error::AlreadyInitialized));
    assert_eq!(Error::AlreadyInitialized.code(), 0);
}

#[test]
fn withdraw_matured_without_fees_is_refused() {
    let mut pool = new_pool();
    let mut user1 = LenderState::new();
    assert_eq!(Pool::deposit(&mut pool, &mut user1, 100 * STROOP), Some(Ok(())));
    assert_eq!(Pool::withdraw_matured(&pool, &mut user1), Some(Err(Error::NoFeesMatured)));
    assert_eq!(Error::NoFeesMatured.code(), 3);
}

#[test]
fn deposit_into_uninitialized_pool_traps() {
    let mut pool = PoolState::new();
    let mut user1 = LenderState::new();
    assert_eq!(Pool::deposit(&mut pool, &mut user1, 10), None);
}

#[test]
fn overflowing_deposit_traps_and_changes_nothing() {
    let mut pool = new_pool();
    let mut user1 = LenderState::new();
    assert_eq!(Pool::deposit(&mut pool, &mut user1, i128::MAX), Some(Ok(())));
    let mut user2 = LenderState::new();
    assert_eq!(Pool::deposit(&mut pool, &mut user2, 1), None);
    assert_eq!(user2, LenderState::new());
    assert_eq!(pool.tot_supply, i128::MAX);
}

#[test]
fn balance_checks() {
    assert_eq!(check_balance_ge_supply(10, 11), Err(Error::BalanceLtSupply));
    assert_eq!(Error::BalanceLtSupply.code(), 5);
    assert_eq!(check_balance_ge_supply(11, 11), Ok(()));
    assert_eq!(check_amount_gt_0(-1), Err(Error::InvalidAmount));
    assert_eq!(check_amount_gt_0(1), Ok(()));
}

#[test]
fn deposit_then_withdraw_restores_the_position() {
    let mut pool = new_pool();
    let mut user1 = LenderState::new();
    assert_eq!(Pool::deposit(&mut pool, &mut user1, 40 * STROOP), Some(Ok(())));
    repaid_loan(&mut pool, 40 * STROOP);
    let pool_before = pool;
    let mut user2 = LenderState::new();
    assert_eq!(Pool::deposit(&mut pool, &mut user2, 7 * STROOP), Some(Ok(())));
    assert_eq!(Pool::withdraw(&mut pool, &mut user2, 7 * STROOP), Some(Ok(())));
    assert_eq!(pool, pool_before);
    assert_eq!(user2.balance, 0);
    assert_eq!(user2.matured, 0);
}

#[test]
fn fee_withdraw_multiple_users() {
    // Loans of 100 on which the pool collects a fee of 500000 each.
    let loan = BorrowTerms { amount: 100 * STROOP, fee: 500_000 };
    let mut pool = new_pool();
    let mut user1 = LenderState::new();
    let mut user2 = LenderState::new();
    let mut balance1: i128 = 0;
    let mut balance2: i128 = 0;
    let mut pool_balance: i128 = 0;

    assert_eq!(Pool::deposit(&mut pool, &mut user1, 50 * STROOP), Some(Ok(())));
    assert_eq!(Pool::deposit(&mut pool, &mut user2, 100 * STROOP), Some(Ok(())));
    pool_balance += 150 * STROOP;

    assert_eq!(try_repay(&mut pool, loan, true), Some(Ok(())));
    pool_balance += loan.fee;

    assert_eq!(Pool::update_fee_rewards(&pool, &mut user1), Some(Ok(())));
    assert_eq!(Pool::update_fee_rewards(&pool, &mut user2), Some(Ok(())));
    let paid2 = Pool::withdraw_matured(&pool, &mut user2).unwrap().unwrap();
    let paid1 = Pool::withdraw_matured(&pool, &mut user1).unwrap().unwrap();
    balance1 += paid1;
    balance2 += paid2;
    pool_balance -= paid1 + paid2;
    assert_eq!(balance1, 166650);
    assert_eq!(balance2, 333300);

    assert_eq!(try_repay(&mut pool, loan, true), Some(Ok(())));
    pool_balance += loan.fee;
    assert_eq!(balance1, 166650);
    assert_eq!(balance2, 333300);

    // user2's new liquidity took no part in the second loan.
    assert_eq!(Pool::deposit(&mut pool, &mut user2, 150 * STROOP), Some(Ok(())));
    pool_balance += 150 * STROOP;

    let paid2 = collect(&pool, &mut user2);
    let paid1 = collect(&pool, &mut user1);
    balance1 += paid1;
    balance2 += paid2;
    pool_balance -= paid1 + paid2;

    assert_eq!(balance1, 333300);
    assert_eq!(balance2, 333300 * 2);
    let error: i128 = 100;
    assert_eq!(pool_balance, 300 * STROOP + error);
    assert_eq!(pool.dust, error);
}

#[test]
fn rewards_updated_in_steps_lose_at_most_one_unit() {
    let mut pool = new_pool();
    let mut often = LenderState::new();
    let mut once = LenderState::new();
    let mut rest = LenderState::new();
    assert_eq!(Pool::deposit(&mut pool, &mut often, 3), Some(Ok(())));
    assert_eq!(Pool::deposit(&mut pool, &mut once, 3), Some(Ok(())));
    assert_eq!(Pool::deposit(&mut pool, &mut rest, STROOP - 6), Some(Ok(())));

    assert_eq!(repaid_loan(&mut pool, 6_250_000_000), 5_000_000);
    assert_eq!(Pool::update_fee_rewards(&pool, &mut often), Some(Ok(())));
    assert_eq!(repaid_loan(&mut pool, 6_250_000_000), 5_000_000);
    assert_eq!(Pool::update_fee_rewards(&pool, &mut often), Some(Ok(())));
    assert_eq!(Pool::update_fee_rewards(&pool, &mut once), Some(Ok(())));

    assert_eq!(Pool::matured(&often), 2);
    assert_eq!(Pool::matured(&once), 3);
}
