use xycloans::flash_loan_vault::contract::VaultContract;
use xycloans::flash_loan_vault::math::{
    compute_deposit_ratio, compute_fee_amount, compute_shares_amount, deposit_ratio_fits,
};
use xycloans::flash_loan_vault::storage::{LenderBook, VaultState};
use xycloans::flash_loan_vault::types::{BatchObj, Error};

fn new_vault() -> VaultState {
    let mut vault = VaultState::new();
    assert_eq!(VaultContract::initialize(&mut vault), Ok(()));
    vault
}

#[test]
fn workflow() {
    let mut vault = new_vault();
    let mut user1 = LenderBook::new();
    // The first deposit ever mints one share per unit, as batch 0.
    assert_eq!(VaultContract::deposit(&mut vault, &mut user1, true, 500, 0), Some(Ok(0)));
    assert_eq!(user1.initial_deposit, 500);
    // No fee has arrived: withdrawing the fees of the whole batch pays
    // nothing and mints the deposit back as batch 1.
    assert_eq!(VaultContract::withdraw_fee(&mut vault, &mut user1, true, 0, 500, 500), Some(Ok(0)));
    assert_eq!(VaultContract::get_shares(&user1, 0), Err(Error::BatchDoesntExist));
    assert_eq!(
        VaultContract::get_shares(&user1, 1),
        Ok(BatchObj { init_s: 500, deposit: 500, curr_s: 500 })
    );
    assert_eq!(VaultContract::get_increment(&user1), Ok(2));
    assert_eq!(vault.tot_supply, 500);
}

#[test]
fn workflow_withdraw_position() {
    let mut vault = new_vault();
    let mut user1 = LenderBook::new();
    let mut user2 = LenderBook::new();
    let mut balance: i128 = 0;

    assert_eq!(VaultContract::deposit(&mut vault, &mut user1, true, 50000000000, balance), Some(Ok(0)));
    balance += 50000000000;
    assert_eq!(VaultContract::deposit(&mut vault, &mut user2, true, 100000000000, balance), Some(Ok(0)));
    balance += 100000000000;

    let fee = VaultContract::withdraw_fee(&mut vault, &mut user2, true, 0, 100000000000, balance);
    assert_eq!(fee, Some(Ok(0)));

    // Fees arrive in the vault.
    balance += 10000;

    let fee = VaultContract::withdraw_fee(&mut vault, &mut user2, true, 1, 100000000000, balance);
    assert_eq!(fee, Some(Ok(6666)));
    balance -= 6666;

    let paid = VaultContract::withdraw(&mut vault, &mut user1, true, balance);
    assert_eq!(paid, Some(Ok((50000000000, 3334))));
    // user1 kept 50000000000 and gets back their deposit and the fees.
    let (deposit, fees) = paid.unwrap().unwrap();
    assert_eq!(50000000000i128 + deposit + fees, 100000003334);
    assert_eq!(VaultContract::get_shares(&user1, 0), Err(Error::BatchDoesntExist));
}

#[test]
fn vault_admin_invalid_auth() {
    let mut vault = new_vault();
    let mut user1 = LenderBook::new();
    assert_eq!(
        VaultContract::deposit(&mut vault, &mut user1, false, 500, 0),
        Some(Err(Error::InvalidAdminAuth))
    );
    assert_eq!(
        VaultContract::withdraw_fee(&mut vault, &mut user1, false, 0, 500, 500),
        Some(Err(Error::InvalidAdminAuth))
    );
    assert_eq!(VaultContract::withdraw(&mut vault, &mut user1, false, 500), Some(Err(Error::InvalidAdminAuth)));
    assert_eq!(vault.tot_supply, 0);
    assert_eq!(user1.batches.len(), 0);
}

#[test]
fn vault_initialize_twice_is_refused() {
    let mut vault = new_vault();
    assert_eq!(VaultContract::initialize(&mut vault), Err(Error::VaultAlreadyInitialized));
}

#[test]
fn fee_withdrawal_refusals() {
    let mut vault = new_vault();
    let mut user1 = LenderBook::new();
    assert_eq!(VaultContract::deposit(&mut vault, &mut user1, true, 500, 0), Some(Ok(0)));
    assert_eq!(
        VaultContract::withdraw_fee(&mut vault, &mut user1, true, 3, 10, 500),
        Some(Err(Error::BatchDoesntExist))
    );
    assert_eq!(
        VaultContract::withdraw_fee(&mut vault, &mut user1, true, 0, 501, 500),
        Some(Err(Error::InvalidShareBalance))
    );
}

#[test]
fn second_deposit_adds_to_the_recorded_deposit() {
    let mut vault = new_vault();
    let mut user1 = LenderBook::new();
    assert_eq!(VaultContract::deposit(&mut vault, &mut user1, true, 500, 0), Some(Ok(0)));
    // The balance has doubled through fees: shares now cost two units.
    assert_eq!(VaultContract::deposit(&mut vault, &mut user1, true, 100, 1000), Some(Ok(1)));
    assert_eq!(user1.initial_deposit, 600);
    assert_eq!(
        VaultContract::get_shares(&user1, 1),
        Ok(BatchObj { init_s: 50, deposit: 100, curr_s: 50 })
    );
    assert_eq!(vault.tot_supply, 550);
}

#[test]
fn deposit_with_empty_balance_traps() {
    let mut vault = new_vault();
    let mut user1 = LenderBook::new();
    assert_eq!(VaultContract::deposit(&mut vault, &mut user1, true, 500, 0), Some(Ok(0)));
    assert_eq!(VaultContract::deposit(&mut vault, &mut user1, true, 100, 0), None);
    assert_eq!(user1.batches.len(), 1);
}

#[test]
fn vault_math() {
    assert_eq!(compute_deposit_ratio(500, 500, 500), 500);
    // A third of the shares stands for a third of the deposit.
    assert_eq!(compute_deposit_ratio(900, 1, 3), 300);
    // The part is rounded down: 1000 * 333 / 1000.
    assert_eq!(compute_deposit_ratio(1000, 333, 1000), 333);
    assert_eq!(compute_shares_amount(100, 550, 1100), 50);
    assert_eq!(compute_fee_amount(100000000000, 100000000000, 150000000000, 150000010000), 6666);
    // Rust's division rounds toward zero.
    assert_eq!(compute_shares_amount(-7, 1, 2), -3);
    assert_eq!(compute_fee_amount(0, 7, -2, 1), -3);
}

#[test]
fn first_deposit_comes_back() {
    let mut vault = new_vault();
    let mut other = LenderBook::new();
    let mut lender = LenderBook::new();
    assert_eq!(VaultContract::deposit(&mut vault, &mut other, true, 1000, 0), Some(Ok(0)));
    assert_eq!(VaultContract::deposit(&mut vault, &mut lender, true, 300, 1000), Some(Ok(0)));
    // Fees of 130 arrive; the lender's 300 of 1300 shares are worth 330 by then.
    let paid = VaultContract::withdraw(&mut vault, &mut lender, true, 1430);
    assert_eq!(paid, Some(Ok((300, 30))));
    assert_eq!(vault.tot_supply, 1000);
}

#[test]
fn vault_admin_auth() {
    let mut vault = new_vault();
    let mut user1 = LenderBook::new();
    // Each call signed by the administrator goes through.
    assert_eq!(VaultContract::deposit(&mut vault, &mut user1, true, 500, 0), Some(Ok(0)));
    assert_eq!(VaultContract::withdraw_fee(&mut vault, &mut user1, true, 0, 500, 500), Some(Ok(0)));
    assert_eq!(VaultContract::withdraw(&mut vault, &mut user1, true, 500), Some(Ok((500, 0))));
    assert_eq!(vault.tot_supply, 0);
}

#[test]
fn deposit_ratio_of_large_deposits() {
    // The product deposit * burned leaves the i128 range; the part does not.
    let three_quarters = 3 * (1i128 << 125) - 1;
    assert!(deposit_ratio_fits(i128::MAX, 3, 4));
    assert_eq!(compute_deposit_ratio(i128::MAX, 3, 4), three_quarters);
    assert_eq!(compute_deposit_ratio(-i128::MAX, 3, 4), -three_quarters);
    assert_eq!(compute_deposit_ratio(i128::MIN, 1, 1), i128::MIN);
    assert_eq!(compute_deposit_ratio(i128::MAX / 10, 999_999, 1_000_000), 17014101331928577126245557202858038983);
    // Only a part outside the range, or no shares at all, is refused.
    assert!(!deposit_ratio_fits(i128::MIN, 1, -1));
    assert!(!deposit_ratio_fits(i128::MAX, 2, 1));
    assert!(!deposit_ratio_fits(5, 1, 0));
}

#[test]
fn withdrawal_fees_can_be_negative() {
    let mut vault = new_vault();
    let mut lender = LenderBook::new();
    assert_eq!(VaultContract::deposit(&mut vault, &mut lender, true, 1000, 0), Some(Ok(0)));
    // The holdings have fallen one unit below the shares: the batch's
    // fees come to -1 next to the whole deposit.
    assert_eq!(VaultContract::withdraw(&mut vault, &mut lender, true, 999), Some(Ok((1000, -1))));
}
