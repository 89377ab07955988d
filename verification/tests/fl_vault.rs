use xycloans::fl_vault::contract::VaultContract;
use xycloans::fl_vault::storage::{
    add_user_batch, remove_user_batch, BatchObj, FlLenderBook, FlVaultState,
};

fn new_vault() -> FlVaultState {
    let mut vault = FlVaultState::new();
    assert_eq!(VaultContract::initialize(&mut vault), Some(()));
    vault
}

#[test]
fn initialize_twice_panics() {
    let mut vault = new_vault();
    assert_eq!(VaultContract::initialize(&mut vault), None);
}

#[test]
fn deposits_fee_withdrawal_and_withdrawal() {
    let mut vault = new_vault();
    let mut user1 = FlLenderBook::new();
    let mut user2 = FlLenderBook::new();
    // First deposit at time 10: one share per unit.
    assert_eq!(VaultContract::deposit(&mut vault, &mut user1, 1000, 1000, 10), Some(10));
    // Second deposit at time 20 while fees doubled the balance before it:
    // 1000 * 1000 / (3000 - 1000) = 500 shares.
    assert_eq!(VaultContract::deposit(&mut vault, &mut user2, 1000, 3000, 20), Some(20));
    assert_eq!(VaultContract::get_shares(&user2, 20), Some(BatchObj { init_s: 500, deposit: 1000, curr_s: 500 }));
    assert_eq!(vault.tot_supply, 1500);

    // user1 takes the fees of their batch: 3000 * 1000 / 1500 - 1000.
    assert_eq!(VaultContract::fee_withd_quote(&vault, &user1, 10, 1000, 3000), Some(Some(1000)));
    assert_eq!(VaultContract::fee_withd(&mut vault, &mut user1, 10, 1000, 3000, 2000, 30), Some(Some(1000)));
    // The batch is gone; the deposit is minted back at the new price:
    // 1000 * 500 / (2000 - 1000) = 500 shares.
    assert_eq!(VaultContract::get_shares(&user1, 10), None);
    assert_eq!(VaultContract::get_shares(&user1, 30), Some(BatchObj { init_s: 500, deposit: 1000, curr_s: 500 }));
    assert_eq!(VaultContract::batches(&user1), vec![30]);
    assert_eq!(vault.tot_supply, 1000);

    // user2 withdraws everything: no fee is left for them.
    assert_eq!(VaultContract::withdraw(&mut vault, &mut user2, 2000), Some((1000, 0)));
    assert_eq!(VaultContract::batches(&user2), Vec::<u64>::new());
    assert_eq!(vault.tot_supply, 500);
}

#[test]
fn negative_fee_changes_nothing() {
    let mut vault = new_vault();
    let mut user1 = FlLenderBook::new();
    assert_eq!(VaultContract::deposit(&mut vault, &mut user1, 1000, 1000, 10), Some(10));
    // The balance fell below the deposit: nothing to pay, nothing burned.
    assert_eq!(VaultContract::fee_withd_quote(&vault, &user1, 10, 1000, 900), Some(None));
    assert_eq!(VaultContract::fee_withd(&mut vault, &mut user1, 10, 1000, 900, 900, 20), Some(None));
    assert_eq!(VaultContract::get_shares(&user1, 10), Some(BatchObj { init_s: 1000, deposit: 1000, curr_s: 1000 }));
}

#[test]
fn missing_batch_or_shares_panic() {
    let mut vault = new_vault();
    let mut user1 = FlLenderBook::new();
    assert_eq!(VaultContract::deposit(&mut vault, &mut user1, 1000, 1000, 10), Some(10));
    // The checks a caller makes before a fee withdrawal.
    assert_eq!(VaultContract::get_shares(&user1, 11), None);
    assert_eq!(VaultContract::fee_withd_quote(&vault, &user1, 11, 10, 1000), None);
    assert_eq!(VaultContract::fee_withd_quote(&vault, &user1, 10, 1001, 1000), None);
    let mut stranger = FlLenderBook::new();
    assert_eq!(VaultContract::withdraw(&mut vault, &mut stranger, 1000), None);
}

#[test]
fn user_batch_list() {
    let mut book = FlLenderBook::new();
    add_user_batch(&mut book, 1);
    add_user_batch(&mut book, 2);
    add_user_batch(&mut book, 1);
    assert_eq!(book.batches, vec![1, 2, 1]);
    remove_user_batch(&mut book, 1);
    assert_eq!(book.batches, vec![2, 1]);
}
