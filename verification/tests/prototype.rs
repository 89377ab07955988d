use xycloans::prototype::contract::{
    FlashLoanBorrow, FlashLoanCommon, FlashLoanLender, LoanTerms, ProtoState,
};
use xycloans::prototype::types::Error;
use xycloans::prototype::utils::{compute_fee, get_deposit, remove_deposit, set_deposit, try_repay};

#[test]
fn test_test_successful_borrow() {
    let mut state = ProtoState { initialized: false };
    assert_eq!(FlashLoanCommon::init(&mut state), Ok(()));
    let terms = FlashLoanBorrow::borrow(&state, true, 100000).unwrap().unwrap();
    assert_eq!(terms, LoanTerms { amount: 100000, fee: 50 });
    assert_eq!(try_repay(&terms.amount, true, true), Some(Ok(())));
    // The pool held 1000000000 and gets back the amount and the fee.
    assert_eq!(1000000000 - terms.amount + terms.amount + terms.fee, 1000000050);
}

#[test]
fn test_unsuccessful_borrow() {
    let mut state = ProtoState { initialized: false };
    assert_eq!(FlashLoanCommon::init(&mut state), Ok(()));
    let terms = FlashLoanBorrow::borrow(&state, true, 100000).unwrap().unwrap();
    let r = try_repay(&terms.amount, false, true);
    assert_eq!(r, Some(Err(Error::GenericRepay)));
    assert_eq!(Error::GenericRepay.code(), 4);
}

#[test]
fn refusals() {
    let mut state = ProtoState { initialized: false };
    assert_eq!(FlashLoanBorrow::borrow(&state, true, 10), Some(Err(Error::Generic)));
    assert_eq!(FlashLoanCommon::init(&mut state), Ok(()));
    assert_eq!(FlashLoanCommon::init(&mut state), Err(Error::ContractAlreadyInitialized));
    assert_eq!(Error::ContractAlreadyInitialized.code(), 2);
    assert_eq!(FlashLoanBorrow::borrow(&state, false, 10), Some(Err(Error::Generic)));
    assert_eq!(try_repay(&10, true, false), Some(Err(Error::GenericLend)));
    assert_eq!(compute_fee(&20000), 10);
    assert_eq!(compute_fee(&1999), 0);
    assert_eq!(compute_fee(&-4001), -2);
    // No bound on the amount: the fee of the largest amount is computed.
    assert_eq!(compute_fee(&i128::MAX), i128::MAX / 2000);
}

#[test]
fn liquidity_providers_deposits() {
    let state = ProtoState { initialized: true };
    let mut recorded: Option<i128> = None;
    assert_eq!(FlashLoanLender::withdraw(&state, &mut recorded, true), Ok(0));
    assert_eq!(FlashLoanLender::prov_liq(&state, &mut recorded, 300, true), Some(Ok(())));
    assert_eq!(FlashLoanLender::prov_liq(&state, &mut recorded, 200, false), Some(Err(Error::GenericRepay)));
    assert_eq!(FlashLoanLender::prov_liq(&state, &mut recorded, 200, true), Some(Ok(())));
    assert_eq!(get_deposit(recorded), 500);
    // A failed payout keeps the recorded deposit; a successful one forgets it.
    assert_eq!(FlashLoanLender::withdraw(&state, &mut recorded, false), Err(Error::GenericLend));
    assert_eq!(get_deposit(recorded), 500);
    assert_eq!(FlashLoanLender::withdraw(&state, &mut recorded, true), Ok(500));
    assert_eq!(recorded, None);
    assert_eq!(FlashLoanLender::prov_liq(&state, &mut recorded, 500, true), Some(Ok(())));
    assert_eq!(FlashLoanLender::width_fee(&state, 7), Ok(7));
    remove_deposit(&mut recorded);
    assert_eq!(recorded, None);
    set_deposit(&mut recorded, 5);
    assert_eq!(recorded, Some(5));
    let closed = ProtoState { initialized: false };
    assert_eq!(FlashLoanLender::width_fee(&closed, 7), Err(Error::Generic));
}

#[test]
fn successful_test_successful_borrow() {
    let mut state = ProtoState { initialized: false };
    assert_eq!(FlashLoanCommon::init(&mut state), Ok(()));
    let mut lp_balance: i128 = 1000000000;
    let mut pool_balance: i128 = 0;
    let mut receiver_balance: i128 = 0;

    // The liquidity provider deposits everything it holds.
    let mut recorded: Option<i128> = None;
    assert_eq!(FlashLoanLender::prov_liq(&state, &mut recorded, 1000000000, true), Some(Ok(())));
    lp_balance -= 1000000000;
    pool_balance += 1000000000;

    // A loan of 100000: the receiver earns 100 with it and pays back the
    // amount and the fee, which reaches the provider through the fee vault.
    let terms = FlashLoanBorrow::borrow(&state, true, 100000).unwrap().unwrap();
    pool_balance -= terms.amount;
    receiver_balance += terms.amount + 100;
    assert_eq!(try_repay(&terms.amount, true, true), Some(Ok(())));
    receiver_balance -= terms.amount + terms.fee;
    pool_balance += terms.amount;
    lp_balance += terms.fee;

    assert_eq!(receiver_balance, 50);
    assert_eq!(pool_balance, 1000000000);
    assert_eq!(lp_balance, 50);

    // The provider withdraws its deposit.
    let back = FlashLoanLender::withdraw(&state, &mut recorded, true).unwrap();
    assert_eq!(recorded, None);
    pool_balance -= back;
    lp_balance += back;
    assert_eq!(lp_balance, 1000000000 + 50);
    assert_eq!(pool_balance, 0);
    assert_eq!(receiver_balance, 50);
}
