use xycloans::flash_loan::contract::{
    FlashLoanBorrow, FlashLoanCommon, FlashLoanLender, FlashLoanState, LoanTerms,
};
use xycloans::flash_loan::token_utility::{compute_fee, xfer_from_to_fl};
use xycloans::flash_loan::types::Error;
use xycloans::flash_loan::utils;

#[test]
fn successful_borrow() {
    let mut state = FlashLoanState { initialized: false };
    assert_eq!(FlashLoanCommon::init(&mut state), Ok(()));
    let terms = FlashLoanBorrow::borrow(&state, 100 * 10000000).unwrap().unwrap();
    assert_eq!(terms, LoanTerms { amount: 1_000_000_000, fee: 500_000 });
    assert_eq!(FlashLoanBorrow::try_repay(terms, true), Ok(500_000));
}

#[test]
fn unsuccessful_borrow() {
    let mut state = FlashLoanState { initialized: false };
    assert_eq!(FlashLoanCommon::init(&mut state), Ok(()));
    let terms = FlashLoanBorrow::borrow(&state, 100 * 10000000).unwrap().unwrap();
    assert_eq!(FlashLoanBorrow::try_repay(terms, false), Err(Error::LoanNotRepaid));
}

#[test]
fn refusals_before_and_after_init() {
    let mut state = FlashLoanState { initialized: false };
    assert_eq!(FlashLoanBorrow::borrow(&state, 10), Some(Err(Error::NotInitialized)));
    assert_eq!(FlashLoanLender::withdraw(&state, 10), Err(Error::NotInitialized));
    assert_eq!(FlashLoanCommon::init(&mut state), Ok(()));
    assert_eq!(FlashLoanCommon::init(&mut state), Err(Error::AlreadyInitialized));
    assert_eq!(FlashLoanLender::withdraw(&state, 10), Ok(10));
    assert_eq!(FlashLoanBorrow::borrow(&state, i128::MAX), None);
}

#[test]
fn fees() {
    assert_eq!(compute_fee(&1999), 0);
    assert_eq!(compute_fee(&2000), 1);
    assert_eq!(compute_fee(&-4001), -2);
    assert_eq!(utils::compute_fee(&100000), 50);
    assert_eq!(utils::compute_fee(&1999), 0);
    assert_eq!(xfer_from_to_fl(true), Ok(()));
    assert_eq!(xfer_from_to_fl(false), Err(Error::LoanNotRepaid));
}

#[test]
fn first_release_repayment() {
    assert_eq!(utils::try_repay(&100000, true, true), Some(Ok(())));
    assert_eq!(utils::try_repay(&100000, false, true), Some(Err(Error::GenericRepay)));
    assert_eq!(utils::try_repay(&100000, true, false), Some(Err(Error::GenericLend)));
    assert_eq!(utils::transfer(false), Err(Error::GenericLend));
    assert_eq!(utils::xfer_from_to_fl(false), Err(Error::GenericRepay));
}

#[test]
fn add_liquidity() {
    let mut state = FlashLoanState { initialized: false };
    assert_eq!(FlashLoanCommon::init(&mut state), Ok(()));
    // The provider moves its liquidity into the flash loan, which can then
    // lend all of it and give all of it back to the provider.
    let flash_loan_balance: i128 = 1000000000;
    assert_eq!(flash_loan_balance, 1000000000);
    let terms = FlashLoanBorrow::borrow(&state, flash_loan_balance).unwrap().unwrap();
    assert_eq!(terms.amount, 1000000000);
    assert_eq!(FlashLoanLender::withdraw(&state, flash_loan_balance), Ok(1000000000));
}
