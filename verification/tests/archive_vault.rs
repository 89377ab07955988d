use xycloans::archive_vault::types::VaultError;
use xycloans::archive_vault::utils::{assert_supply, burn_shares, mint_shares, ShareSupply};

#[test]
fn capped_shares() {
    let mut supply = ShareSupply { max_supply: 100, tot_supply: 0 };
    let mut balance: i128 = 0;
    assert!(assert_supply(&supply, 100));
    assert!(!assert_supply(&supply, 101));
    assert_eq!(mint_shares(&mut supply, &mut balance, 60), Some(()));
    assert_eq!((supply.tot_supply, balance), (60, 60));
    assert_eq!(burn_shares(&mut supply, &mut balance, 61), None);
    assert_eq!(burn_shares(&mut supply, &mut balance, 60), Some(()));
    assert_eq!((supply.tot_supply, balance), (0, 0));
    assert!(assert_supply(&ShareSupply { max_supply: 0, tot_supply: i128::MAX }, i128::MIN));
    assert_eq!(VaultError::SharesExceeded.code(), 3);
    assert_eq!(VaultError::NotAdmin.code(), 2);
    assert_eq!(VaultError::Generic.code(), 1);
}
