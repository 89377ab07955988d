use xycloans::factory::contract::{FactoryState, XycloansFactory};
use xycloans::factory::types::Error;
use xycloans::pool::contract::Pool;
use xycloans::pool::storage::{LenderState, PoolState};

#[test]
fn deploy_once_per_token() {
    let mut state = FactoryState { has_admin: false };
    let mut registered: Option<u32> = None;
    assert_eq!(XycloansFactory::deploy_pool(&state, &registered), Err(Error::NotInitialized));
    assert_eq!(XycloansFactory::initialize(&mut state), Ok(()));
    assert_eq!(XycloansFactory::initialize(&mut state), Err(Error::AlreadyInitialized));
    assert_eq!(XycloansFactory::get_pool_address(registered), Err(Error::NoPool));
    assert_eq!(XycloansFactory::deploy_pool(&state, &registered), Ok(()));
    assert_eq!(XycloansFactory::set_pool(&state, &mut registered, 7), Ok(()));
    assert_eq!(XycloansFactory::deploy_pool(&state, &registered), Err(Error::PoolExists));
    assert_eq!(XycloansFactory::get_pool_address(registered), Ok(7));
}

/// Deploys a pool for `token` through the factory and initializes it, as
/// the factory does right after the deployment.
fn deploy(state: &FactoryState, registered: &mut Option<&'static str>, pool_address: &'static str) -> PoolState {
    assert_eq!(XycloansFactory::deploy_pool(state, registered), Ok(()));
    let mut pool = PoolState::new();
    assert_eq!(Pool::initialize(&mut pool), Ok(()));
    assert_eq!(XycloansFactory::set_pool(state, registered, pool_address), Ok(()));
    pool
}

#[test]
fn test_deployer() {
    let mut state = FactoryState { has_admin: false };
    assert_eq!(XycloansFactory::initialize(&mut state), Ok(()));
    let mut registered: Option<&'static str> = None;
    deploy(&state, &mut registered, "pool");
    assert!(XycloansFactory::get_pool_address(registered).is_ok());
}

#[test]
fn test_deposit() {
    let mut state = FactoryState { has_admin: false };
    assert_eq!(XycloansFactory::initialize(&mut state), Ok(()));
    let mut registered: Option<&'static str> = None;
    let mut pool = deploy(&state, &mut registered, "pool");
    assert_eq!(XycloansFactory::get_pool_address(registered), Ok("pool"));

    let amount = 1000 * 10_i128.pow(7);
    let mut user = LenderState::new();
    let mut pool_balance: i128 = 0;
    assert_eq!(Pool::deposit(&mut pool, &mut user, amount), Some(Ok(())));
    pool_balance += amount;
    assert_eq!(pool_balance, amount);
    assert_eq!(Pool::shares(&user), amount);
}
