//! The factory's entry points. The factory deploys one pool per token and
//! keeps the register of them; the deployment itself, the administrator's
//! authorization and the events are left to the caller. A pool address is
//! any value of the caller's address type `A`.
use vstd::prelude::*;

use crate::factory::types::Error;

verus! {

/// The factory contract.
pub struct XycloansFactory;

/// The storage entries of the factory that its logic reads.
#[derive(Clone, Copy, Debug, PartialEq, Eq, Structural)]
pub struct FactoryState {
    /// Whether the administrator and the pool code have been set.
    pub has_admin: bool,
}

impl XycloansFactory {
    /// Sets the administrator and the pool code; it can be done once only.
    pub fn initialize(state: &mut FactoryState) -> (r: Result<(), Error>)
        ensures
            old(state).has_admin ==> r == Err::<(), Error>(Error::AlreadyInitialized)
                && *final(state) == *old(state),
            !old(state).has_admin ==> r is Ok && final(state).has_admin,
    {
        if state.has_admin {
            return Err(Error::AlreadyInitialized);
        }
        state.has_admin = true;
        Ok(())
    }

    /// Decides whether a pool may be deployed for a token whose entry in
    /// the register is `registered`: the factory must have an administrator
    /// and the token no pool yet.
    pub fn deploy_pool<A>(state: &FactoryState, registered: &Option<A>) -> (r: Result<(), Error>)
        ensures
            !state.has_admin ==> r == Err::<(), Error>(Error::NotInitialized),
            state.has_admin && registered is Some ==> r == Err::<(), Error>(Error::PoolExists),
            state.has_admin && registered is None ==> r is Ok,
    {
        if !state.has_admin {
            return Err(Error::NotInitialized);
        }
        if registered.is_some() {
            return Err(Error::PoolExists);
        }
        Ok(())
    }

    /// The pool registered for a token.
    pub fn get_pool_address<A>(registered: Option<A>) -> (r: Result<A, Error>)
        ensures
            registered matches Some(a) ==> r == Ok::<A, Error>(a),
            registered is None ==> r == Err::<A, Error>(Error::NoPool),
    {
        match registered {
            Some(a) => Ok(a),
            None => Err(Error::NoPool),
        }
    }

    /// Registers `pool` as a token's pool, replacing any earlier one; only
    /// the administrator may, so the factory must have one.
    pub fn set_pool<A>(state: &FactoryState, registered: &mut Option<A>, pool: A) -> (r: Result<(), Error>)
        ensures
            !state.has_admin ==> r == Err::<(), Error>(Error::NotInitialized)
                && *final(registered) == *old(registered),
            state.has_admin ==> r is Ok && *final(registered) == Some(pool),
    {
        if !state.has_admin {
            return Err(Error::NotInitialized);
        }
        *registered = Some(pool);
        Ok(())
    }
}

} // verus!
