//! The factory's errors.
use vstd::prelude::*;

verus! {

/// Why a factory call was refused.
#[derive(Clone, Copy, Debug, PartialEq, Eq, Structural)]
pub enum Error {
    AlreadyInitialized,
    NotInitialized,
    NotAdmin,
    VaultDoesntExist,
    FlashLoanDoesntExist,
    PoolExists,
    NoPool,
}

} // verus!
