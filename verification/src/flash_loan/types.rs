//! The flash loan's errors.
use vstd::prelude::*;

verus! {

/// Why a flash-loan call was refused.
#[derive(Clone, Copy, Debug, PartialEq, Eq, Structural)]
pub enum Error {
    NotInitialized,
    AlreadyInitialized,
    GenericLend,
    LoanNotRepaid,
    NotLP,
    LPNotAContract,
    GenericRepay,
}

} // verus!
