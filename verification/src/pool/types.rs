//! The errors that the pool reports.
use vstd::prelude::*;

verus! {

/// Why a pool call was refused.
#[derive(Clone, Copy, Debug, PartialEq, Eq, Structural)]
pub enum Error {
    AlreadyInitialized,
    NotInitialized,
    InvalidShareBalance,
    NoFeesMatured,
    LoanNotRepaid,
    BalanceLtSupply,
    InvalidAmount,
}

impl Error {
    /// The contract error number under which the pool reports this error.
    pub fn code(&self) -> (r: u32)
        ensures
            r == match *self {
                Error::AlreadyInitialized => 0u32,
                Error::NotInitialized => 1u32,
                Error::InvalidShareBalance => 2u32,
                Error::NoFeesMatured => 3u32,
                Error::LoanNotRepaid => 4u32,
                Error::BalanceLtSupply => 5u32,
                Error::InvalidAmount => 6u32,
            },
    {
        match self {
            Error::AlreadyInitialized => 0,
            Error::NotInitialized => 1,
            Error::InvalidShareBalance => 2,
            Error::NoFeesMatured => 3,
            Error::LoanNotRepaid => 4,
            Error::BalanceLtSupply => 5,
            Error::InvalidAmount => 6,
        }
    }
}

} // verus!
