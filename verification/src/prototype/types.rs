//! The errors of the flash-loan prototype.
use vstd::prelude::*;

verus! {

/// Why a prototype call was refused.
#[derive(Clone, Copy, Debug, PartialEq, Eq, Structural)]
pub enum Error {
    Generic,
    ContractAlreadyInitialized,
    GenericLend,
    GenericRepay,
}

impl Error {
    /// The contract error number under which the prototype reports this
    /// error.
    pub fn code(&self) -> (r: u32)
        ensures
            r == match *self {
                Error::Generic => 1u32,
                Error::ContractAlreadyInitialized => 2u32,
                Error::GenericLend => 3u32,
                Error::GenericRepay => 4u32,
            },
    {
        match self {
            Error::Generic => 1,
            Error::ContractAlreadyInitialized => 2,
            Error::GenericLend => 3,
            Error::GenericRepay => 4,
        }
    }
}

} // verus!
