//! The errors of the archived fee vault.
use vstd::prelude::*;

verus! {

/// Why a call to the archived vault was refused.
#[derive(Clone, Copy, Debug, PartialEq, Eq, Structural)]
pub enum VaultError {
    Generic,
    NotAdmin,
    SharesExceeded,
}

impl VaultError {
    /// The contract error number under which the vault reports this error.
    pub fn code(&self) -> (r: u32)
        ensures
            r == match *self {
                VaultError::Generic => 1u32,
                VaultError::NotAdmin => 2u32,
                VaultError::SharesExceeded => 3u32,
            },
    {
        match self {
            VaultError::Generic => 1,
            VaultError::NotAdmin => 2,
            VaultError::SharesExceeded => 3,
        }
    }
}

} // verus!
