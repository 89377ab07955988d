//! The vault's errors and its record of a batch of fee shares.
use vstd::prelude::*;

verus! {

/// Why a vault call was refused.
#[derive(Clone, Copy, Debug, PartialEq, Eq, Structural)]
pub enum Error {
    Generic,
    VaultAlreadyInitialized,
    InvalidAdminAuth,
    InvalidShareBalance,
    BatchDoesntExist,
}

/// A batch of fee shares minted to a lender at once.
#[derive(Clone, Copy, Debug, PartialEq, Eq, Structural)]
pub struct BatchObj {
    /// The shares minted with the batch.
    pub init_s: i128,
    /// The deposit that the batch's shares stood for when minted.
    pub deposit: i128,
    /// The shares of the batch not yet burned.
    pub curr_s: i128,
}

} // verus!
