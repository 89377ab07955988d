//! What the pool keeps in its storage, as plain values. The contract keeps
//! one `PoolState` and one `LenderState` per lender; an entry that was never
//! written reads as zero.
use vstd::prelude::*;

verus! {

/// The pool-wide entries of the storage.
#[derive(Clone, Copy, Debug, PartialEq, Eq, Structural)]
pub struct PoolState {
    /// Whether the pool's token has been set.
    pub initialized: bool,
    /// The total supply of lender shares.
    pub tot_supply: i128,
    /// The fee earned so far by one share, in stroops of a share.
    pub fee_per_share_universal: i128,
    /// Collected fees that rounding has not yet spread over the shares.
    pub dust: i128,
}

/// The entries of the storage that belong to one lender.
#[derive(Clone, Copy, Debug, PartialEq, Eq, Structural)]
pub struct LenderState {
    /// The lender's shares.
    pub balance: i128,
    /// The universal fee per share at the lender's last rewards update.
    pub fee_per_share_particular: i128,
    /// Fees credited to the lender and not yet paid out.
    pub matured: i128,
}

impl PoolState {
    /// The storage of a pool that was never initialized.
    pub fn new() -> (r: PoolState)
        ensures
            r == (PoolState {
                initialized: false,
                tot_supply: 0,
                fee_per_share_universal: 0,
                dust: 0,
            }),
    {
        PoolState { initialized: false, tot_supply: 0, fee_per_share_universal: 0, dust: 0 }
    }

    /// The invariant of the pool-wide entries: nothing is negative.
    pub open spec fn wf(self) -> bool {
        &&& self.tot_supply >= 0
        &&& self.fee_per_share_universal >= 0
        &&& self.dust >= 0
    }
}

impl LenderState {
    /// The entries of a lender who never used the pool.
    pub fn new() -> (r: LenderState)
        ensures
            r == (LenderState { balance: 0, fee_per_share_particular: 0, matured: 0 }),
    {
        LenderState { balance: 0, fee_per_share_particular: 0, matured: 0 }
    }

    /// The invariant of a lender's entries in `pool`: nothing is negative
    /// and the lender's fee per share is not ahead of the pool's.
    pub open spec fn wf(self, pool: PoolState) -> bool {
        &&& self.balance >= 0
        &&& 0 <= self.fee_per_share_particular <= pool.fee_per_share_universal
        &&& self.matured >= 0
    }
}

} // verus!
