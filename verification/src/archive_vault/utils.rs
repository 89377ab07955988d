//! The share bookkeeping of the archived fee vault: a capped supply of
//! shares and each holder's balance, where an entry never written reads as
//! zero.
use vstd::prelude::*;

use crate::arith::fits_i128;

verus! {

/// The vault-wide share entries.
#[derive(Clone, Copy, Debug, PartialEq, Eq, Structural)]
pub struct ShareSupply {
    /// The cap on the total supply.
    pub max_supply: i128,
    /// The total supply.
    pub tot_supply: i128,
}

/// The supply and the holder's balance after a mint of `shares`, or `None`
/// where the sums leave the `i128` range.
pub open spec fn minted(supply: ShareSupply, balance: i128, shares: int) -> Option<(ShareSupply, i128)> {
    if fits_i128(supply.tot_supply + shares) && fits_i128(balance + shares) {
        Some(
            (
                ShareSupply { tot_supply: (supply.tot_supply + shares) as i128, ..supply },
                (balance + shares) as i128,
            ),
        )
    } else {
        None
    }
}

/// The supply and the holder's balance after a burn of `shares`, or `None`
/// where the vault panics: the holder has fewer shares, or the differences
/// leave the `i128` range.
pub open spec fn burned(supply: ShareSupply, balance: i128, shares: int) -> Option<(ShareSupply, i128)> {
    if shares <= balance && fits_i128(supply.tot_supply - shares) && fits_i128(balance - shares) {
        Some(
            (
                ShareSupply { tot_supply: (supply.tot_supply - shares) as i128, ..supply },
                (balance - shares) as i128,
            ),
        )
    } else {
        None
    }
}

/// Adds `shares` to the supply and to a holder's balance; nothing changes
/// where the result is `None`.
pub fn mint_shares(supply: &mut ShareSupply, balance: &mut i128, shares: i128) -> (r: Option<()>)
    ensures
        minted(*old(supply), *old(balance), shares as int) matches Some((s, b)) ==> r is Some
            && *final(supply) == s && *final(balance) == b,
        minted(*old(supply), *old(balance), shares as int) is None ==> r is None
            && *final(supply) == *old(supply) && *final(balance) == *old(balance),
{
    let tot = match supply.tot_supply.checked_add(shares) {
        Some(v) => v,
        None => return None,
    };
    let bal = match balance.checked_add(shares) {
        Some(v) => v,
        None => return None,
    };
    supply.tot_supply = tot;
    *balance = bal;
    Some(())
}

/// Takes `shares` off the supply and off a holder's balance; nothing
/// changes where the result is `None`.
pub fn burn_shares(supply: &mut ShareSupply, balance: &mut i128, shares: i128) -> (r: Option<()>)
    ensures
        burned(*old(supply), *old(balance), shares as int) matches Some((s, b)) ==> r is Some
            && *final(supply) == s && *final(balance) == b,
        burned(*old(supply), *old(balance), shares as int) is None ==> r is None
            && *final(supply) == *old(supply) && *final(balance) == *old(balance),
{
    if shares > *balance {
        return None;
    }
    let tot = match supply.tot_supply.checked_sub(shares) {
        Some(v) => v,
        None => return None,
    };
    let bal = match balance.checked_sub(shares) {
        Some(v) => v,
        None => return None,
    };
    supply.tot_supply = tot;
    *balance = bal;
    Some(())
}

/// Whether minting `shares` stays within the cap.
pub fn assert_supply(supply: &ShareSupply, shares: i128) -> (r: bool)
    ensures
        r == (supply.max_supply >= supply.tot_supply + shares),
{
    match supply.tot_supply.checked_add(shares) {
        Some(total) => supply.max_supply >= total,
        None => shares < 0,
    }
}

/// Burning the shares just minted gives the supply and the holder's
/// balance back.
pub proof fn lemma_mint_then_burn(supply: ShareSupply, balance: i128, shares: int)
    requires
        balance >= 0,
        minted(supply, balance, shares) is Some,
    ensures
        ({
            let (s1, b1) = minted(supply, balance, shares)->0;
            burned(s1, b1, shares) == Some((supply, balance))
        }),
{
    let (s1, b1) = minted(supply, balance, shares)->0;
    assert(s1.tot_supply - shares == supply.tot_supply);
    assert(ShareSupply { tot_supply: (s1.tot_supply - shares) as i128, ..s1 } == supply);
}

} // verus!
