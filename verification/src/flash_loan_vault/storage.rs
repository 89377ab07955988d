//! What the vault keeps in its storage, as plain values, and the operations
//! on it. A lender's batches are numbered from zero in the order they were
//! minted; a batch whose shares are all burned is removed, and its number is
//! not reused.
use vstd::prelude::*;

use crate::arith::fits_i128;
use crate::flash_loan_vault::types::BatchObj;

verus! {

/// The vault-wide entries of the storage.
#[derive(Clone, Copy, Debug, PartialEq, Eq, Structural)]
pub struct VaultState {
    /// Whether the vault's administrator has been set.
    pub initialized: bool,
    /// The total supply of fee shares.
    pub tot_supply: i128,
}

/// The entries of the storage that belong to one lender.
pub struct LenderBook {
    /// The lender's batches by number; `None` for a removed batch.
    pub batches: Vec<Option<BatchObj>>,
    /// What the lender has deposited into the flash loan.
    pub initial_deposit: i128,
}

/// A lender's entries as mathematical values.
pub struct BookView {
    pub batches: Seq<Option<BatchObj>>,
    pub initial_deposit: int,
}

impl View for LenderBook {
    type V = BookView;

    open spec fn view(&self) -> BookView {
        BookView { batches: self.batches@, initial_deposit: self.initial_deposit as int }
    }
}

impl VaultState {
    /// The storage of a vault that was never initialized.
    pub fn new() -> (r: VaultState)
        ensures
            r == (VaultState { initialized: false, tot_supply: 0 }),
    {
        VaultState { initialized: false, tot_supply: 0 }
    }
}

impl LenderBook {
    /// The entries of a lender who never deposited.
    pub fn new() -> (r: LenderBook)
        ensures
            r@.batches == Seq::<Option<BatchObj>>::empty(),
            r@.initial_deposit == 0,
    {
        LenderBook { batches: Vec::new(), initial_deposit: 0 }
    }
}

/// The batch numbered `batch_n`, if it exists.
pub open spec fn batch_at(book: BookView, batch_n: int) -> Option<BatchObj> {
    if 0 <= batch_n < book.batches.len() {
        book.batches[batch_n]
    } else {
        None
    }
}

/// The number that the lender's next batch gets.
pub fn get_increment(book: &LenderBook) -> (r: i128)
    ensures
        r == book@.batches.len(),
{
    book.batches.len() as i128
}

/// The batch numbered `batch_n`, if it exists.
pub fn get_batch(book: &LenderBook, batch_n: i128) -> (r: Option<BatchObj>)
    ensures
        r == batch_at(book@, batch_n as int),
{
    if 0 <= batch_n && batch_n < book.batches.len() as i128 {
        book.batches[batch_n as usize]
    } else {
        None
    }
}

/// The batch a mint of `shares` for `deposit` creates.
pub open spec fn new_batch(shares: int, deposit: int) -> BatchObj {
    BatchObj { init_s: shares as i128, deposit: deposit as i128, curr_s: shares as i128 }
}

/// Mints a new batch of `shares` standing for `deposit` to the lender and
/// returns its number.
pub fn mint_shares(vault: &mut VaultState, book: &mut LenderBook, shares: i128, deposit: i128) -> (r: i128)
    requires
        fits_i128(old(vault).tot_supply + shares),
    ensures
        *final(vault) == (VaultState { tot_supply: (old(vault).tot_supply + shares) as i128, ..*old(vault) }),
        final(book)@.batches == old(book)@.batches.push(Some(new_batch(shares as int, deposit as int))),
        final(book)@.initial_deposit == old(book)@.initial_deposit,
        r == old(book)@.batches.len(),
{
    vault.tot_supply = vault.tot_supply + shares;
    let n = book.batches.len() as i128;
    book.batches.push(Some(BatchObj { init_s: shares, deposit, curr_s: shares }));
    n
}

/// The batch `b` once `shares` of it are burned: removed when none is left.
pub open spec fn burned_batch(b: BatchObj, shares: int) -> Option<BatchObj> {
    if b.curr_s - shares == 0 {
        None
    } else {
        Some(BatchObj { curr_s: (b.curr_s - shares) as i128, ..b })
    }
}

/// Burns `shares` of the lender's batch `batch_n`.
pub fn burn_shares(vault: &mut VaultState, book: &mut LenderBook, shares: i128, batch_n: i128)
    requires
        batch_at(old(book)@, batch_n as int) is Some,
        fits_i128(batch_at(old(book)@, batch_n as int)->0.curr_s - shares),
        fits_i128(old(vault).tot_supply - shares),
    ensures
        *final(vault) == (VaultState { tot_supply: (old(vault).tot_supply - shares) as i128, ..*old(vault) }),
        final(book)@.batches == old(book)@.batches.update(
            batch_n as int,
            burned_batch(batch_at(old(book)@, batch_n as int)->0, shares as int),
        ),
        final(book)@.initial_deposit == old(book)@.initial_deposit,
{
    let len = book.batches.len();
    assert(0 <= batch_n < len);
    let i = batch_n as usize;
    assert(book.batches@[i as int] == batch_at(book@, batch_n as int));
    let b = book.batches[i].unwrap();
    vault.tot_supply = vault.tot_supply - shares;
    let left = b.curr_s - shares;
    if left == 0 {
        book.batches.set(i, None);
    } else {
        book.batches.set(i, Some(BatchObj { curr_s: left, ..b }));
    }
}

} // verus!
