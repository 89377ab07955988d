//! What this vault keeps in its storage, as plain values. A lender's batches
//! are keyed by the ledger timestamp at which they were minted; the lender's
//! list of batches keeps the newest first.
use std::collections::HashMap;
use vstd::prelude::*;

use crate::arith::fits_i128;

verus! {

broadcast use vstd::std_specs::hash::group_hash_axioms;

/// A batch of fee shares minted to a lender at once.
#[derive(Clone, Copy, Debug, PartialEq, Eq, Structural)]
pub struct BatchObj {
    /// The shares minted with the batch.
    pub init_s: i128,
    /// The deposit that the batch's shares stood for when minted.
    pub deposit: i128,
    /// The shares of the batch not yet burned.
    pub curr_s: i128,
}

/// The vault-wide entries of the storage.
#[derive(Clone, Copy, Debug, PartialEq, Eq, Structural)]
pub struct FlVaultState {
    /// Whether the vault's administrator has been set.
    pub initialized: bool,
    /// The total supply of fee shares.
    pub tot_supply: i128,
}

/// The entries of the storage that belong to one lender.
pub struct FlLenderBook {
    /// The timestamps of the lender's batches, newest first.
    pub batches: Vec<u64>,
    /// The lender's batches by timestamp.
    pub store: HashMap<u64, BatchObj>,
    /// The lender's last deposit, if they ever deposited.
    pub initial_deposit: Option<i128>,
}

/// A lender's entries as mathematical values.
pub struct FlBookView {
    pub batches: Seq<u64>,
    pub store: Map<u64, BatchObj>,
    pub initial_deposit: Option<i128>,
}

impl View for FlLenderBook {
    type V = FlBookView;

    open spec fn view(&self) -> FlBookView {
        FlBookView {
            batches: self.batches@,
            store: self.store@,
            initial_deposit: self.initial_deposit,
        }
    }
}

impl FlVaultState {
    /// The storage of a vault that was never initialized.
    pub fn new() -> (r: FlVaultState)
        ensures
            r == (FlVaultState { initialized: false, tot_supply: 0 }),
    {
        FlVaultState { initialized: false, tot_supply: 0 }
    }
}

impl FlLenderBook {
    /// The entries of a lender who never deposited.
    pub fn new() -> (r: FlLenderBook)
        ensures
            r@.batches == Seq::<u64>::empty(),
            r@.store == Map::<u64, BatchObj>::empty(),
            r@.initial_deposit is None,
    {
        FlLenderBook { batches: Vec::new(), store: HashMap::new(), initial_deposit: None }
    }
}

/// `s` without the first occurrence of `x`.
pub open spec fn remove_first(s: Seq<u64>, x: u64) -> Seq<u64>
    decreases s.len(),
{
    if s.len() == 0 {
        s
    } else if s[0] == x {
        s.drop_first()
    } else {
        seq![s[0]] + remove_first(s.drop_first(), x)
    }
}

proof fn lemma_remove_first_at(s: Seq<u64>, x: u64, i: int)
    requires
        0 <= i < s.len(),
        s[i] == x,
        forall|j: int| 0 <= j < i ==> s[j] != x,
    ensures
        remove_first(s, x) == s.remove(i),
    decreases s.len(),
{
    if i == 0 {
        assert(s.drop_first() =~= s.remove(0));
    } else {
        lemma_remove_first_at(s.drop_first(), x, i - 1);
        assert(seq![s[0]] + s.drop_first().remove(i - 1) =~= s.remove(i));
    }
}

/// The batch a mint of `shares` for `deposit` creates.
pub open spec fn new_batch(shares: int, deposit: int) -> BatchObj {
    BatchObj { init_s: shares as i128, deposit: deposit as i128, curr_s: shares as i128 }
}

/// The lender's list of batches.
pub fn get_user_batches(book: &FlLenderBook) -> (r: Vec<u64>)
    ensures
        r@ == book@.batches,
{
    book.batches.clone()
}

/// Puts the batch minted at `batch_ts` at the front of the lender's list.
pub fn add_user_batch(book: &mut FlLenderBook, batch_ts: u64)
    ensures
        final(book)@.batches == old(book)@.batches.insert(0, batch_ts),
        final(book)@.store == old(book)@.store,
        final(book)@.initial_deposit == old(book)@.initial_deposit,
{
    book.batches.insert(0, batch_ts);
}

/// Takes the first entry `batch_ts` off the lender's list.
pub fn remove_user_batch(book: &mut FlLenderBook, batch_ts: u64)
    requires
        old(book)@.batches.contains(batch_ts),
    ensures
        final(book)@.batches == remove_first(old(book)@.batches, batch_ts),
        final(book)@.store == old(book)@.store,
        final(book)@.initial_deposit == old(book)@.initial_deposit,
{
    let len = book.batches.len();
    let mut i: usize = 0;
    while i < len && book.batches[i] != batch_ts
        invariant
            len == book.batches@.len(),
            i <= len,
            book.batches@.contains(batch_ts),
            forall|j: int| 0 <= j < i ==> book.batches@[j] != batch_ts,
        decreases len - i,
    {
        i = i + 1;
    }
    proof {
        if i == len {
            let k = choose|k: int| 0 <= k < book.batches@.len() && book.batches@[k] == batch_ts;
            assert(book.batches@[k] != batch_ts);
        }
        lemma_remove_first_at(book.batches@, batch_ts, i as int);
    }
    book.batches.remove(i);
}

/// Mints a batch of `shares` standing for `deposit` at ledger time `now`
/// and returns its timestamp. A batch already minted at `now` is replaced.
pub fn mint_shares(
    vault: &mut FlVaultState,
    book: &mut FlLenderBook,
    shares: i128,
    deposit: i128,
    now: u64,
) -> (r: u64)
    requires
        fits_i128(old(vault).tot_supply + shares),
    ensures
        *final(vault) == (FlVaultState { tot_supply: (old(vault).tot_supply + shares) as i128, ..*old(vault) }),
        final(book)@.batches == old(book)@.batches.insert(0, now),
        final(book)@.store == old(book)@.store.insert(now, new_batch(shares as int, deposit as int)),
        final(book)@.initial_deposit == old(book)@.initial_deposit,
        r == now,
{
    vault.tot_supply = vault.tot_supply + shares;
    add_user_batch(book, now);
    book.store.insert(now, BatchObj { init_s: shares, deposit, curr_s: shares });
    now
}

/// The lender's entries once `shares` of the batch `b` minted at `batch_ts`
/// are burned: a batch with no share left is removed from the store and
/// from the list.
pub open spec fn burned(book: FlBookView, b: BatchObj, batch_ts: u64, shares: int) -> FlBookView {
    if b.curr_s - shares == 0 {
        FlBookView {
            batches: remove_first(book.batches, batch_ts),
            store: book.store.remove(batch_ts),
            initial_deposit: book.initial_deposit,
        }
    } else {
        FlBookView {
            batches: book.batches,
            store: book.store.insert(batch_ts, BatchObj { curr_s: (b.curr_s - shares) as i128, ..b }),
            initial_deposit: book.initial_deposit,
        }
    }
}

/// Whether `burn_shares` completes.
pub open spec fn burn_ok(vault: FlVaultState, book: FlBookView, batch_ts: u64, shares: int) -> bool {
    &&& book.store.contains_key(batch_ts)
    &&& fits_i128(book.store[batch_ts].curr_s - shares)
    &&& fits_i128(vault.tot_supply - shares)
    &&& book.store[batch_ts].curr_s - shares == 0 ==> book.batches.contains(batch_ts)
}

/// Burns `shares` of the lender's batch minted at `batch_ts`.
pub fn burn_shares(vault: &mut FlVaultState, book: &mut FlLenderBook, shares: i128, batch_ts: u64)
    requires
        burn_ok(*old(vault), old(book)@, batch_ts, shares as int),
    ensures
        *final(vault) == (FlVaultState { tot_supply: (old(vault).tot_supply - shares) as i128, ..*old(vault) }),
        final(book)@.batches == burned(old(book)@, old(book)@.store[batch_ts], batch_ts, shares as int).batches,
        final(book)@.store == burned(old(book)@, old(book)@.store[batch_ts], batch_ts, shares as int).store,
        final(book)@.initial_deposit == old(book)@.initial_deposit,
{
    let mut batch: BatchObj = *book.store.get(&batch_ts).unwrap();
    batch.curr_s = batch.curr_s - shares;
    vault.tot_supply = vault.tot_supply - shares;
    if batch.curr_s == 0 {
        book.store.remove(&batch_ts);
        remove_user_batch(book, batch_ts);
    } else {
        book.store.insert(batch_ts, batch);
    }
}

} // verus!
