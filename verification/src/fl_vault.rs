//! A fee vault of the flash loans whose batches of fee shares are keyed by
//! the ledger timestamp of their minting, priced at the combined balance of
//! the vault and its flash loan.
pub mod contract;
pub mod laws;
pub mod storage;
