//! The fee vault of a flash loan: lenders' deposits sit in the flash loan,
//! fees sit in the vault, and each deposit mints a batch of fee shares whose
//! value follows the combined balance.
pub mod contract;
pub mod laws;
pub mod math;
pub mod storage;
pub mod types;
