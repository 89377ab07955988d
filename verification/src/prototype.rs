//! The first prototype of the flash loans: one contract that lends its
//! balance and sends the fees to a separate fee vault.
pub mod contract;
pub mod types;
pub mod utils;
