//! The flash loan of a token: it lends its balance within one transaction
//! and forwards the fees to its liquidity provider, the vault.
pub mod contract;
pub mod token_utility;
pub mod types;
pub mod utils;
