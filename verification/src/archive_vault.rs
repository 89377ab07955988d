//! The archived fee vault, which held the fees in shares of a capped supply.
pub mod types;
pub mod utils;
