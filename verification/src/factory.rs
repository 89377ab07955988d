//! The factory that deploys the pools and keeps one pool per token.
pub mod contract;
pub mod types;
