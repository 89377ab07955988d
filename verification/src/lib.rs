//! Verified accounting of the xycloans flash-loan protocol on Soroban.
pub mod arith;
pub mod fixed_point;
pub mod pool;
pub mod flash_loan_vault;
pub mod fl_vault;
pub mod flash_loan;
pub mod prototype;
pub mod factory;
pub mod archive_vault;
