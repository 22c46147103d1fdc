//! Verified core of the SudoStake vault protocol: a staking vault whose owner
//! borrows fungible tokens against staked NEAR, the factory that mints vaults,
//! and a staking pool model used to exercise them.
//!
//! Every contract method is a function from the vault state and the call's
//! environment (caller, deposit, clock, balance) to the next state and the
//! promises to schedule. Host I/O and promise execution live outside this crate.

pub mod types;
pub mod env;
pub mod fixtures;
pub mod collections;
pub mod promise;
pub mod error;
pub mod order;
pub mod vault;
pub mod json;
pub mod liquidation;
pub mod offers;
pub mod loan;
pub mod staking;
pub mod refunds;
pub mod ownership;
pub mod withdraw;
pub mod view;
pub mod factory;
pub mod staking_pool;
pub mod laws;
pub mod guards;
