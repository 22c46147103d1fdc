//! The environment of one contract call, as the host reports it.

use vstd::prelude::*;
use crate::types::STORAGE_BUFFER;

verus! {

/// What a contract method reads from the host: who called, what was attached,
/// the clock, and the account's balance and storage.
#[derive(PartialEq, Eq, Clone, Debug)]
pub struct Env {
    /// The vault's own account.
    pub current_account: String,
    /// The immediate caller.
    pub predecessor: String,
    /// Attached deposit in yoctoNEAR.
    pub attached_deposit: u128,
    /// Block timestamp in nanoseconds.
    pub block_timestamp: u64,
    /// Current epoch height.
    pub epoch_height: u64,
    /// The account's balance in yoctoNEAR.
    pub account_balance: u128,
    /// Bytes of storage the account uses.
    pub storage_usage: u64,
    /// Price of one byte of storage in yoctoNEAR.
    pub storage_byte_cost: u128,
}

impl Env {
    /// The storage cost plus the reserved buffer fits in a `u128`, as it does on chain.
    pub open spec fn wf(&self) -> bool {
        self.storage_byte_cost * self.storage_usage + STORAGE_BUFFER <= u128::MAX
    }

    /// Cost of the account's storage plus the reserved buffer.
    pub open spec fn storage_cost(&self) -> int {
        self.storage_byte_cost * self.storage_usage + STORAGE_BUFFER
    }

    /// Balance left after reserving the storage cost (never below zero).
    pub open spec fn available_balance(&self) -> int {
        if self.account_balance >= self.storage_cost() {
            self.account_balance - self.storage_cost()
        } else {
            0
        }
    }
}

/// Outcome of one promise that a callback observes.
#[derive(PartialEq, Eq, Clone, Debug)]
pub enum CallResult {
    Successful(Vec<u8>),
    Failed,
}

impl CallResult {
    /// The promise succeeded.
    pub fn is_successful(&self) -> (r: bool)
        ensures
            r == (*self is Successful),
    {
        match self {
            CallResult::Successful(_) => true,
            CallResult::Failed => false,
        }
    }
}

} // verus!
