//! Promises that contract methods ask the host to schedule.

use vstd::prelude::*;
use crate::types::RefundEntry;

verus! {

/// A call to another contract, or a plain NEAR transfer.
#[derive(PartialEq, Eq, Clone, Debug)]
pub enum Call {
    /// `ft_transfer(receiver, amount)` on token contract `token`, with 1 yoctoNEAR attached.
    FtTransfer { token: String, receiver: String, amount: u128 },
    /// A transfer of `amount` yoctoNEAR to `receiver`.
    Transfer { receiver: String, amount: u128 },
    /// `deposit_and_stake()` on `validator` with `amount` attached.
    DepositAndStake { validator: String, amount: u128 },
    /// `unstake(amount)` on `validator`.
    Unstake { validator: String, amount: u128 },
    /// `withdraw_all()` on `validator`.
    WithdrawAll { validator: String },
    /// `get_account_staked_balance(vault)` on `validator`.
    GetAccountStakedBalance { validator: String },
}

/// A method of the vault that runs once the calls before it have finished.
#[derive(PartialEq, Eq, Clone, Debug)]
pub enum Callback {
    OnDepositAndStake { validator: String, amount: u128 },
    OnUnstakeComplete { validator: String, amount: u128 },
    OnAccountStakedBalance { validator: String },
    OnWithdrawAll { validator: String },
    OnCheckTotalStaked { validators: Vec<String> },
    /// Settles one refund; `refund_id` names its entry in the refund list when it was recorded there.
    OnRefundComplete { refund_id: Option<u64>, proposer: String, amount: u128, token: String },
    OnRetryRefundComplete { id: u64, entry: RefundEntry },
    OnRepayLoan,
    OnClaimVaultComplete { old_owner: String, new_owner: String, amount: u128 },
    OnLenderPayoutComplete { lender: String, amount: u128, finalize: bool },
    OnBatchClaimUnstaked { validators: Vec<String> },
    OnTotalStakedProcessClaims { validators: Vec<String> },
    OnBatchUnstake { entries: Vec<(String, u128, bool)> },
}

/// Calls run together (joined), then an optional callback on the vault.
/// No calls and no callback is an empty promise to the vault itself.
#[derive(PartialEq, Eq, Clone, Debug)]
pub struct Chain {
    pub calls: Vec<Call>,
    pub callback: Option<Callback>,
}

impl Chain {
    /// The empty promise that finishes a flow.
    pub open spec fn is_noop(&self) -> bool {
        self.calls@.len() == 0 && self.callback is None
    }

    /// The empty promise that finishes a flow.
    pub fn noop() -> (c: Chain)
        ensures
            c.is_noop(),
    {
        Chain { calls: Vec::new(), callback: None }
    }

    /// One call followed by a callback.
    pub fn single(call: Call, callback: Callback) -> (c: Chain)
        ensures
            c.calls@ == seq![call],
            c.callback == Some(callback),
    {
        let mut calls: Vec<Call> = Vec::new();
        calls.push(call);
        Chain { calls, callback: Some(callback) }
    }
}

} // verus!
