//! The owner's withdrawals of NEAR and of fungible tokens from the vault.

use vstd::prelude::*;
use crate::env::Env;
use crate::error::VaultError;
use crate::promise::{Call, Chain};
use crate::vault::Vault;

verus! {

impl Vault {
    /// Why the owner may not withdraw `token` (NEAR when `None`) now, if so:
    /// NEAR is held during liquidation, and the requested token while the
    /// request is not yet accepted.
    pub open spec fn withdraw_block(&self, token: Option<String>) -> Option<VaultError> {
        match token {
            None => if self.liquidation is Some {
                Some(VaultError::WithdrawNearDuringLiquidation)
            } else {
                None
            },
            Some(t) => if self.liquidity_request matches Some(req) && req.token@ == t@
                && self.accepted_offer is None {
                Some(VaultError::WithdrawTokenWithOffersPending)
            } else {
                None
            },
        }
    }

    /// Checks that the owner may withdraw `token` (NEAR when `None`) now.
    pub fn ensure_owner_can_withdraw(&self, token: Option<&String>) -> (r: Result<(), VaultError>)
        ensures
            r == match self.withdraw_block(match token {
                Some(t) => Some(*t),
                None => None,
            }) {
                Some(e) => Err::<(), VaultError>(e),
                None => Ok(()),
            },
    {
        match token {
            None => {
                if self.liquidation.is_some() {
                    return Err(VaultError::WithdrawNearDuringLiquidation);
                }
            },
            Some(t) => {
                let blocked = match &self.liquidity_request {
                    Some(req) => req.token == *t && self.accepted_offer.is_none(),
                    None => false,
                };
                if blocked {
                    return Err(VaultError::WithdrawTokenWithOffersPending);
                }
            },
        }
        Ok(())
    }

    /// Why a withdrawal is refused, if it is.
    pub open spec fn withdraw_check(&self, env: Env, token: Option<String>, amount: u128) -> Option<VaultError> {
        if env.predecessor@ != self.owner@ {
            Some(VaultError::NotOwner)
        } else if self.refund_list@.len() > 0 {
            Some(VaultError::PendingRefundsWithdraw)
        } else if token is None {
            if self.withdraw_block(None) is Some {
                self.withdraw_block(None)
            } else if amount > env.available_balance() {
                Some(
                    VaultError::NotEnoughBalance {
                        available: env.available_balance() as u128,
                        requested: amount,
                    },
                )
            } else {
                None
            }
        } else if env.attached_deposit != 1 {
            Some(VaultError::RequiresOneYocto)
        } else {
            self.withdraw_block(token)
        }
    }

    /// The owner sends `amount` of NEAR (when `token` is `None`, up to the
    /// available balance) or of the fungible token `token` to `to`, or to
    /// themselves. Refused while refunds are pending. The vault's
    /// state does not change.
    pub fn withdraw_balance(&self, token: Option<String>, amount: u128, to: Option<String>, env: &Env) -> (r: Result<Chain, VaultError>)
        requires
            env.wf(),
        ensures
            self.withdraw_check(*env, token, amount) matches Some(e) ==> r == Err::<Chain, VaultError>(e),
            self.withdraw_check(*env, token, amount) is None ==> ({
                let recipient = match to {
                    Some(t) => t,
                    None => self.owner,
                };
                &&& r matches Ok(c) && c.callback is None && c.calls@ == seq![
                    match token {
                        Some(t) => Call::FtTransfer { token: t, receiver: recipient, amount },
                        None => Call::Transfer { receiver: recipient, amount },
                    },
                ]
            }),
    {
        if env.predecessor != self.owner {
            return Err(VaultError::NotOwner);
        }
        if self.refund_list.len() > 0 {
            return Err(VaultError::PendingRefundsWithdraw);
        }
        let recipient = match to {
            Some(t) => t,
            None => self.owner.clone(),
        };
        match token {
            None => self.internal_withdraw_near(amount, recipient, env),
            Some(t) => {
                if env.attached_deposit != 1 {
                    return Err(VaultError::RequiresOneYocto);
                }
                match self.ensure_owner_can_withdraw(Some(&t)) {
                    Ok(()) => {},
                    Err(e) => {
                        return Err(e);
                    },
                }
                let mut calls: Vec<Call> = Vec::new();
                calls.push(Call::FtTransfer { token: t, receiver: recipient, amount });
                Ok(Chain { calls, callback: None })
            },
        }
    }

    /// Sends `amount` of NEAR to `recipient` if it is available and not held
    /// by a liquidation.
    fn internal_withdraw_near(&self, amount: u128, recipient: String, env: &Env) -> (r: Result<Chain, VaultError>)
        requires
            env.wf(),
        ensures
            self.withdraw_block(None) matches Some(e) ==> r == Err::<Chain, VaultError>(e),
            self.withdraw_block(None) is None && amount > env.available_balance() ==> r == Err::<Chain, VaultError>(
                VaultError::NotEnoughBalance { available: env.available_balance() as u128, requested: amount },
            ),
            self.withdraw_block(None) is None && amount <= env.available_balance() ==> (r matches Ok(c)
                && c.callback is None && c.calls@ == seq![Call::Transfer { receiver: recipient, amount }]),
    {
        match self.ensure_owner_can_withdraw(None) {
            Ok(()) => {},
            Err(e) => {
                return Err(e);
            },
        }
        let available = self.get_available_balance(env);
        if amount > available {
            return Err(VaultError::NotEnoughBalance { available, requested: amount });
        }
        let mut calls: Vec<Call> = Vec::new();
        calls.push(Call::Transfer { receiver: recipient, amount });
        Ok(Chain { calls, callback: None })
    }
}

} // verus!
