//! Staking with validators: delegating, undelegating, and claiming unstaked NEAR.

use vstd::prelude::*;
use crate::collections::{
    find_key, find_view, has_view, insert_string, insert_view, lookup, put_key,
    remove_by_key, remove_key, remove_string, remove_view,
};
use crate::env::Env;
use crate::error::VaultError;
use crate::promise::{Call, Callback, Chain};
use crate::types::{ProcessingState, MAX_ACTIVE_VALIDATORS, NUM_EPOCHS_TO_UNLOCK};
use crate::vault::Vault;

verus! {

impl Vault {
    /// Why a delegation is refused, if it is.
    pub open spec fn delegate_check(&self, env: Env, validator: String, amount: u128) -> Option<VaultError> {
        if env.attached_deposit != 1 {
            Some(VaultError::RequiresOneYocto)
        } else if amount == 0 {
            Some(VaultError::ZeroAmount)
        } else if env.predecessor@ != self.owner@ {
            Some(VaultError::NotOwner)
        } else if amount > env.available_balance() {
            Some(
                VaultError::ExceedsAvailable {
                    requested: amount,
                    available: env.available_balance() as u128,
                },
            )
        } else if !has_view(self.active_validators@, validator@) && self.active_validators@.len()
            >= MAX_ACTIVE_VALIDATORS {
            Some(VaultError::TooManyValidators)
        } else if self.refund_list@.len() > 0 {
            Some(VaultError::PendingRefundsDelegate)
        } else if self.liquidation is Some {
            Some(VaultError::DelegateDuringLiquidation)
        } else if !self.lock_free(env.block_timestamp) {
            Some(VaultError::Busy(self.processing_state))
        } else {
            None
        }
    }

    /// The owner stakes `amount` of the vault's available NEAR with
    /// `validator`, under the lock; a new validator is allowed only while the
    /// vault stakes with fewer than `MAX_ACTIVE_VALIDATORS`.
    pub fn delegate(&mut self, validator: String, amount: u128, env: &Env) -> (r: Result<Chain, VaultError>)
        requires
            old(self).wf(),
            env.wf(),
        ensures
            old(self).delegate_check(*env, validator, amount) matches Some(e) ==> r == Err::<Chain, VaultError>(e)
                && *final(self) == *old(self),
            old(self).delegate_check(*env, validator, amount) is None ==> ({
                &&& *final(self) == old(self).locked(ProcessingState::Delegate, env.block_timestamp)
                &&& r matches Ok(c) && c.calls@ == seq![Call::DepositAndStake { validator, amount }]
                    && c.callback == Some(Callback::OnDepositAndStake { validator, amount })
            }),
    {
        if env.attached_deposit != 1 {
            return Err(VaultError::RequiresOneYocto);
        }
        if amount == 0 {
            return Err(VaultError::ZeroAmount);
        }
        if env.predecessor != self.owner {
            return Err(VaultError::NotOwner);
        }
        let available = self.get_available_balance(env);
        if amount > available {
            return Err(VaultError::ExceedsAvailable { requested: amount, available });
        }
        let is_new = find_view(&self.active_validators, &validator).is_none();
        if is_new && self.active_validators.len() as u64 >= MAX_ACTIVE_VALIDATORS {
            return Err(VaultError::TooManyValidators);
        }
        if self.refund_list.len() > 0 {
            return Err(VaultError::PendingRefundsDelegate);
        }
        if self.liquidation.is_some() {
            return Err(VaultError::DelegateDuringLiquidation);
        }
        match self.acquire_processing_lock(ProcessingState::Delegate, env.block_timestamp) {
            Ok(()) => {},
            Err(e) => {
                return Err(e);
            },
        }
        let v2 = validator.clone();
        Ok(Chain::single(Call::DepositAndStake { validator, amount }, Callback::OnDepositAndStake { validator: v2, amount }))
    }

    /// Settles a delegation: the lock is released, and when the deposit
    /// succeeded the validator joins the active set.
    pub fn on_deposit_and_stake(&mut self, validator: String, success: bool)
        requires
            old(self).wf(),
        ensures
            final(self).wf(),
            success ==> *final(self) == (Vault {
                active_validators: final(self).active_validators,
                ..old(self).unlocked()
            }) && final(self).active_validators@ == insert_view(old(self).active_validators@, validator),
            !success ==> *final(self) == old(self).unlocked(),
    {
        self.release_processing_lock();
        if success {
            insert_string(&mut self.active_validators, validator);
        }
    }

    /// Why an undelegation is refused, if it is.
    pub open spec fn undelegate_check(&self, env: Env, validator: String, amount: u128) -> Option<VaultError> {
        if env.attached_deposit != 1 {
            Some(VaultError::RequiresOneYocto)
        } else if env.predecessor@ != self.owner@ {
            Some(VaultError::NotOwner)
        } else if amount == 0 {
            Some(VaultError::ZeroAmount)
        } else if !has_view(self.active_validators@, validator@) {
            Some(VaultError::ValidatorNotActive)
        } else if self.liquidity_request is Some {
            Some(VaultError::UndelegateWithRequestOpen)
        } else if !self.lock_free(env.block_timestamp) {
            Some(VaultError::Busy(self.processing_state))
        } else {
            None
        }
    }

    /// The owner unstakes `amount` from an active validator, under the lock.
    /// Refused while a liquidity request is open.
    pub fn undelegate(&mut self, validator: String, amount: u128, env: &Env) -> (r: Result<Chain, VaultError>)
        ensures
            old(self).undelegate_check(*env, validator, amount) matches Some(e) ==> r == Err::<Chain, VaultError>(e)
                && *final(self) == *old(self),
            old(self).undelegate_check(*env, validator, amount) is None ==> ({
                &&& *final(self) == old(self).locked(ProcessingState::Undelegate, env.block_timestamp)
                &&& r matches Ok(c) && c.calls@ == seq![Call::Unstake { validator, amount }]
                    && c.callback == Some(Callback::OnUnstakeComplete { validator, amount })
            }),
    {
        if env.attached_deposit != 1 {
            return Err(VaultError::RequiresOneYocto);
        }
        if env.predecessor != self.owner {
            return Err(VaultError::NotOwner);
        }
        if amount == 0 {
            return Err(VaultError::ZeroAmount);
        }
        if find_view(&self.active_validators, &validator).is_none() {
            return Err(VaultError::ValidatorNotActive);
        }
        if self.liquidity_request.is_some() {
            return Err(VaultError::UndelegateWithRequestOpen);
        }
        match self.acquire_processing_lock(ProcessingState::Undelegate, env.block_timestamp) {
            Ok(()) => {},
            Err(e) => {
                return Err(e);
            },
        }
        let v2 = validator.clone();
        Ok(Chain::single(Call::Unstake { validator, amount }, Callback::OnUnstakeComplete { validator: v2, amount }))
    }

    /// Settles an unstake. On failure the lock is released and the flow ends.
    /// On success `amount` is added to the validator's unstake entry, stamped
    /// with the current epoch, and the validator is asked for its remaining stake.
    pub fn on_unstake_complete(&mut self, validator: String, amount: u128, success: bool, env: &Env) -> (c: Chain)
        requires
            old(self).wf(),
            success ==> (match lookup(old(self).unstake_entries@, validator@) {
                Some(e) => e.amount,
                None => 0,
            }) + amount <= u128::MAX,
        ensures
            final(self).wf(),
            !success ==> *final(self) == old(self).unlocked() && c.is_noop(),
            success ==> ({
                &&& final(self).unstake_entries@ == put_key(
                    old(self).unstake_entries@,
                    validator,
                    old(self).unstake_after(validator@, amount, env.epoch_height),
                )
                &&& *final(self) == (Vault { unstake_entries: final(self).unstake_entries, ..*old(self) })
                &&& c.calls@ == seq![Call::GetAccountStakedBalance { validator }]
                &&& c.callback == Some(Callback::OnAccountStakedBalance { validator })
            }),
    {
        if !success {
            self.release_processing_lock();
            return Chain::noop();
        }
        self.update_validator_unstake_entry(&validator, amount, env.epoch_height);
        let v2 = validator.clone();
        Chain::single(Call::GetAccountStakedBalance { validator }, Callback::OnAccountStakedBalance { validator: v2 })
    }

    /// Settles the stake query after an unstake: the lock is released, and a
    /// validator that reports no stake leaves the active set. `None` is a
    /// failed query.
    pub fn on_account_staked_balance(&mut self, validator: String, staked: Option<u128>)
        requires
            old(self).wf(),
        ensures
            final(self).wf(),
            staked == Some(0u128) ==> *final(self) == (Vault {
                active_validators: final(self).active_validators,
                ..old(self).unlocked()
            }) && final(self).active_validators@ == remove_view(old(self).active_validators@, validator@),
            staked != Some(0u128) ==> *final(self) == old(self).unlocked(),
    {
        self.release_processing_lock();
        if staked == Some(0u128) {
            remove_string(&mut self.active_validators, &validator);
        }
    }

    /// Why a claim of unstaked NEAR is refused, if it is.
    pub open spec fn claim_check(&self, env: Env, validator: String) -> Option<VaultError> {
        let entry = lookup(self.unstake_entries@, validator@);
        if env.attached_deposit != 1 {
            Some(VaultError::RequiresOneYocto)
        } else if env.predecessor@ != self.owner@ {
            Some(VaultError::NotOwner)
        } else if entry is None {
            Some(VaultError::NoUnstakeEntry)
        } else if env.epoch_height < entry.unwrap().epoch_height + NUM_EPOCHS_TO_UNLOCK {
            Some(
                VaultError::NotYetClaimable {
                    current: env.epoch_height,
                    required: (entry.unwrap().epoch_height + NUM_EPOCHS_TO_UNLOCK) as u128,
                },
            )
        } else if self.liquidation is Some {
            Some(VaultError::ClaimDuringLiquidation)
        } else if !self.lock_free(env.block_timestamp) {
            Some(VaultError::Busy(self.processing_state))
        } else {
            None
        }
    }

    /// The owner withdraws NEAR unstaked from `validator` once
    /// `NUM_EPOCHS_TO_UNLOCK` epochs have passed since the latest unstake,
    /// under the lock. Refused during liquidation.
    pub fn claim_unstaked(&mut self, validator: String, env: &Env) -> (r: Result<Chain, VaultError>)
        requires
            old(self).wf(),
        ensures
            old(self).claim_check(*env, validator) matches Some(e) ==> r == Err::<Chain, VaultError>(e)
                && *final(self) == *old(self),
            old(self).claim_check(*env, validator) is None ==> ({
                &&& *final(self) == old(self).locked(ProcessingState::ClaimUnstaked, env.block_timestamp)
                &&& r matches Ok(c) && c.calls@ == seq![Call::WithdrawAll { validator }]
                    && c.callback == Some(Callback::OnWithdrawAll { validator })
            }),
    {
        if env.attached_deposit != 1 {
            return Err(VaultError::RequiresOneYocto);
        }
        if env.predecessor != self.owner {
            return Err(VaultError::NotOwner);
        }
        let unlock_epoch = match find_key(&self.unstake_entries, &validator) {
            Some(i) => {
                proof {
                    crate::collections::lemma_key_index(self.unstake_entries@, validator@);
                }
                self.unstake_entries[i].1.epoch_height as u128 + NUM_EPOCHS_TO_UNLOCK as u128
            },
            None => {
                return Err(VaultError::NoUnstakeEntry);
            },
        };
        if (env.epoch_height as u128) < unlock_epoch {
            return Err(VaultError::NotYetClaimable { current: env.epoch_height, required: unlock_epoch });
        }
        if self.liquidation.is_some() {
            return Err(VaultError::ClaimDuringLiquidation);
        }
        match self.acquire_processing_lock(ProcessingState::ClaimUnstaked, env.block_timestamp) {
            Ok(()) => {},
            Err(e) => {
                return Err(e);
            },
        }
        let v2 = validator.clone();
        Ok(Chain::single(Call::WithdrawAll { validator }, Callback::OnWithdrawAll { validator: v2 }))
    }

    /// Settles a claim: the lock is released, and when the withdrawal
    /// succeeded the validator's unstake entry is dropped.
    pub fn on_withdraw_all(&mut self, validator: String, success: bool)
        requires
            old(self).wf(),
        ensures
            final(self).wf(),
            success ==> *final(self) == (Vault {
                unstake_entries: final(self).unstake_entries,
                ..old(self).unlocked()
            }) && final(self).unstake_entries@ == remove_key(old(self).unstake_entries@, validator@),
            !success ==> *final(self) == old(self).unlocked(),
    {
        self.release_processing_lock();
        if success {
            proof {
                crate::collections::lemma_remove_key(self.unstake_entries@, validator@);
            }
            remove_by_key(&mut self.unstake_entries, &validator);
        }
    }
}

} // verus!
