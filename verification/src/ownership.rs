//! Ownership of the vault: direct transfer, listing for takeover, and the
//! takeover in which a buyer pays the storage cost to the owner.

use vstd::prelude::*;
use crate::collections::put_id;
use crate::env::Env;
use crate::error::VaultError;
use crate::promise::{Call, Callback, Chain};
use crate::types::{ProcessingState, RefundEntry};
use crate::vault::Vault;

verus! {

/// How a takeover settled.
#[derive(PartialEq, Eq, Structural, Copy, Clone, Debug)]
pub enum ClaimOutcome {
    /// The payment to the old owner failed; the vault is listed again and
    /// the buyer's deposit is queued for refund.
    TransferFailed,
    /// The owner changed while the payment was in flight; as for a failure.
    Stale,
    /// The buyer owns the vault.
    Claimed,
}

impl Vault {
    /// Why a transfer of ownership is refused, if it is.
    pub open spec fn transfer_check(&self, env: Env, new_owner: String) -> Option<VaultError> {
        if env.attached_deposit != 1 {
            Some(VaultError::RequiresOneYocto)
        } else if env.predecessor@ != self.owner@ {
            Some(VaultError::NotOwner)
        } else if new_owner@ == self.owner@ {
            Some(VaultError::SameOwner)
        } else {
            None
        }
    }

    /// The owner hands the vault to `new_owner`.
    pub fn transfer_ownership(&mut self, new_owner: String, env: &Env) -> (r: Result<(), VaultError>)
        ensures
            old(self).transfer_check(*env, new_owner) matches Some(e) ==> r == Err::<(), VaultError>(e)
                && *final(self) == *old(self),
            old(self).transfer_check(*env, new_owner) is None ==> r is Ok && *final(self) == (Vault {
                owner: new_owner,
                ..*old(self)
            }),
    {
        if env.attached_deposit != 1 {
            return Err(VaultError::RequiresOneYocto);
        }
        if env.predecessor != self.owner {
            return Err(VaultError::NotOwner);
        }
        if new_owner == self.owner {
            return Err(VaultError::SameOwner);
        }
        self.owner = new_owner;
        Ok(())
    }

    /// Why listing for takeover is refused, if it is.
    pub open spec fn list_check(&self, env: Env) -> Option<VaultError> {
        if env.attached_deposit != 1 {
            Some(VaultError::RequiresOneYocto)
        } else if env.predecessor@ != self.owner@ {
            Some(VaultError::NotOwner)
        } else if !self.lock_free(env.block_timestamp) {
            Some(VaultError::Busy(self.processing_state))
        } else if self.is_listed_for_takeover {
            Some(VaultError::AlreadyListed)
        } else {
            None
        }
    }

    /// The owner offers the vault to anyone who pays its storage cost.
    /// A stale lock is cleared on the way.
    pub fn list_for_takeover(&mut self, env: &Env) -> (r: Result<(), VaultError>)
        ensures
            old(self).list_check(*env) matches Some(e) ==> r == Err::<(), VaultError>(e) && *final(self)
                == *old(self),
            old(self).list_check(*env) is None ==> r is Ok && *final(self) == (Vault {
                is_listed_for_takeover: true,
                ..old(self).idle_cleared()
            }),
    {
        if env.attached_deposit != 1 {
            return Err(VaultError::RequiresOneYocto);
        }
        if env.predecessor != self.owner {
            return Err(VaultError::NotOwner);
        }
        if !self.lock_is_free(env.block_timestamp) {
            return Err(VaultError::Busy(self.processing_state));
        }
        if self.is_listed_for_takeover {
            return Err(VaultError::AlreadyListed);
        }
        let _ = self.ensure_processing_idle(env.block_timestamp);
        self.is_listed_for_takeover = true;
        Ok(())
    }

    /// Why cancelling a takeover listing is refused, if it is.
    pub open spec fn cancel_takeover_check(&self, env: Env) -> Option<VaultError> {
        if env.attached_deposit != 1 {
            Some(VaultError::RequiresOneYocto)
        } else if env.predecessor@ != self.owner@ {
            Some(VaultError::NotOwner)
        } else if !self.is_listed_for_takeover {
            Some(VaultError::NotListed)
        } else if !self.lock_free(env.block_timestamp) {
            Some(VaultError::Busy(self.processing_state))
        } else {
            None
        }
    }

    /// The owner withdraws the takeover listing. A stale lock is cleared on the way.
    pub fn cancel_takeover(&mut self, env: &Env) -> (r: Result<(), VaultError>)
        ensures
            old(self).cancel_takeover_check(*env) matches Some(e) ==> r == Err::<(), VaultError>(e)
                && *final(self) == *old(self),
            old(self).cancel_takeover_check(*env) is None ==> r is Ok && *final(self) == (Vault {
                is_listed_for_takeover: false,
                ..old(self).idle_cleared()
            }),
    {
        if env.attached_deposit != 1 {
            return Err(VaultError::RequiresOneYocto);
        }
        if env.predecessor != self.owner {
            return Err(VaultError::NotOwner);
        }
        if !self.is_listed_for_takeover {
            return Err(VaultError::NotListed);
        }
        match self.ensure_processing_idle(env.block_timestamp) {
            Ok(()) => {},
            Err(e) => {
                return Err(e);
            },
        }
        self.is_listed_for_takeover = false;
        Ok(())
    }

    /// Why a takeover is refused, if it is.
    pub open spec fn claim_vault_check(&self, env: Env) -> Option<VaultError> {
        if !self.is_listed_for_takeover {
            Some(VaultError::NotListed)
        } else if !self.lock_free(env.block_timestamp) {
            Some(VaultError::Busy(self.processing_state))
        } else if env.predecessor@ == self.owner@ {
            Some(VaultError::OwnerCannotClaim)
        } else if env.attached_deposit != env.storage_cost() {
            Some(VaultError::WrongPurchasePrice { price: env.storage_cost() as u128 })
        } else {
            None
        }
    }

    /// A buyer takes over a listed vault by attaching exactly its storage
    /// cost. The listing ends and the lock is taken while the deposit goes to
    /// the owner; `on_claim_vault_complete` settles.
    pub fn claim_vault(&mut self, env: &Env) -> (r: Result<Chain, VaultError>)
        requires
            env.wf(),
        ensures
            old(self).claim_vault_check(*env) matches Some(e) ==> r == Err::<Chain, VaultError>(e)
                && *final(self) == *old(self),
            old(self).claim_vault_check(*env) is None ==> ({
                &&& *final(self) == (Vault {
                    is_listed_for_takeover: false,
                    ..old(self).locked(ProcessingState::ClaimVault, env.block_timestamp)
                })
                &&& r matches Ok(c) && c.calls@ == seq![
                    Call::Transfer { receiver: old(self).owner, amount: env.attached_deposit },
                ] && c.callback == Some(
                    Callback::OnClaimVaultComplete {
                        old_owner: old(self).owner,
                        new_owner: env.predecessor,
                        amount: env.storage_cost() as u128,
                    },
                )
            }),
    {
        if !self.is_listed_for_takeover {
            return Err(VaultError::NotListed);
        }
        if !self.lock_is_free(env.block_timestamp) {
            return Err(VaultError::Busy(self.processing_state));
        }
        if env.predecessor == self.owner {
            return Err(VaultError::OwnerCannotClaim);
        }
        let price = self.get_storage_cost(env);
        if env.attached_deposit != price {
            return Err(VaultError::WrongPurchasePrice { price });
        }
        let previous_owner = self.owner.clone();
        self.begin_takeover(env.block_timestamp);
        Ok(Chain::single(
            Call::Transfer { receiver: previous_owner.clone(), amount: env.attached_deposit },
            Callback::OnClaimVaultComplete {
                old_owner: previous_owner,
                new_owner: env.predecessor.clone(),
                amount: price,
            },
        ))
    }

    /// Takes the takeover lock and ends the listing.
    fn begin_takeover(&mut self, now: u64)
        requires
            old(self).lock_free(now),
        ensures
            *final(self) == (Vault {
                is_listed_for_takeover: false,
                ..old(self).locked(ProcessingState::ClaimVault, now)
            }),
    {
        let _ = self.acquire_processing_lock(ProcessingState::ClaimVault, now);
        self.is_listed_for_takeover = false;
    }

    /// The state after a takeover settles: the lock is released if the
    /// takeover held it.
    pub open spec fn claim_released(self) -> Vault {
        if self.processing_state == ProcessingState::ClaimVault {
            self.unlocked()
        } else {
            self
        }
    }

    /// Settles a takeover. If the payment failed, or the owner is no longer
    /// `old_owner`, the vault is listed again and `amount` is queued as a NEAR
    /// refund to `new_owner`. Otherwise `new_owner` owns the vault. Either way
    /// a lock held by the takeover is released.
    pub fn on_claim_vault_complete(
        &mut self,
        old_owner: String,
        new_owner: String,
        amount: u128,
        success: bool,
        env: &Env,
    ) -> (r: ClaimOutcome)
        requires
            old(self).wf(),
            old(self).refund_nonce < u64::MAX,
        ensures
            final(self).wf(),
            !success ==> r == ClaimOutcome::TransferFailed,
            success && old(self).owner@ != old_owner@ ==> r == ClaimOutcome::Stale,
            success && old(self).owner@ == old_owner@ ==> r == ClaimOutcome::Claimed,
            r != ClaimOutcome::Claimed ==> ({
                &&& final(self).refund_list@ == put_id(
                    old(self).refund_list@,
                    old(self).refund_nonce,
                    RefundEntry { token: None, proposer: new_owner, amount, added_at_epoch: env.epoch_height },
                )
                &&& *final(self) == (Vault {
                    refund_list: final(self).refund_list,
                    refund_nonce: (old(self).refund_nonce + 1) as u64,
                    is_listed_for_takeover: true,
                    ..old(self).claim_released()
                })
            }),
            r == ClaimOutcome::Claimed ==> *final(self) == (Vault {
                owner: new_owner,
                is_listed_for_takeover: false,
                ..old(self).claim_released()
            }),
    {
        let held = self.processing_state == ProcessingState::ClaimVault;
        if !success {
            self.relist_and_queue_refund(new_owner, amount, env.epoch_height);
            self.release_claim_lock_if_needed(held);
            return ClaimOutcome::TransferFailed;
        }
        if self.owner != old_owner {
            self.relist_and_queue_refund(new_owner, amount, env.epoch_height);
            self.release_claim_lock_if_needed(held);
            return ClaimOutcome::Stale;
        }
        self.finalize_successful_takeover(new_owner);
        self.release_claim_lock_if_needed(held);
        ClaimOutcome::Claimed
    }

    /// Lists the vault again and queues a NEAR refund of `amount` to `beneficiary`.
    fn relist_and_queue_refund(&mut self, beneficiary: String, amount: u128, epoch: u64)
        requires
            old(self).wf(),
            old(self).refund_nonce < u64::MAX,
        ensures
            final(self).wf(),
            final(self).refund_list@ == put_id(
                old(self).refund_list@,
                old(self).refund_nonce,
                RefundEntry { token: None, proposer: beneficiary, amount, added_at_epoch: epoch },
            ),
            *final(self) == (Vault {
                refund_list: final(self).refund_list,
                refund_nonce: (old(self).refund_nonce + 1) as u64,
                is_listed_for_takeover: true,
                ..*old(self)
            }),
    {
        self.is_listed_for_takeover = true;
        let _ = self.add_refund_entry(None, beneficiary, amount, None, epoch);
    }

    /// Hands the vault to `new_owner` and ends the listing.
    fn finalize_successful_takeover(&mut self, new_owner: String)
        ensures
            *final(self) == (Vault { owner: new_owner, is_listed_for_takeover: false, ..*old(self) }),
    {
        self.owner = new_owner;
        self.is_listed_for_takeover = false;
    }

    /// Releases the lock if the takeover held it.
    fn release_claim_lock_if_needed(&mut self, held: bool)
        ensures
            held ==> *final(self) == old(self).unlocked(),
            !held ==> *final(self) == *old(self),
    {
        if held {
            self.release_processing_lock();
        }
    }
}

} // verus!
