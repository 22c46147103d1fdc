//! The owner's loan: requesting liquidity against staked NEAR, confirming the
//! stake, and repaying the lender.

use vstd::prelude::*;
use crate::collections::{has_view, remove_string};
use crate::env::{CallResult, Env};
use crate::error::VaultError;
use crate::liquidation::{
    batch_query_total_staked, copy_ids, decode_stakes, decoded_stakes, is_stake_query, remove_views_all,
};
use crate::order::sorted_strictly;
use crate::promise::{Call, Callback, Chain};
use crate::types::{
    LiquidityRequest, PendingLiquidityRequest, ProcessingState, MAX_LOAN_DURATION,
};
use crate::vault::Vault;

verus! {

/// Sum of the reported stakes (`None` counts nothing).
pub open spec fn staked_total(ss: Seq<Option<u128>>) -> int
    decreases ss.len(),
{
    if ss.len() == 0 {
        0
    } else {
        staked_total(ss.drop_last()) + match ss.last() {
            Some(x) => x as int,
            None => 0,
        }
    }
}

/// The validators (by position in `ids`) that reported no stake, in order.
pub open spec fn zero_staked(ids: Seq<String>, ss: Seq<Option<u128>>) -> Seq<Seq<char>>
    decreases ss.len(),
{
    if ss.len() == 0 {
        seq![]
    } else {
        let prev = zero_staked(ids, ss.drop_last());
        if ss.last() == Some(0u128) {
            prev.push(ids[ss.len() - 1]@)
        } else {
            prev
        }
    }
}

/// A prefix of the stakes never sums to more than all of them.
pub proof fn lemma_staked_total_prefix(ss: Seq<Option<u128>>, i: int)
    requires
        0 <= i <= ss.len(),
    ensures
        0 <= staked_total(ss.subrange(0, i)) <= staked_total(ss),
    decreases ss.len() - i,
{
    if i < ss.len() {
        lemma_staked_total_prefix(ss, i + 1);
        assert(ss.subrange(0, i + 1).drop_last() =~= ss.subrange(0, i));
    } else {
        assert(ss.subrange(0, i) =~= ss);
    }
    lemma_staked_total_nonneg(ss.subrange(0, i));
}

/// Reported stakes never sum to less than zero.
pub proof fn lemma_staked_total_nonneg(ss: Seq<Option<u128>>)
    ensures
        staked_total(ss) >= 0,
    decreases ss.len(),
{
    if ss.len() > 0 {
        lemma_staked_total_nonneg(ss.drop_last());
    }
}

impl Vault {
    /// Why a liquidity request is refused, if it is.
    pub open spec fn request_check(&self, env: Env, amount: u128, collateral: u128, duration: u64) -> Option<VaultError> {
        if env.attached_deposit != 1 {
            Some(VaultError::RequiresOneYocto)
        } else if env.predecessor@ != self.owner@ {
            Some(VaultError::NotOwner)
        } else if self.pending_liquidity_request is Some {
            Some(VaultError::RequestInProgress)
        } else if self.liquidity_request is Some {
            Some(VaultError::RequestAlreadyOpen)
        } else if self.accepted_offer is Some {
            Some(VaultError::AlreadyMatched)
        } else if self.counter_offers is Some {
            Some(VaultError::CounterOffersNotCleared)
        } else if collateral == 0 {
            Some(VaultError::ZeroCollateral)
        } else if amount == 0 {
            Some(VaultError::ZeroRequestedAmount)
        } else if duration == 0 {
            Some(VaultError::ZeroDuration)
        } else if duration > MAX_LOAN_DURATION {
            Some(VaultError::DurationTooLong)
        } else if !self.lock_free(env.block_timestamp) {
            Some(VaultError::Busy(self.processing_state))
        } else if self.active_validators@.len() == 0 {
            Some(VaultError::NoActiveValidators)
        } else {
            None
        }
    }

    /// The owner asks to borrow `amount` of `token` for `duration` seconds,
    /// paying `interest` and pledging `collateral` yoctoNEAR of stake. The
    /// request waits under the lock while every validator is asked for the
    /// vault's stake, in ascending order of account id.
    pub fn request_liquidity(
        &mut self,
        token: String,
        amount: u128,
        interest: u128,
        collateral: u128,
        duration: u64,
        env: &Env,
    ) -> (r: Result<Chain, VaultError>)
        requires
            old(self).wf(),
        ensures
            old(self).request_check(*env, amount, collateral, duration) matches Some(e) ==> r
                == Err::<Chain, VaultError>(e) && *final(self) == *old(self),
            old(self).request_check(*env, amount, collateral, duration) is None ==> ({
                &&& *final(self) == (Vault {
                    pending_liquidity_request: Some(
                        PendingLiquidityRequest { token, amount, interest, collateral, duration },
                    ),
                    ..old(self).locked(ProcessingState::RequestLiquidity, env.block_timestamp)
                })
                &&& r matches Ok(c) && c.callback matches Some(Callback::OnCheckTotalStaked { validators })
                    && is_stake_query(c, validators@)
                    && sorted_strictly(validators@)
                    && validators@.len() == old(self).active_validators@.len()
                    && forall|x: Seq<char>| has_view(validators@, x) <==> has_view(old(self).active_validators@, x)
            }),
            final(self).wf(),
    {
        if env.attached_deposit != 1 {
            return Err(VaultError::RequiresOneYocto);
        }
        if env.predecessor != self.owner {
            return Err(VaultError::NotOwner);
        }
        if self.pending_liquidity_request.is_some() {
            return Err(VaultError::RequestInProgress);
        }
        if self.liquidity_request.is_some() {
            return Err(VaultError::RequestAlreadyOpen);
        }
        if self.accepted_offer.is_some() {
            return Err(VaultError::AlreadyMatched);
        }
        if self.counter_offers.is_some() {
            return Err(VaultError::CounterOffersNotCleared);
        }
        if collateral == 0 {
            return Err(VaultError::ZeroCollateral);
        }
        if amount == 0 {
            return Err(VaultError::ZeroRequestedAmount);
        }
        if duration == 0 {
            return Err(VaultError::ZeroDuration);
        }
        if duration > MAX_LOAN_DURATION {
            return Err(VaultError::DurationTooLong);
        }
        if !self.lock_is_free(env.block_timestamp) {
            return Err(VaultError::Busy(self.processing_state));
        }
        if self.active_validators.len() == 0 {
            return Err(VaultError::NoActiveValidators);
        }
        let _ = self.acquire_processing_lock(ProcessingState::RequestLiquidity, env.block_timestamp);
        self.pending_liquidity_request = Some(
            PendingLiquidityRequest { token, amount, interest, collateral, duration },
        );
        let validators = self.get_ordered_validator_list();
        let callback_ids = copy_ids(&validators);
        Ok(batch_query_total_staked(&validators, Callback::OnCheckTotalStaked { validators: callback_ids }))
    }

    /// The stakes that the validators of `validator_ids` reported for a
    /// liquidity request, in order (`None` where the query failed).
    /// Validators that reported no stake leave the active set. If the reported stake covers the collateral the request
    /// opens, stamped with the block time; either way the pending request is
    /// dropped and the lock released. Returns whether the request opened.
    pub fn apply_total_staked(
        &mut self,
        validator_ids: Vec<String>,
        stakes: &Vec<Option<u128>>,
        env: &Env,
    ) -> (r: Result<bool, VaultError>)
        requires
            old(self).wf(),
            stakes@.len() <= validator_ids@.len(),
        ensures
            old(self).pending_liquidity_request is None ==> r == Err::<bool, VaultError>(VaultError::NoPendingRequest)
                && *final(self) == *old(self),
            old(self).pending_liquidity_request is Some && staked_total(stakes@) > u128::MAX ==> r == Err::<
                bool,
                VaultError,
            >(VaultError::StakeOverflow) && *final(self) == *old(self),
            old(self).pending_liquidity_request is Some && staked_total(stakes@) <= u128::MAX ==> ({
                let p = old(self).pending_liquidity_request.unwrap();
                let opened = staked_total(stakes@) >= p.collateral;
                &&& r == Ok::<bool, VaultError>(opened)
                &&& final(self).active_validators@ == remove_views_all(
                    old(self).active_validators@,
                    zero_staked(validator_ids@, stakes@),
                )
                &&& *final(self) == (Vault {
                    active_validators: final(self).active_validators,
                    pending_liquidity_request: None,
                    liquidity_request: if opened {
                        Some(
                            LiquidityRequest {
                                token: p.token,
                                amount: p.amount,
                                interest: p.interest,
                                collateral: p.collateral,
                                duration: p.duration,
                                created_at: env.block_timestamp,
                            },
                        )
                    } else {
                        old(self).liquidity_request
                    },
                    ..old(self).unlocked()
                })
            }),
            final(self).wf(),
    {
        let pending = match &self.pending_liquidity_request {
            Some(p) => p.duplicate(),
            None => {
                return Err(VaultError::NoPendingRequest);
            },
        };
        let mut total: u128 = 0;
        let mut zeros: Vec<String> = Vec::new();
        let mut i: usize = 0;
        while i < stakes.len()
            invariant
                i <= stakes@.len(),
                stakes@.len() <= validator_ids@.len(),
                total == staked_total(stakes@.subrange(0, i as int)),
                *self == *old(self),
                old(self).wf(),
                old(self).pending_liquidity_request == Some(pending),
                views_match(zeros@, zero_staked(validator_ids@, stakes@.subrange(0, i as int))),
            decreases stakes@.len() - i,
        {
            proof {
                assert(stakes@.subrange(0, i + 1).drop_last() =~= stakes@.subrange(0, i as int));
            }
            let staked = stakes[i];
            match staked {
                Some(x) => {
                    match total.checked_add(x) {
                        Some(t) => {
                            total = t;
                        },
                        None => {
                            proof {
                                lemma_staked_total_prefix(stakes@, i + 1);
                            }
                            return Err(VaultError::StakeOverflow);
                        },
                    }
                    if x == 0 {
                        zeros.push(validator_ids[i].clone());
                    }
                },
                None => {},
            }
            i = i + 1;
        }
        proof {
            assert(stakes@.subrange(0, i as int) =~= stakes@);
        }
        let ghost zs = zero_staked(validator_ids@, stakes@);
        let ghost base = self.active_validators@;
        let mut j: usize = 0;
        while j < zeros.len()
            invariant
                j <= zeros@.len(),
                views_match(zeros@, zs),
                crate::collections::unique_views(base),
                self.active_validators@ == remove_views_all(base, zs.subrange(0, j as int)),
                *self == (Vault { active_validators: self.active_validators, ..*old(self) }),
                base == old(self).active_validators@,
                old(self).wf(),
                old(self).pending_liquidity_request == Some(pending),
                total == staked_total(stakes@),
                total <= u128::MAX,
            decreases zeros@.len() - j,
        {
            proof {
                assert(zs.subrange(0, j + 1).drop_last() =~= zs.subrange(0, j as int));
                crate::liquidation::lemma_remove_views_all(base, zs.subrange(0, j as int));
            }
            remove_string(&mut self.active_validators, &zeros[j]);
            j = j + 1;
        }
        proof {
            assert(zs.subrange(0, j as int) =~= zs);
            crate::liquidation::lemma_remove_views_all(base, zs);
        }
        self.pending_liquidity_request = None;
        let opened = total >= pending.collateral;
        if opened {
            self.liquidity_request = Some(
                LiquidityRequest {
                    token: pending.token,
                    amount: pending.amount,
                    interest: pending.interest,
                    collateral: pending.collateral,
                    duration: pending.duration,
                    created_at: env.block_timestamp,
                },
            );
        }
        self.release_processing_lock();
        Ok(opened)
    }

    /// The answers to the stake query of a liquidity request, one per validator
    /// of `validator_ids` in order, decoded and then applied as
    /// `apply_total_staked` does. Validators that reported no stake leave the
    /// active set. If the reported stake covers the collateral the request
    /// opens, stamped with the block time; either way the pending request is
    /// dropped and the lock released. Returns whether the request opened.
    pub fn on_check_total_staked(
        &mut self,
        validator_ids: Vec<String>,
        results: &Vec<CallResult>,
        env: &Env,
    ) -> (r: Result<bool, VaultError>)
        requires
            old(self).wf(),
            results@.len() <= validator_ids@.len(),
        ensures
            old(self).pending_liquidity_request is None ==> r == Err::<bool, VaultError>(VaultError::NoPendingRequest)
                && *final(self) == *old(self),
            old(self).pending_liquidity_request is Some && staked_total(decoded_stakes(results@)) > u128::MAX ==> r == Err::<
                bool,
                VaultError,
            >(VaultError::StakeOverflow) && *final(self) == *old(self),
            old(self).pending_liquidity_request is Some && staked_total(decoded_stakes(results@)) <= u128::MAX ==> ({
                let p = old(self).pending_liquidity_request.unwrap();
                let opened = staked_total(decoded_stakes(results@)) >= p.collateral;
                &&& r == Ok::<bool, VaultError>(opened)
                &&& final(self).active_validators@ == remove_views_all(
                    old(self).active_validators@,
                    zero_staked(validator_ids@, decoded_stakes(results@)),
                )
                &&& *final(self) == (Vault {
                    active_validators: final(self).active_validators,
                    pending_liquidity_request: None,
                    liquidity_request: if opened {
                        Some(
                            LiquidityRequest {
                                token: p.token,
                                amount: p.amount,
                                interest: p.interest,
                                collateral: p.collateral,
                                duration: p.duration,
                                created_at: env.block_timestamp,
                            },
                        )
                    } else {
                        old(self).liquidity_request
                    },
                    ..old(self).unlocked()
                })
            }),
            final(self).wf(),
    {
        let stakes = decode_stakes(results);
        self.apply_total_staked(validator_ids, &stakes, env)
    }

    /// Why a repayment is refused, if it is.
    pub open spec fn repay_check(&self, env: Env) -> Option<VaultError> {
        if env.attached_deposit != 1 {
            Some(VaultError::RequiresOneYocto)
        } else if env.predecessor@ != self.owner@ {
            Some(VaultError::NotOwner)
        } else if self.liquidity_request is None {
            Some(VaultError::NoActiveLoan)
        } else if self.accepted_offer is None {
            Some(VaultError::NoAcceptedOffer)
        } else if self.liquidation is Some {
            Some(VaultError::LoanInLiquidation)
        } else if !self.lock_free(env.block_timestamp) {
            Some(VaultError::Busy(self.processing_state))
        } else {
            None
        }
    }

    /// The owner repays principal plus interest to the lender with
    /// `ft_transfer`, under the lock, then `on_repay_loan` settles.
    pub fn repay_loan(&mut self, env: &Env) -> (r: Result<Chain, VaultError>)
        requires
            old(self).liquidity_request matches Some(req) ==> req.amount + req.interest <= u128::MAX,
        ensures
            old(self).repay_check(*env) matches Some(e) ==> r == Err::<Chain, VaultError>(e) && *final(self)
                == *old(self),
            old(self).repay_check(*env) is None ==> ({
                let req = old(self).liquidity_request.unwrap();
                &&& *final(self) == old(self).locked(ProcessingState::RepayLoan, env.block_timestamp)
                &&& r matches Ok(c) && c.calls@ == seq![
                    Call::FtTransfer {
                        token: req.token,
                        receiver: old(self).accepted_offer.unwrap().lender,
                        amount: (req.amount + req.interest) as u128,
                    },
                ] && c.callback == Some(Callback::OnRepayLoan)
            }),
    {
        if env.attached_deposit != 1 {
            return Err(VaultError::RequiresOneYocto);
        }
        if env.predecessor != self.owner {
            return Err(VaultError::NotOwner);
        }
        let (token, due) = match &self.liquidity_request {
            Some(req) => (req.token.clone(), req.amount + req.interest),
            None => {
                return Err(VaultError::NoActiveLoan);
            },
        };
        let lender = match &self.accepted_offer {
            Some(offer) => offer.lender.clone(),
            None => {
                return Err(VaultError::NoAcceptedOffer);
            },
        };
        if self.liquidation.is_some() {
            return Err(VaultError::LoanInLiquidation);
        }
        match self.acquire_processing_lock(ProcessingState::RepayLoan, env.block_timestamp) {
            Ok(()) => {},
            Err(e) => {
                return Err(e);
            },
        }
        Ok(Chain::single(Call::FtTransfer { token, receiver: lender, amount: due }, Callback::OnRepayLoan))
    }

    /// Settles a repayment: the lock is released, and when the transfer
    /// succeeded the loan, its offers and any pending request are cleared.
    pub fn on_repay_loan(&mut self, success: bool)
        ensures
            success ==> *final(self) == (Vault {
                liquidity_request: None,
                accepted_offer: None,
                counter_offers: None,
                pending_liquidity_request: None,
                ..old(self).unlocked()
            }),
            !success ==> *final(self) == old(self).unlocked(),
    {
        self.release_processing_lock();
        if success {
            self.liquidity_request = None;
            self.accepted_offer = None;
            self.counter_offers = None;
            self.pending_liquidity_request = None;
        }
    }
}

/// The ids of `xs` are, in order, the ids `ks`.
pub open spec fn views_match(xs: Seq<String>, ks: Seq<Seq<char>>) -> bool {
    &&& xs.len() == ks.len()
    &&& forall|i: int| 0 <= i < xs.len() ==> #[trigger] xs[i]@ == ks[i]
}

} // verus!
