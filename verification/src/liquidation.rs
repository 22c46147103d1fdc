//! Liquidation of an expired loan: the lender is paid from liquid NEAR, then
//! from matured unstaked NEAR, and stake is unstaked to cover what remains.
//!
//! `process_claims` starts a cycle; each callback either continues the cycle
//! or ends it by releasing the processing lock.

use vstd::prelude::*;
use crate::collections::{
    has_key, has_view, lookup, put_key, remove_by_key, remove_key, remove_string, remove_view, unique_keys,
    unique_views,
};
use crate::env::{CallResult, Env};
use crate::error::VaultError;
use crate::json::{json_u128, parse_json_u128};
use crate::order::sorted_strictly;
use crate::promise::{Call, Callback, Chain};
use crate::types::{Liquidation, ProcessingState, UnstakeEntry, NANOS_PER_SECOND, NUM_EPOCHS_TO_UNLOCK};
use crate::vault::Vault;

verus! {

/// `a + b`, capped at `u64::MAX`.
pub open spec fn sat_add_u64(a: u64, b: u64) -> int {
    if a + b > u64::MAX {
        u64::MAX as int
    } else {
        a + b
    }
}

/// The unstaked NEAR of `e` can be withdrawn at `epoch`.
pub open spec fn is_matured(e: UnstakeEntry, epoch: u64) -> bool {
    epoch >= sat_add_u64(e.epoch_height, NUM_EPOCHS_TO_UNLOCK)
}

/// Total unstaked NEAR in `s` that is still locked at `epoch`.
pub open spec fn maturing_sum(s: Seq<(String, UnstakeEntry)>, epoch: u64) -> int
    decreases s.len(),
{
    if s.len() == 0 {
        0
    } else {
        maturing_sum(s.drop_last(), epoch) + if is_matured(s.last().1, epoch) {
            0
        } else {
            s.last().1.amount as int
        }
    }
}

/// The validators in `s` whose unstaked NEAR can be withdrawn at `epoch`, in order.
pub open spec fn matured_keys(s: Seq<(String, UnstakeEntry)>, epoch: u64) -> Seq<String>
    decreases s.len(),
{
    if s.len() == 0 {
        seq![]
    } else if is_matured(s.last().1, epoch) {
        matured_keys(s.drop_last(), epoch).push(s.last().0)
    } else {
        matured_keys(s.drop_last(), epoch)
    }
}

/// A prefix never holds more maturing NEAR than the whole.
pub proof fn lemma_maturing_sum_prefix(s: Seq<(String, UnstakeEntry)>, epoch: u64, i: int)
    requires
        0 <= i <= s.len(),
    ensures
        0 <= maturing_sum(s.subrange(0, i), epoch) <= maturing_sum(s, epoch),
    decreases s.len() - i,
{
    if i < s.len() {
        lemma_maturing_sum_prefix(s, epoch, i + 1);
        assert(s.subrange(0, i + 1).drop_last() =~= s.subrange(0, i));
    } else {
        assert(s.subrange(0, i) =~= s);
    }
    lemma_maturing_sum_nonneg(s.subrange(0, i), epoch);
}

/// Sums of amounts are never negative.
pub proof fn lemma_maturing_sum_nonneg(s: Seq<(String, UnstakeEntry)>, epoch: u64)
    ensures
        maturing_sum(s, epoch) >= 0,
    decreases s.len(),
{
    if s.len() > 0 {
        lemma_maturing_sum_nonneg(s.drop_last(), epoch);
    }
}

/// Matured, maturing and owed amounts that steer the liquidation driver.
pub struct UnstakeStats {
    /// Validators with unstaked NEAR ready to withdraw.
    pub matured_validators: Vec<String>,
    /// Unstaked NEAR still locked.
    pub maturing_total: u128,
    /// NEAR still owed to the lender.
    pub remaining_debt: u128,
}

impl UnstakeStats {
    /// Some validator has matured unstaked NEAR.
    pub fn has_matured_unstaked(&self) -> (r: bool)
        ensures
            r == (self.matured_validators@.len() > 0),
    {
        self.matured_validators.len() > 0
    }

    /// The locked unstaked NEAR already covers the debt.
    pub fn has_enough_maturing_balance(&self) -> (r: bool)
        ensures
            r == (self.maturing_total >= self.remaining_debt),
    {
        self.maturing_total >= self.remaining_debt
    }
}

/// What the liquidation driver does next.
#[derive(PartialEq, Eq, Structural, Copy, Clone, Debug)]
pub enum LiquidationStep {
    /// Withdraw matured unstaked NEAR from the validators that hold it.
    ClaimMatured,
    /// Ask the validators how much is staked, to unstake the shortfall.
    QueryStake,
    /// Pay liquid NEAR to the lender.
    Payout,
    /// Enough NEAR is unlocking already; release the lock and wait.
    Wait,
}

/// `min(a, b)`.
pub open spec fn min_int(a: int, b: int) -> int {
    if a <= b {
        a
    } else {
        b
    }
}

/// Withdraws from every validator in `vs`, then `on_batch_claim_unstaked(vs)`.
pub open spec fn is_claim_chain(c: Chain, vs: Seq<String>) -> bool {
    &&& c.calls@.len() == vs.len()
    &&& forall|i: int| 0 <= i < vs.len() ==> #[trigger] c.calls@[i] == Call::WithdrawAll { validator: vs[i] }
    &&& c.callback matches Some(Callback::OnBatchClaimUnstaked { validators }) && validators@ == vs
}

/// Asks every validator in `vs` for the vault's stake, then runs `callback`.
pub open spec fn is_stake_query(c: Chain, vs: Seq<String>) -> bool {
    &&& c.calls@.len() == vs.len()
    &&& forall|i: int|
        0 <= i < vs.len() ==> #[trigger] c.calls@[i] == Call::GetAccountStakedBalance { validator: vs[i] }
}

/// Queries every validator in `vs`, then `on_total_staked_process_claims(vs)`.
pub open spec fn is_liquidation_query(c: Chain, vs: Seq<String>) -> bool {
    &&& is_stake_query(c, vs)
    &&& c.callback matches Some(Callback::OnTotalStakedProcessClaims { validators }) && validators@ == vs
}

/// Transfers `amount` to `lender`, then `on_lender_payout_complete(lender, amount, finalize)`.
pub open spec fn is_payout_chain(c: Chain, lender: String, amount: u128, finalize: bool) -> bool {
    &&& c.calls@ == seq![Call::Transfer { receiver: lender, amount }]
    &&& c.callback == Some(Callback::OnLenderPayoutComplete { lender, amount, finalize })
}

/// Unstakes each `(validator, amount, _)` of `es`, then `on_batch_unstake(es)`.
pub open spec fn is_unstake_chain(c: Chain, es: Seq<(String, u128, bool)>) -> bool {
    &&& c.calls@.len() == es.len()
    &&& forall|i: int|
        0 <= i < es.len() ==> #[trigger] c.calls@[i] == Call::Unstake { validator: es[i].0, amount: es[i].1 }
    &&& c.callback matches Some(Callback::OnBatchUnstake { entries }) && entries@ == es
}

impl Vault {
    /// Liquidation has started and owes no more than the collateral.
    pub open spec fn debt_consistent(&self) -> bool {
        &&& self.liquidity_request is Some
        &&& self.liquidation is Some
        &&& self.liquidation.unwrap().liquidated <= self.liquidity_request.unwrap().collateral
    }

    /// Collateral not yet paid to the lender.
    pub open spec fn debt(&self) -> int {
        self.liquidity_request.unwrap().collateral - self.liquidation.unwrap().liquidated
    }

    /// What the driver does next in state `self` under `env`.
    pub open spec fn plan_step(&self, env: Env) -> LiquidationStep {
        let debt = self.debt();
        let maturing = maturing_sum(self.unstake_entries@, env.epoch_height);
        let available = env.available_balance();
        if matured_keys(self.unstake_entries@, env.epoch_height).len() > 0 {
            LiquidationStep::ClaimMatured
        } else if available > 0 && available < debt && maturing < debt - available {
            LiquidationStep::QueryStake
        } else if available > 0 {
            LiquidationStep::Payout
        } else if maturing >= debt {
            LiquidationStep::Wait
        } else {
            LiquidationStep::QueryStake
        }
    }

    /// The effect of one driver step: `r` is what `next_liquidation_step` returns
    /// and `post` the state it leaves.
    pub open spec fn step_effect(&self, env: Env, r: Result<Chain, VaultError>, post: Vault) -> bool {
        match self.plan_step(env) {
            LiquidationStep::ClaimMatured => r matches Ok(c) && post == *self && is_claim_chain(
                c,
                matured_keys(self.unstake_entries@, env.epoch_height),
            ),
            LiquidationStep::QueryStake => if self.active_validators@.len() == 0 {
                r == Err::<Chain, VaultError>(VaultError::NoActiveValidators) && post == *self
            } else {
                r matches Ok(c) && post == *self && exists|vs: Seq<String>|
                    #![trigger is_liquidation_query(c, vs)]
                    is_liquidation_query(c, vs) && sorted_strictly(vs) && vs.len()
                        == self.active_validators@.len() && forall|x: Seq<char>|
                        has_view(vs, x) <==> has_view(self.active_validators@, x)
            },
            LiquidationStep::Payout => r matches Ok(c) && post == *self && is_payout_chain(
                c,
                self.accepted_offer.unwrap().lender,
                min_int(self.debt(), env.available_balance()) as u128,
                min_int(self.debt(), env.available_balance()) == self.debt(),
            ),
            LiquidationStep::Wait => r matches Ok(c) && c.is_noop() && post == self.unlocked(),
        }
    }

    /// Requirements of a driver step: an accepted loan in liquidation whose
    /// numbers fit their machine types.
    pub open spec fn step_ready(&self, env: Env) -> bool {
        &&& self.wf()
        &&& env.wf()
        &&& self.debt_consistent()
        &&& self.accepted_offer is Some
        &&& maturing_sum(self.unstake_entries@, env.epoch_height) <= u128::MAX
    }

    /// NEAR still owed to the lender.
    pub fn remaining_debt(&self) -> (r: u128)
        requires
            self.debt_consistent(),
        ensures
            r == self.debt(),
    {
        let collateral = match &self.liquidity_request {
            Some(req) => req.collateral,
            None => 0,
        };
        let liquidated = match &self.liquidation {
            Some(l) => l.liquidated,
            None => 0,
        };
        collateral - liquidated
    }

    /// Unstaked NEAR still locked at `epoch`.
    pub fn total_maturing_unstake_balance(&self, epoch: u64) -> (r: u128)
        requires
            maturing_sum(self.unstake_entries@, epoch) <= u128::MAX,
        ensures
            r == maturing_sum(self.unstake_entries@, epoch),
    {
        let s = Ghost(self.unstake_entries@);
        let mut total: u128 = 0;
        let mut i: usize = 0;
        while i < self.unstake_entries.len()
            invariant
                s@ == self.unstake_entries@,
                maturing_sum(s@, epoch) <= u128::MAX,
                i <= s@.len(),
                total == maturing_sum(s@.subrange(0, i as int), epoch),
            decreases s@.len() - i,
        {
            proof {
                assert(s@.subrange(0, i + 1).drop_last() =~= s@.subrange(0, i as int));
                lemma_maturing_sum_prefix(s@, epoch, i + 1);
            }
            let e = self.unstake_entries[i].1;
            let maturity: u64 = if e.epoch_height > u64::MAX - NUM_EPOCHS_TO_UNLOCK {
                u64::MAX
            } else {
                e.epoch_height + NUM_EPOCHS_TO_UNLOCK
            };
            if epoch < maturity {
                total = total + e.amount;
            }
            i = i + 1;
        }
        proof {
            assert(s@.subrange(0, i as int) =~= s@);
        }
        total
    }

    /// Matured validators, locked unstaked NEAR, and the remaining debt at `epoch`.
    pub fn snapshot_unstake_stats(&self, epoch: u64) -> (st: UnstakeStats)
        requires
            self.debt_consistent(),
            maturing_sum(self.unstake_entries@, epoch) <= u128::MAX,
        ensures
            st.matured_validators@ == matured_keys(self.unstake_entries@, epoch),
            st.maturing_total == maturing_sum(self.unstake_entries@, epoch),
            st.remaining_debt == self.debt(),
    {
        let s = Ghost(self.unstake_entries@);
        let mut matured: Vec<String> = Vec::new();
        let mut total: u128 = 0;
        let mut i: usize = 0;
        while i < self.unstake_entries.len()
            invariant
                s@ == self.unstake_entries@,
                maturing_sum(s@, epoch) <= u128::MAX,
                i <= s@.len(),
                total == maturing_sum(s@.subrange(0, i as int), epoch),
                matured@ == matured_keys(s@.subrange(0, i as int), epoch),
            decreases s@.len() - i,
        {
            proof {
                assert(s@.subrange(0, i + 1).drop_last() =~= s@.subrange(0, i as int));
                lemma_maturing_sum_prefix(s@, epoch, i + 1);
            }
            let e = self.unstake_entries[i].1;
            let maturity: u64 = if e.epoch_height > u64::MAX - NUM_EPOCHS_TO_UNLOCK {
                u64::MAX
            } else {
                e.epoch_height + NUM_EPOCHS_TO_UNLOCK
            };
            if epoch >= maturity {
                matured.push(self.unstake_entries[i].0.clone());
            } else {
                total = total + e.amount;
            }
            i = i + 1;
        }
        proof {
            assert(s@.subrange(0, i as int) =~= s@);
        }
        UnstakeStats { matured_validators: matured, maturing_total: total, remaining_debt: self.remaining_debt() }
    }

    /// The lender of the accepted offer.
    pub fn lender_account(&self) -> (r: String)
        requires
            self.accepted_offer is Some,
        ensures
            r == self.accepted_offer.unwrap().lender,
    {
        match &self.accepted_offer {
            Some(o) => o.lender.clone(),
            None => String::new(),
        }
    }

    /// Drops the loan: request, acceptance, liquidation and pending request.
    pub fn clear_liquidation_state(&mut self)
        ensures
            *final(self) == (Vault {
                liquidity_request: None,
                accepted_offer: None,
                liquidation: None,
                pending_liquidity_request: None,
                ..*old(self)
            }),
    {
        self.liquidity_request = None;
        self.accepted_offer = None;
        self.liquidation = None;
        self.pending_liquidity_request = None;
    }

    /// Chooses the next driver step, as `plan_step` states it.
    pub fn plan_liquidation_step(&self, env: &Env) -> (r: LiquidationStep)
        requires
            self.step_ready(*env),
        ensures
            r == self.plan_step(*env),
    {
        let stats = self.snapshot_unstake_stats(env.epoch_height);
        if stats.has_matured_unstaked() {
            return LiquidationStep::ClaimMatured;
        }
        let available = self.get_available_balance(env);
        if available > 0 && available < stats.remaining_debt {
            let shortfall = stats.remaining_debt - available;
            if stats.maturing_total < shortfall {
                return LiquidationStep::QueryStake;
            }
        }
        if available > 0 {
            return LiquidationStep::Payout;
        }
        if stats.has_enough_maturing_balance() {
            return LiquidationStep::Wait;
        }
        LiquidationStep::QueryStake
    }

    /// Runs the next driver step (see `step_effect`).
    pub fn next_liquidation_step(&mut self, env: &Env) -> (r: Result<Chain, VaultError>)
        requires
            old(self).step_ready(*env),
        ensures
            old(self).step_effect(*env, r, *final(self)),
    {
        let step = self.plan_liquidation_step(env);
        match step {
            LiquidationStep::ClaimMatured => {
                let stats = self.snapshot_unstake_stats(env.epoch_height);
                match self.try_claim_matured_unstake(&stats) {
                    Some(c) => Ok(c),
                    None => Ok(Chain::noop()),
                }
            },
            LiquidationStep::QueryStake => self.query_additional_unstaking(),
            LiquidationStep::Payout => {
                let lender = self.lender_account();
                let available = self.get_available_balance(env);
                Ok(self.try_payout_liquid_balance(&lender, available))
            },
            LiquidationStep::Wait => Ok(self.wait_for_unstake_progress()),
        }
    }

    /// Withdraws matured unstaked NEAR from every validator that holds some,
    /// if any does.
    pub fn try_claim_matured_unstake(&self, stats: &UnstakeStats) -> (r: Option<Chain>)
        ensures
            stats.matured_validators@.len() == 0 ==> r is None,
            stats.matured_validators@.len() > 0 ==> (r matches Some(c) && is_claim_chain(
                c,
                stats.matured_validators@,
            )),
    {
        if !stats.has_matured_unstaked() {
            return None;
        }
        let cb = Callback::OnBatchClaimUnstaked { validators: copy_ids(&stats.matured_validators) };
        Some(batch_claim_unstaked(&stats.matured_validators, cb))
    }

    /// Pays `min(debt, available)` to the lender; the payout finalizes the
    /// liquidation when it covers the whole debt.
    pub fn try_payout_liquid_balance(&self, lender: &String, available: u128) -> (c: Chain)
        requires
            self.debt_consistent(),
        ensures
            is_payout_chain(
                c,
                *lender,
                min_int(self.debt(), available as int) as u128,
                min_int(self.debt(), available as int) == self.debt(),
            ),
    {
        let outstanding = self.remaining_debt();
        let payout = if outstanding <= available { outstanding } else { available };
        let finalize = payout == outstanding;
        Chain::single(
            Call::Transfer { receiver: lender.clone(), amount: payout },
            Callback::OnLenderPayoutComplete { lender: lender.clone(), amount: payout, finalize },
        )
    }

    /// Releases the lock so the cycle can resume once unstaked NEAR unlocks.
    pub fn wait_for_unstake_progress(&mut self) -> (c: Chain)
        ensures
            c.is_noop(),
            *final(self) == old(self).unlocked(),
    {
        self.release_processing_lock();
        Chain::noop()
    }

    /// Asks every active validator, in id order, for the vault's stake.
    pub fn query_additional_unstaking(&self) -> (r: Result<Chain, VaultError>)
        requires
            self.wf(),
        ensures
            self.active_validators@.len() == 0 ==> r == Err::<Chain, VaultError>(VaultError::NoActiveValidators),
            self.active_validators@.len() > 0 ==> (r matches Ok(c) && exists|vs: Seq<String>|
                #![trigger is_liquidation_query(c, vs)]
                is_liquidation_query(c, vs) && sorted_strictly(vs) && vs.len() == self.active_validators@.len()
                    && forall|x: Seq<char>| has_view(vs, x) <==> has_view(self.active_validators@, x)),
    {
        let validators = self.get_ordered_validator_list();
        if validators.len() == 0 {
            return Err(VaultError::NoActiveValidators);
        }
        let cb = Callback::OnTotalStakedProcessClaims { validators: copy_ids(&validators) };
        let c = batch_query_total_staked(&validators, cb);
        assert(is_liquidation_query(c, validators@));
        Ok(c)
    }

    /// Starts liquidation once the loan has expired (no-op if already started).
    pub fn ensure_liquidation_ready(&mut self, env: &Env) -> (r: Result<(), VaultError>)
        requires
            old(self).accepted_offer is Some ==> old(self).liquidity_request is Some,
            old(self).liquidation is None && old(self).accepted_offer is Some ==> old(self).expiration_fits(),
        ensures
            r == old(self).liquidation_ready_check(env.block_timestamp),
            r is Err ==> *final(self) == *old(self),
            r is Ok ==> *final(self) == old(self).liquidation_started(),
    {
        if self.liquidation.is_some() {
            return Ok(());
        }
        let accepted_at = match &self.accepted_offer {
            Some(o) => o.accepted_at,
            None => {
                return Err(VaultError::NoAcceptedOffer);
            },
        };
        let duration = match &self.liquidity_request {
            Some(req) => req.duration,
            None => 0,
        };
        let expiration = accepted_at + duration * NANOS_PER_SECOND;
        let now = env.block_timestamp;
        if now < expiration {
            return Err(VaultError::LiquidationNotAllowed { expiration, now });
        }
        self.liquidation = Some(Liquidation { liquidated: 0 });
        Ok(())
    }

    /// When the accepted loan expires: acceptance time plus its duration.
    pub open spec fn expiration(&self) -> int {
        self.accepted_offer.unwrap().accepted_at + self.liquidity_request.unwrap().duration * NANOS_PER_SECOND
    }

    /// The expiration timestamp fits in a `u64`.
    pub open spec fn expiration_fits(&self) -> bool {
        self.expiration() <= u64::MAX
    }

    /// Whether liquidation may start at `now`.
    pub open spec fn liquidation_ready_check(&self, now: u64) -> Result<(), VaultError> {
        if self.liquidation is Some {
            Ok(())
        } else if self.accepted_offer is None {
            Err(VaultError::NoAcceptedOffer)
        } else if now < self.expiration() {
            Err(VaultError::LiquidationNotAllowed { expiration: self.expiration() as u64, now })
        } else {
            Ok(())
        }
    }

    /// The state once liquidation has started.
    pub open spec fn liquidation_started(self) -> Vault {
        if self.liquidation is Some {
            self
        } else {
            Vault { liquidation: Some(Liquidation { liquidated: 0 }), ..self }
        }
    }

    /// Why `process_claims` refuses, if it does.
    pub open spec fn process_claims_check(&self, env: Env) -> Option<VaultError> {
        if env.attached_deposit != 1 {
            Some(VaultError::RequiresOneYocto)
        } else if self.liquidation_ready_check(env.block_timestamp) is Err {
            Some(self.liquidation_ready_check(env.block_timestamp)->Err_0)
        } else if !self.liquidation_started().lock_free(env.block_timestamp) {
            Some(VaultError::Busy(self.processing_state))
        } else {
            None
        }
    }

    /// The state in which `process_claims` runs its first driver step.
    pub open spec fn claims_cycle_start(self, now: u64) -> Vault {
        self.liquidation_started().locked(ProcessingState::ProcessClaims, now)
    }

    /// Starts or resumes liquidation of an expired loan (anyone may call it,
    /// attaching one yoctoNEAR): records that liquidation began, takes the
    /// lock, and runs the first driver step.
    pub fn process_claims(&mut self, env: &Env) -> (r: Result<Chain, VaultError>)
        requires
            old(self).wf(),
            env.wf(),
            old(self).accepted_offer is Some ==> old(self).liquidity_request is Some,
            old(self).liquidation is None && old(self).accepted_offer is Some ==> old(self).expiration_fits(),
            old(self).liquidation is Some ==> old(self).accepted_offer is Some && old(self).debt_consistent(),
            maturing_sum(old(self).unstake_entries@, env.epoch_height) <= u128::MAX,
        ensures
            old(self).process_claims_check(*env) matches Some(e) ==> r == Err::<Chain, VaultError>(e) && *final(self) == *old(self),
            old(self).process_claims_check(*env) is None ==> {
                let start = old(self).claims_cycle_start(env.block_timestamp);
                if start.plan_step(*env) == LiquidationStep::QueryStake && start.active_validators@.len() == 0 {
                    r == Err::<Chain, VaultError>(VaultError::NoActiveValidators) && *final(self) == *old(self)
                } else {
                    start.step_effect(*env, r, *final(self))
                }
            },
    {
        if env.attached_deposit != 1 {
            return Err(VaultError::RequiresOneYocto);
        }
        let ghost before = *self;
        let prev_liquidation = self.liquidation;
        let prev_state = self.processing_state;
        let prev_since = self.processing_since;
        match self.ensure_liquidation_ready(env) {
            Ok(()) => {},
            Err(e) => {
                return Err(e);
            },
        }
        let ghost started = *self;
        match self.acquire_processing_lock(ProcessingState::ProcessClaims, env.block_timestamp) {
            Ok(()) => {},
            Err(e) => {
                // A refused call leaves nothing behind, not even the started liquidation.
                self.liquidation = prev_liquidation;
                assert(*self == before);
                return Err(e);
            },
        }
        let step = self.plan_liquidation_step(env);
        if step == LiquidationStep::QueryStake && self.active_validators.len() == 0 {
            self.liquidation = prev_liquidation;
            self.processing_state = prev_state;
            self.processing_since = prev_since;
            assert(*self == before);
            return Err(VaultError::NoActiveValidators);
        }
        self.next_liquidation_step(env)
    }
}

/// Total maturing NEAR after the entry at `i` is replaced by `x`.
pub proof fn lemma_maturing_sum_update(s: Seq<(String, UnstakeEntry)>, epoch: u64, i: int, x: (String, UnstakeEntry))
    requires
        0 <= i < s.len(),
    ensures
        maturing_sum(s.update(i, x), epoch) == maturing_sum(s, epoch) - (if is_matured(s[i].1, epoch) {
            0
        } else {
            s[i].1.amount as int
        }) + (if is_matured(x.1, epoch) {
            0
        } else {
            x.1.amount as int
        }),
    decreases s.len(),
{
    if i < s.len() - 1 {
        assert(s.update(i, x).drop_last() =~= s.drop_last().update(i, x));
        lemma_maturing_sum_update(s.drop_last(), epoch, i, x);
    } else {
        assert(s.update(i, x).drop_last() =~= s.drop_last());
    }
}

/// Removing a validator's entry never adds maturing NEAR.
pub proof fn lemma_maturing_sum_remove(s: Seq<(String, UnstakeEntry)>, epoch: u64, k: Seq<char>)
    ensures
        maturing_sum(remove_key(s, k), epoch) <= maturing_sum(s, epoch),
{
    if has_key(s, k) {
        let i = crate::collections::key_index(s, k);
        crate::collections::lemma_key_index(s, k);
        lemma_maturing_sum_update(s, epoch, i, s.last());
        lemma_maturing_sum_nonneg(s.update(i, s.last()).drop_last(), epoch);
        assert(s.update(i, s.last()).drop_last() =~= s.update(i, s.last()).drop_last());
    }
}

/// The entries left after `on_batch_claim_unstaked` removes each validator whose
/// `withdraw_all` succeeded.
pub open spec fn after_claims(s: Seq<(String, UnstakeEntry)>, vs: Seq<String>, rs: Seq<CallResult>) -> Seq<(String, UnstakeEntry)>
    decreases vs.len(),
{
    if vs.len() == 0 {
        s
    } else {
        let prev = after_claims(s, vs.drop_last(), rs);
        if rs[vs.len() - 1] is Successful {
            remove_key(prev, vs.last()@)
        } else {
            prev
        }
    }
}

/// The stake that a validator reported, if its answer arrived and parsed.
pub open spec fn staked_of(r: CallResult) -> Option<u128> {
    match r {
        CallResult::Successful(b) => json_u128(b@),
        CallResult::Failed => None,
    }
}

/// The stakes that a stake query's answers report, one per answer.
pub open spec fn decoded_stakes(rs: Seq<CallResult>) -> Seq<Option<u128>> {
    rs.map_values(|r: CallResult| staked_of(r))
}

/// Decodes each answer of a stake query.
pub fn decode_stakes(results: &Vec<CallResult>) -> (ss: Vec<Option<u128>>)
    ensures
        ss@ == decoded_stakes(results@),
{
    let mut ss: Vec<Option<u128>> = Vec::new();
    let mut i: usize = 0;
    while i < results.len()
        invariant
            i <= results@.len(),
            ss@ == decoded_stakes(results@.subrange(0, i as int)),
        decreases results@.len() - i,
    {
        let st = Vault::staked_balance_from_result(&results[i]);
        ss.push(st);
        proof {
            assert(ss@ =~= decoded_stakes(results@.subrange(0, i + 1)));
        }
        i = i + 1;
    }
    proof {
        assert(results@.subrange(0, i as int) =~= results@);
    }
    ss
}

/// Unstake instructions covering `deficit` from the validators in order, `ss[i]`
/// being the stake validator `i` reported: each validator with positive stake gives `min(stake, what is left)`; the flag
/// says the whole stake goes.
pub open spec fn unstake_plan(ids: Seq<String>, ss: Seq<Option<u128>>, deficit: int) -> Seq<(String, u128, bool)>
    decreases ids.len(),
{
    if ids.len() == 0 || deficit <= 0 {
        seq![]
    } else {
        let st = ss[0];
        if st is Some && st.unwrap() > 0 {
            let a = min_int(st.unwrap() as int, deficit);
            seq![(ids[0], a as u128, a == st.unwrap())] + unstake_plan(ids.drop_first(), ss.drop_first(), deficit - a)
        } else {
            unstake_plan(ids.drop_first(), ss.drop_first(), deficit)
        }
    }
}

/// Validators met before the deficit is covered that reported a zero stake.
pub open spec fn zero_stake_ids(ids: Seq<String>, ss: Seq<Option<u128>>, deficit: int) -> Seq<Seq<char>>
    decreases ids.len(),
{
    if ids.len() == 0 || deficit <= 0 {
        seq![]
    } else {
        let st = ss[0];
        if st is Some && st.unwrap() > 0 {
            zero_stake_ids(ids.drop_first(), ss.drop_first(), deficit - min_int(st.unwrap() as int, deficit))
        } else if st is Some {
            seq![ids[0]@] + zero_stake_ids(ids.drop_first(), ss.drop_first(), deficit)
        } else {
            zero_stake_ids(ids.drop_first(), ss.drop_first(), deficit)
        }
    }
}

/// `s` with each id of `ks` removed in turn.
pub open spec fn remove_views_all(s: Seq<String>, ks: Seq<Seq<char>>) -> Seq<String>
    decreases ks.len(),
{
    if ks.len() == 0 {
        s
    } else {
        remove_view(remove_views_all(s, ks.drop_last()), ks.last())
    }
}

/// Removing ids keeps the rest unique.
pub proof fn lemma_remove_views_all(s: Seq<String>, ks: Seq<Seq<char>>)
    requires
        unique_views(s),
    ensures
        unique_views(remove_views_all(s, ks)),
    decreases ks.len(),
{
    if ks.len() > 0 {
        lemma_remove_views_all(s, ks.drop_last());
        crate::collections::lemma_remove_view(remove_views_all(s, ks.drop_last()), ks.last());
    }
}

/// The unstaked amount recorded for `k`, or zero.
pub open spec fn recorded(es: Seq<(String, UnstakeEntry)>, k: Seq<char>) -> int {
    match lookup(es, k) {
        Some(e) => e.amount as int,
        None => 0,
    }
}

/// Active validators and unstake entries after `on_batch_unstake` records each
/// successful unstake: the validator leaves the active set when its whole stake
/// went, and its entry grows by the amount and is stamped with `epoch`.
pub open spec fn after_unstakes(
    vs: Seq<String>,
    es: Seq<(String, UnstakeEntry)>,
    xs: Seq<(String, u128, bool)>,
    rs: Seq<CallResult>,
    epoch: u64,
) -> (Seq<String>, Seq<(String, UnstakeEntry)>)
    decreases xs.len(),
{
    if xs.len() == 0 {
        (vs, es)
    } else {
        let prev = after_unstakes(vs, es, xs.drop_last(), rs, epoch);
        let x = xs.last();
        if rs[xs.len() - 1] is Successful {
            (
                if x.2 { remove_view(prev.0, x.0@) } else { prev.0 },
                put_key(
                    prev.1,
                    x.0,
                    UnstakeEntry { amount: (recorded(prev.1, x.0@) + x.1) as u128, epoch_height: epoch },
                ),
            )
        } else {
            prev
        }
    }
}

/// Recording unstakes keeps collections unique and each entry within the
/// recorded amount plus everything unstaked.
pub proof fn lemma_after_unstakes(
    vs: Seq<String>,
    es: Seq<(String, UnstakeEntry)>,
    xs: Seq<(String, u128, bool)>,
    rs: Seq<CallResult>,
    epoch: u64,
)
    requires
        unique_views(vs),
        unique_keys(es),
        rs.len() >= xs.len(),
    ensures
        unique_views(after_unstakes(vs, es, xs, rs, epoch).0),
        unique_keys(after_unstakes(vs, es, xs, rs, epoch).1),
    decreases xs.len(),
{
    if xs.len() > 0 {
        let prev = after_unstakes(vs, es, xs.drop_last(), rs, epoch);
        lemma_after_unstakes(vs, es, xs.drop_last(), rs, epoch);
        let x = xs.last();
        crate::collections::lemma_remove_view(prev.0, x.0@);
        let e = UnstakeEntry { amount: (recorded(prev.1, x.0@) + x.1) as u128, epoch_height: epoch };
        crate::collections::lemma_put_key(prev.1, x.0, e);
    }
}

/// Every successful unstake of `xs` fits: the validator's recorded amount at
/// that point plus the unstaked amount does not exceed `u128::MAX`.
pub open spec fn unstakes_fit(
    vs: Seq<String>,
    es: Seq<(String, UnstakeEntry)>,
    xs: Seq<(String, u128, bool)>,
    rs: Seq<CallResult>,
    epoch: u64,
) -> bool
    decreases xs.len(),
{
    if xs.len() == 0 {
        true
    } else {
        let prev = after_unstakes(vs, es, xs.drop_last(), rs, epoch);
        &&& unstakes_fit(vs, es, xs.drop_last(), rs, epoch)
        &&& rs[xs.len() - 1] is Successful ==> recorded(prev.1, xs.last().0@) + xs.last().1 <= u128::MAX
    }
}

/// If all of `xs` fit, so does each prefix.
pub proof fn lemma_unstakes_fit_prefix(
    vs: Seq<String>,
    es: Seq<(String, UnstakeEntry)>,
    xs: Seq<(String, u128, bool)>,
    rs: Seq<CallResult>,
    epoch: u64,
    i: int,
)
    requires
        unstakes_fit(vs, es, xs, rs, epoch),
        0 <= i <= xs.len(),
    ensures
        unstakes_fit(vs, es, xs.subrange(0, i), rs, epoch),
    decreases xs.len(),
{
    if i == xs.len() {
        assert(xs.subrange(0, i) =~= xs);
    } else {
        lemma_unstakes_fit_prefix(vs, es, xs.drop_last(), rs, epoch, i);
        assert(xs.drop_last().subrange(0, i) =~= xs.subrange(0, i));
    }
}

impl Vault {
    /// Records the outcome of a payout to the lender and ends the cycle: a
    /// successful payout adds to the liquidated total and, when it covered the
    /// whole debt, clears the loan; the lock is released either way.
    pub fn on_lender_payout_complete(&mut self, lender: String, amount: u128, finalize: bool, success: bool) -> (c: Chain)
        requires
            success ==> old(self).liquidation is Some,
        ensures
            c.is_noop(),
            !success ==> *final(self) == old(self).unlocked(),
            success && !finalize ==> *final(self) == (Vault {
                liquidation: Some(Liquidation {
                    liquidated: old(self).liquidation.unwrap().liquidated.saturating_add(amount),
                }),
                ..*old(self)
            }).unlocked(),
            success && finalize ==> *final(self) == (Vault {
                liquidity_request: None,
                accepted_offer: None,
                liquidation: None,
                pending_liquidity_request: None,
                ..*old(self)
            }).unlocked(),
    {
        if success {
            let liquidated = match self.liquidation {
                Some(l) => l.liquidated,
                None => 0,
            };
            self.liquidation = Some(Liquidation { liquidated: liquidated.saturating_add(amount) });
            if finalize {
                self.clear_liquidation_state();
            }
        }
        self.release_processing_lock();
        Chain::noop()
    }

    /// The stake a validator reported: its decoded answer, or `None` when the
    /// query failed or the answer does not parse.
    pub fn staked_balance_from_result(result: &CallResult) -> (r: Option<u128>)
        ensures
            r == staked_of(*result),
    {
        match result {
            CallResult::Successful(bytes) => parse_json_u128(bytes),
            CallResult::Failed => None,
        }
    }

    /// After matured NEAR was withdrawn: drops the entry of each validator whose
    /// withdrawal succeeded, then runs the next driver step. If that step needs
    /// validators and there are none, the call is refused and nothing changes.
    pub fn on_batch_claim_unstaked(&mut self, validators: Vec<String>, results: &Vec<CallResult>, env: &Env) -> (r: Result<Chain, VaultError>)
        requires
            old(self).step_ready(*env),
            results@.len() >= validators@.len(),
        ensures
            r is Err ==> *final(self) == *old(self),
            exists|mid: Vault|
                #![trigger mid.step_ready(*env)]
                mid == (Vault { unstake_entries: mid.unstake_entries, ..*old(self) })
                && mid.unstake_entries@ == after_claims(old(self).unstake_entries@, validators@, results@)
                && mid.step_ready(*env)
                && (if mid.plan_step(*env) == LiquidationStep::QueryStake && mid.active_validators@.len() == 0 {
                    r == Err::<Chain, VaultError>(VaultError::NoActiveValidators)
                } else {
                    mid.step_effect(*env, r, *final(self))
                }),
    {
        let ghost old_self = *self;
        let ghost old_entries = self.unstake_entries@;
        let mut entries = copy_entries(&self.unstake_entries);
        let mut idx: usize = 0;
        while idx < validators.len()
            invariant
                idx <= validators@.len(),
                results@.len() >= validators@.len(),
                unique_keys(entries@),
                entries@ == after_claims(old_entries, validators@.subrange(0, idx as int), results@),
                maturing_sum(entries@, env.epoch_height) <= maturing_sum(old_entries, env.epoch_height),
            decreases validators@.len() - idx,
        {
            proof {
                assert(validators@.subrange(0, idx + 1).drop_last() =~= validators@.subrange(0, idx as int));
            }
            if results[idx].is_successful() {
                proof {
                    lemma_maturing_sum_remove(entries@, env.epoch_height, validators@[idx as int]@);
                }
                remove_by_key(&mut entries, &validators[idx]);
            }
            idx = idx + 1;
        }
        proof {
            assert(validators@.subrange(0, idx as int) =~= validators@);
        }
        std::mem::swap(&mut self.unstake_entries, &mut entries);
        let ghost mid = *self;
        let step = self.plan_liquidation_step(env);
        if step == LiquidationStep::QueryStake && self.active_validators.len() == 0 {
            std::mem::swap(&mut self.unstake_entries, &mut entries);
            assert(*self == old_self);
            assert(mid.step_ready(*env));
            return Err(VaultError::NoActiveValidators);
        }
        let r = self.next_liquidation_step(env);
        assert(mid.step_effect(*env, r, *self));
        assert(mid.step_ready(*env));
        r
    }

    /// The shortfall left after liquid and maturing NEAR: `debt - available -
    /// maturing`, at least zero.
    pub open spec fn deficit(&self, env: Env) -> int {
        ((self.debt() as u128).saturating_sub(env.available_balance() as u128)).saturating_sub(
            maturing_sum(self.unstake_entries@, env.epoch_height) as u128,
        ) as int
    }

    /// With the stake `stakes[i]` that validator `i` reported (`None` when its
    /// query failed), unstakes what covers the shortfall: validators in order give `min(stake, what is left)`, validators with no
    /// stake leave the active set, failed queries are skipped. With nothing to
    /// unstake the lock is released and the cycle waits.
    pub fn process_claims_with_stakes(&mut self, validator_ids: Vec<String>, stakes: &Vec<Option<u128>>, env: &Env) -> (c: Chain)
        requires
            old(self).step_ready(*env),
            stakes@.len() >= validator_ids@.len(),
        ensures
            ({
                let d = old(self).deficit(*env);
                let plan = unstake_plan(validator_ids@, stakes@, d);
                let pruned = Vault {
                    active_validators: final(self).active_validators,
                    ..*old(self)
                };
                &&& final(self).active_validators@ == remove_views_all(
                    old(self).active_validators@,
                    zero_stake_ids(validator_ids@, stakes@, d),
                )
                &&& final(self).wf()
                &&& if plan.len() == 0 {
                    c.is_noop() && *final(self) == pruned.unlocked()
                } else {
                    is_unstake_chain(c, plan) && *final(self) == pruned
                }
            }),
    {
        let ghost old_self = *self;
        let available = self.get_available_balance(env);
        let maturing = self.total_maturing_unstake_balance(env.epoch_height);
        let d0 = self.remaining_debt().saturating_sub(available).saturating_sub(maturing);
        let mut deficit: u128 = d0;
        let mut instructions: Vec<(String, u128, bool)> = Vec::new();
        let ghost mut zeros: Seq<Seq<char>> = seq![];
        let n = validator_ids.len();
        let mut idx: usize = 0;
        proof {
            assert(validator_ids@.subrange(0, n as int) =~= validator_ids@);
            assert(stakes@.subrange(0, stakes@.len() as int) =~= stakes@);
            assert(instructions@ + unstake_plan(validator_ids@, stakes@, d0 as int) =~= unstake_plan(validator_ids@, stakes@, d0 as int));
            assert(zeros + zero_stake_ids(validator_ids@, stakes@, d0 as int) =~= zero_stake_ids(validator_ids@, stakes@, d0 as int));
        }
        while idx < n && deficit > 0
            invariant
                n == validator_ids@.len(),
                idx <= n,
                stakes@.len() >= n,
                unique_views(self.active_validators@),
                *self == (Vault { active_validators: self.active_validators, ..old_self }),
                self.active_validators@ == remove_views_all(old_self.active_validators@, zeros),
                instructions@ + unstake_plan(
                    validator_ids@.subrange(idx as int, n as int),
                    stakes@.subrange(idx as int, stakes@.len() as int),
                    deficit as int,
                ) == unstake_plan(validator_ids@, stakes@, d0 as int),
                zeros + zero_stake_ids(
                    validator_ids@.subrange(idx as int, n as int),
                    stakes@.subrange(idx as int, stakes@.len() as int),
                    deficit as int,
                ) == zero_stake_ids(validator_ids@, stakes@, d0 as int),
            decreases n - idx,
        {
            let ghost ids_rest = validator_ids@.subrange(idx as int, n as int);
            let ghost ss_rest = stakes@.subrange(idx as int, stakes@.len() as int);
            proof {
                assert(ids_rest.drop_first() =~= validator_ids@.subrange(idx + 1, n as int));
                assert(ss_rest.drop_first() =~= stakes@.subrange(idx + 1, stakes@.len() as int));
                assert(ids_rest[0] == validator_ids@[idx as int]);
                assert(ss_rest[0] == stakes@[idx as int]);
            }
            let staked = stakes[idx];
            match staked {
                None => {},
                Some(st) => {
                    if st == 0 {
                        proof {
                            crate::collections::lemma_remove_view(self.active_validators@, validator_ids@[idx as int]@);
                            assert((zeros.push(validator_ids@[idx as int]@)).drop_last() =~= zeros);
                            assert(zeros.push(validator_ids@[idx as int]@) + zero_stake_ids(
                                validator_ids@.subrange(idx + 1, n as int),
                                stakes@.subrange(idx + 1, stakes@.len() as int),
                                deficit as int,
                            ) =~= zeros + zero_stake_ids(ids_rest, ss_rest, deficit as int));
                        }
                        remove_string(&mut self.active_validators, &validator_ids[idx]);
                        proof {
                            zeros = zeros.push(validator_ids@[idx as int]@);
                        }
                    } else {
                        let amount = if st <= deficit { st } else { deficit };
                        let ghost pre_instr = instructions@;
                        instructions.push((validator_ids[idx].clone(), amount, amount == st));
                        proof {
                            assert(instructions@ + unstake_plan(
                                validator_ids@.subrange(idx + 1, n as int),
                                stakes@.subrange(idx + 1, stakes@.len() as int),
                                (deficit - amount) as int,
                            ) =~= pre_instr + unstake_plan(ids_rest, ss_rest, deficit as int));
                        }
                        deficit = deficit - amount;
                    }
                },
            }
            idx = idx + 1;
        }
        proof {
            let ids_rest = validator_ids@.subrange(idx as int, n as int);
            let ss_rest = stakes@.subrange(idx as int, stakes@.len() as int);
            assert(unstake_plan(ids_rest, ss_rest, deficit as int) =~= seq![]);
            assert(zero_stake_ids(ids_rest, ss_rest, deficit as int) =~= seq![]);
            assert(instructions@ =~= unstake_plan(validator_ids@, stakes@, d0 as int));
            assert(zeros =~= zero_stake_ids(validator_ids@, stakes@, d0 as int));
        }
        if instructions.len() == 0 {
            return self.wait_for_unstake_progress();
        }
        let cb = Callback::OnBatchUnstake { entries: copy_instructions(&instructions) };
        batch_unstake(&instructions, cb)
    }

    /// The answers to the stake query of the liquidation driver, one per
    /// validator of `validator_ids`: each is decoded, then the shortfall is
    /// unstaked as `process_claims_with_stakes` does.
    pub fn on_total_staked_process_claims(&mut self, validator_ids: Vec<String>, results: &Vec<CallResult>, env: &Env) -> (c: Chain)
        requires
            old(self).step_ready(*env),
            results@.len() >= validator_ids@.len(),
        ensures
            ({
                let d = old(self).deficit(*env);
                let ss = decoded_stakes(results@);
                let plan = unstake_plan(validator_ids@, ss, d);
                let pruned = Vault {
                    active_validators: final(self).active_validators,
                    ..*old(self)
                };
                &&& final(self).active_validators@ == remove_views_all(
                    old(self).active_validators@,
                    zero_stake_ids(validator_ids@, ss, d),
                )
                &&& final(self).wf()
                &&& if plan.len() == 0 {
                    c.is_noop() && *final(self) == pruned.unlocked()
                } else {
                    is_unstake_chain(c, plan) && *final(self) == pruned
                }
            }),
    {
        let stakes = decode_stakes(results);
        self.process_claims_with_stakes(validator_ids, &stakes, env)
    }

    /// After unstake calls returned: records each successful unstake (see
    /// `after_unstakes`), then pays the lender from liquid NEAR if there is
    /// any; otherwise releases the lock.
    pub fn on_batch_unstake(&mut self, entries: Vec<(String, u128, bool)>, results: &Vec<CallResult>, env: &Env) -> (c: Chain)
        requires
            old(self).wf(),
            env.wf(),
            old(self).accepted_offer is Some,
            env.available_balance() > 0 ==> old(self).debt_consistent(),
            results@.len() >= entries@.len(),
            unstakes_fit(old(self).active_validators@, old(self).unstake_entries@, entries@, results@, env.epoch_height),
        ensures
            ({
                let after = after_unstakes(
                    old(self).active_validators@,
                    old(self).unstake_entries@,
                    entries@,
                    results@,
                    env.epoch_height,
                );
                let recorded_state = Vault {
                    active_validators: final(self).active_validators,
                    unstake_entries: final(self).unstake_entries,
                    ..*old(self)
                };
                &&& final(self).active_validators@ == after.0
                &&& final(self).unstake_entries@ == after.1
                &&& final(self).wf()
                &&& if env.available_balance() > 0 {
                    *final(self) == recorded_state && is_payout_chain(
                        c,
                        old(self).accepted_offer.unwrap().lender,
                        min_int(old(self).debt(), env.available_balance()) as u128,
                        min_int(old(self).debt(), env.available_balance()) == old(self).debt(),
                    )
                } else {
                    c.is_noop() && *final(self) == recorded_state.unlocked()
                }
            }),
    {
        let ghost old_self = *self;
        let n = entries.len();
        let mut idx: usize = 0;
        while idx < n
            invariant
                n == entries@.len(),
                idx <= n,
                results@.len() >= n,
                self.wf(),
                old_self.wf(),
                *self == (Vault {
                    active_validators: self.active_validators,
                    unstake_entries: self.unstake_entries,
                    ..old_self
                }),
                (self.active_validators@, self.unstake_entries@) == after_unstakes(
                    old_self.active_validators@,
                    old_self.unstake_entries@,
                    entries@.subrange(0, idx as int),
                    results@,
                    env.epoch_height,
                ),
                unstakes_fit(old_self.active_validators@, old_self.unstake_entries@, entries@, results@, env.epoch_height),
            decreases n - idx,
        {
            let ghost pre = entries@.subrange(0, idx as int);
            proof {
                assert(entries@.subrange(0, idx + 1).drop_last() =~= pre);
                assert(entries@.subrange(0, idx + 1).last() == entries@[idx as int]);
                lemma_after_unstakes(old_self.active_validators@, old_self.unstake_entries@, pre, results@, env.epoch_height);
                lemma_unstakes_fit_prefix(
                    old_self.active_validators@,
                    old_self.unstake_entries@,
                    entries@,
                    results@,
                    env.epoch_height,
                    idx + 1,
                );
            }
            if results[idx].is_successful() {
                let validator = &entries[idx].0;
                let amount = entries[idx].1;
                if entries[idx].2 {
                    remove_string(&mut self.active_validators, validator);
                }
                self.update_validator_unstake_entry(validator, amount, env.epoch_height);
            }
            idx = idx + 1;
        }
        proof {
            assert(entries@.subrange(0, n as int) =~= entries@);
        }
        let lender = self.lender_account();
        let available = self.get_available_balance(env);
        if available > 0 {
            return self.try_payout_liquid_balance(&lender, available);
        }
        self.release_processing_lock();
        Chain::noop()
    }
}

/// A copy of a list of unstake instructions.
pub fn copy_instructions(v: &Vec<(String, u128, bool)>) -> (r: Vec<(String, u128, bool)>)
    ensures
        r@ == v@,
{
    let mut r: Vec<(String, u128, bool)> = Vec::new();
    let mut i: usize = 0;
    while i < v.len()
        invariant
            i <= v.len(),
            r@ == v@.subrange(0, i as int),
        decreases v.len() - i,
    {
        r.push((v[i].0.clone(), v[i].1, v[i].2));
        i = i + 1;
        assert(r@ =~= v@.subrange(0, i as int));
    }
    assert(v@.subrange(0, i as int) =~= v@);
    r
}

/// A copy of a map of unstake entries.
pub fn copy_entries(v: &Vec<(String, UnstakeEntry)>) -> (r: Vec<(String, UnstakeEntry)>)
    ensures
        r@ == v@,
{
    let mut r: Vec<(String, UnstakeEntry)> = Vec::new();
    let mut i: usize = 0;
    while i < v.len()
        invariant
            i <= v.len(),
            r@ == v@.subrange(0, i as int),
        decreases v.len() - i,
    {
        r.push((v[i].0.clone(), v[i].1));
        i = i + 1;
        assert(r@ =~= v@.subrange(0, i as int));
    }
    assert(v@.subrange(0, i as int) =~= v@);
    r
}

/// A copy of a list of account ids.
pub fn copy_ids(v: &Vec<String>) -> (r: Vec<String>)
    ensures
        r@ == v@,
{
    let mut r: Vec<String> = Vec::new();
    let mut i: usize = 0;
    while i < v.len()
        invariant
            i <= v.len(),
            r@ == v@.subrange(0, i as int),
        decreases v.len() - i,
    {
        r.push(v[i].clone());
        i = i + 1;
        assert(r@ =~= v@.subrange(0, i as int));
    }
    assert(v@.subrange(0, i as int) =~= v@);
    r
}

/// `withdraw_all` on every validator of `validators`, then `callback`.
pub fn batch_claim_unstaked(validators: &Vec<String>, callback: Callback) -> (c: Chain)
    ensures
        c.calls@.len() == validators@.len(),
        forall|i: int| 0 <= i < validators@.len() ==> #[trigger] c.calls@[i] == (Call::WithdrawAll { validator: validators@[i] }),
        c.callback == Some(callback),
{
    let mut calls: Vec<Call> = Vec::new();
    let mut i: usize = 0;
    while i < validators.len()
        invariant
            i <= validators.len(),
            calls@.len() == i,
            forall|j: int| 0 <= j < i ==> #[trigger] calls@[j] == (Call::WithdrawAll { validator: validators@[j] }),
        decreases validators.len() - i,
    {
        calls.push(Call::WithdrawAll { validator: validators[i].clone() });
        i = i + 1;
    }
    Chain { calls, callback: Some(callback) }
}

/// `get_account_staked_balance` on every validator of `validators`, then `callback`.
pub fn batch_query_total_staked(validators: &Vec<String>, callback: Callback) -> (c: Chain)
    ensures
        is_stake_query(c, validators@),
        c.callback == Some(callback),
{
    let mut calls: Vec<Call> = Vec::new();
    let mut i: usize = 0;
    while i < validators.len()
        invariant
            i <= validators.len(),
            calls@.len() == i,
            forall|j: int|
                0 <= j < i ==> #[trigger] calls@[j] == (Call::GetAccountStakedBalance { validator: validators@[j] }),
        decreases validators.len() - i,
    {
        calls.push(Call::GetAccountStakedBalance { validator: validators[i].clone() });
        i = i + 1;
    }
    Chain { calls, callback: Some(callback) }
}

/// `unstake(amount)` on the validator of each instruction, then `callback`.
pub fn batch_unstake(instructions: &Vec<(String, u128, bool)>, callback: Callback) -> (c: Chain)
    ensures
        c.calls@.len() == instructions@.len(),
        forall|i: int|
            0 <= i < instructions@.len() ==> #[trigger] c.calls@[i] == (Call::Unstake {
                validator: instructions@[i].0,
                amount: instructions@[i].1,
            }),
        c.callback == Some(callback),
{
    let mut calls: Vec<Call> = Vec::new();
    let mut i: usize = 0;
    while i < instructions.len()
        invariant
            i <= instructions.len(),
            calls@.len() == i,
            forall|j: int|
                0 <= j < i ==> #[trigger] calls@[j] == (Call::Unstake {
                    validator: instructions@[j].0,
                    amount: instructions@[j].1,
                }),
        decreases instructions.len() - i,
    {
        calls.push(Call::Unstake { validator: instructions[i].0.clone(), amount: instructions[i].1 });
        i = i + 1;
    }
    Chain { calls, callback: Some(callback) }
}

} // verus!
