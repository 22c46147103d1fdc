//! The vault's state and the helpers its methods share: balances, the
//! processing lock, refund bookkeeping, unstake bookkeeping and promise builders.

use vstd::prelude::*;
use crate::collections::{
    find_key, has_view, lookup, put_by_id, put_by_key, put_id, put_key, unique_ids, unique_keys,
    unique_views,
};
use crate::env::Env;
use crate::error::VaultError;
use crate::order::{sorted_ids, sorted_strictly};
use crate::promise::{Call, Callback, Chain};
use crate::types::{
    AcceptedOffer, CounterOffer, Liquidation, LiquidityRequest, PendingLiquidityRequest,
    ProcessingState, RefundEntry, UnstakeEntry, LOCK_TIMEOUT, STORAGE_BUFFER,
};

verus! {

/// The complete state of one vault.
#[derive(PartialEq, Eq, Clone, Debug)]
pub struct Vault {
    /// The borrower who owns the vault.
    pub owner: String,
    /// Index assigned by the factory.
    pub index: u64,
    /// Version of the vault code.
    pub version: u64,
    /// Validators holding stake of the vault (a set).
    pub active_validators: Vec<String>,
    /// Unstaked NEAR per validator (a map).
    pub unstake_entries: Vec<(String, UnstakeEntry)>,
    /// A request waiting for the validators' stake to be confirmed.
    pub pending_liquidity_request: Option<PendingLiquidityRequest>,
    /// The open liquidity request.
    pub liquidity_request: Option<LiquidityRequest>,
    /// Counter offers by proposer (a map).
    pub counter_offers: Option<Vec<(String, CounterOffer)>>,
    /// The lender whose funds were accepted.
    pub accepted_offer: Option<AcceptedOffer>,
    /// Liquidation progress once the loan expired.
    pub liquidation: Option<Liquidation>,
    /// Refunds not yet settled, by id (a map).
    pub refund_list: Vec<(u64, RefundEntry)>,
    /// Next refund id.
    pub refund_nonce: u64,
    /// The operation holding the processing lock.
    pub processing_state: ProcessingState,
    /// When the lock was taken.
    pub processing_since: u64,
    /// Whether anyone may buy the vault for its storage cost.
    pub is_listed_for_takeover: bool,
}

/// `now - since`, or zero if the clock went backwards.
pub open spec fn elapsed(now: u64, since: u64) -> int {
    if now >= since {
        now - since
    } else {
        0
    }
}

/// A refund of `offer` in `token`: `ft_transfer` to the proposer, then `on_refund_complete`.
pub open spec fn is_refund_chain(c: Chain, token: String, offer: CounterOffer) -> bool {
    &&& c.calls@ == seq![Call::FtTransfer { token, receiver: offer.proposer, amount: offer.amount }]
    &&& c.callback == Some(
        Callback::OnRefundComplete { refund_id: None, proposer: offer.proposer, amount: offer.amount, token },
    )
}

/// The refund entries that recording `offers` creates: consecutive ids from
/// `first_id`, each stamped with `epoch` and the offer's proposer and amount.
pub open spec fn recorded_refunds(
    offers: Seq<(String, CounterOffer)>,
    token: String,
    first_id: u64,
    epoch: u64,
) -> Seq<(u64, RefundEntry)> {
    Seq::new(
        offers.len(),
        |i: int|
            (
                (first_id + i) as u64,
                RefundEntry {
                    token: Some(token),
                    proposer: offers[i].1.proposer,
                    amount: offers[i].1.amount,
                    added_at_epoch: epoch,
                },
            ),
    )
}

/// `s` with each refund of `ks` stored in turn.
pub open spec fn put_ids(s: Seq<(u64, RefundEntry)>, ks: Seq<(u64, RefundEntry)>) -> Seq<(u64, RefundEntry)>
    decreases ks.len(),
{
    if ks.len() == 0 {
        s
    } else {
        let prev = put_ids(s, ks.drop_last());
        put_id(prev, ks.last().0, ks.last().1)
    }
}

/// The promise that pays out recorded refund `k` in `token`: `ft_transfer` to
/// the proposer, then `on_refund_complete` under the refund's id.
pub open spec fn is_recorded_refund_chain(c: Chain, token: String, k: (u64, RefundEntry)) -> bool {
    &&& c.calls@ == seq![Call::FtTransfer { token, receiver: k.1.proposer, amount: k.1.amount }]
    &&& c.callback == Some(
        Callback::OnRefundComplete { refund_id: Some(k.0), proposer: k.1.proposer, amount: k.1.amount, token },
    )
}

/// One payout per recorded refund of `ks`, in order.
pub open spec fn are_recorded_refund_chains(cs: Seq<Chain>, token: String, ks: Seq<(u64, RefundEntry)>) -> bool {
    &&& cs.len() == ks.len()
    &&& forall|i: int| 0 <= i < cs.len() ==> is_recorded_refund_chain(#[trigger] cs[i], token, ks[i])
}

/// The refunds of all `offers`, one chain per offer, in order.
pub open spec fn are_refund_chains(cs: Seq<Chain>, token: String, offers: Seq<(String, CounterOffer)>) -> bool {
    &&& cs.len() == offers.len()
    &&& forall|i: int| 0 <= i < cs.len() ==> is_refund_chain(#[trigger] cs[i], token, offers[i].1)
}

impl Vault {
    /// Takes the counter offers away and records a refund of each in the
    /// refund list; returns the promises that pay them out.
    pub fn refund_all_counter_offers(&mut self, token: &String, epoch: u64) -> (cs: Vec<Chain>)
        requires
            old(self).wf(),
            old(self).refund_nonce + old(self).offers_seq().len() <= u64::MAX,
        ensures
            final(self).wf(),
            ({
                let ks = recorded_refunds(old(self).offers_seq(), *token, old(self).refund_nonce, epoch);
                &&& *final(self) == (Vault {
                    counter_offers: None,
                    refund_list: final(self).refund_list,
                    refund_nonce: final(self).refund_nonce,
                    ..*old(self)
                })
                &&& final(self).refund_list@ == put_ids(old(self).refund_list@, ks)
                &&& final(self).refund_nonce == old(self).refund_nonce + ks.len()
                &&& are_recorded_refund_chains(cs@, *token, ks)
            }),
    {
        match self.counter_offers.take() {
            Some(offers) => self.record_refunds(token, &offers, epoch),
            None => {
                proof {
                    assert(recorded_refunds(old(self).offers_seq(), *token, old(self).refund_nonce, epoch) =~= seq![]);
                }
                Vec::new()
            },
        }
    }

    /// Records a refund of each of `offers` in `token` under fresh ids, stamped
    /// with `epoch`, and returns the promises that pay them out.
    pub fn record_refunds(&mut self, token: &String, offers: &Vec<(String, CounterOffer)>, epoch: u64) -> (cs: Vec<Chain>)
        requires
            old(self).wf(),
            old(self).refund_nonce + offers@.len() <= u64::MAX,
        ensures
            final(self).wf(),
            ({
                let ks = recorded_refunds(offers@, *token, old(self).refund_nonce, epoch);
                &&& final(self).refund_list@ == put_ids(old(self).refund_list@, ks)
                &&& final(self).refund_nonce == old(self).refund_nonce + offers@.len()
                &&& *final(self) == (Vault {
                    refund_list: final(self).refund_list,
                    refund_nonce: final(self).refund_nonce,
                    ..*old(self)
                })
                &&& are_recorded_refund_chains(cs@, *token, ks)
            }),
    {
        let ghost ks = recorded_refunds(offers@, *token, self.refund_nonce, epoch);
        let ghost nonce0 = self.refund_nonce;
        let mut cs: Vec<Chain> = Vec::new();
        let mut i: usize = 0;
        while i < offers.len()
            invariant
                i <= offers@.len(),
                ks == recorded_refunds(offers@, *token, nonce0, epoch),
                nonce0 == old(self).refund_nonce,
                nonce0 + offers@.len() <= u64::MAX,
                self.wf(),
                self.refund_nonce == nonce0 + i,
                self.refund_list@ == put_ids(old(self).refund_list@, ks.subrange(0, i as int)),
                *self == (Vault { refund_list: self.refund_list, refund_nonce: self.refund_nonce, ..*old(self) }),
                cs@.len() == i,
                forall|j: int| 0 <= j < i ==> is_recorded_refund_chain(#[trigger] cs@[j], *token, ks[j]),
            decreases offers@.len() - i,
        {
            let proposer = offers[i].1.proposer.clone();
            let amount = offers[i].1.amount;
            let id = self.add_refund_entry(Some(token.clone()), proposer.clone(), amount, None, epoch);
            proof {
                assert(ks.subrange(0, i + 1).drop_last() =~= ks.subrange(0, i as int));
            }
            let call = Call::FtTransfer { token: token.clone(), receiver: proposer.clone(), amount };
            let callback = Callback::OnRefundComplete { refund_id: Some(id), proposer, amount, token: token.clone() };
            cs.push(Chain::single(call, callback));
            i = i + 1;
        }
        proof {
            assert(ks.subrange(0, i as int) =~= ks);
        }
        cs
    }

    /// The collections hold no duplicate keys.
    pub open spec fn wf(&self) -> bool {
        &&& unique_views(self.active_validators@)
        &&& unique_keys(self.unstake_entries@)
        &&& unique_ids(self.refund_list@)
        &&& (self.counter_offers matches Some(o) ==> unique_keys(o@))
    }

    /// The lock may be taken at `now`: it is idle or has gone stale.
    pub open spec fn lock_free(&self, now: u64) -> bool {
        self.processing_state == ProcessingState::Idle || elapsed(now, self.processing_since)
            >= LOCK_TIMEOUT
    }

    /// The state with the lock held by `kind` since `now`.
    pub open spec fn locked(self, kind: ProcessingState, now: u64) -> Vault {
        Vault { processing_state: kind, processing_since: now, ..self }
    }

    /// The state with the lock released.
    pub open spec fn unlocked(self) -> Vault {
        Vault { processing_state: ProcessingState::Idle, processing_since: 0, ..self }
    }

    /// The state after a stale lock is cleared (unchanged when idle).
    pub open spec fn idle_cleared(self) -> Vault {
        if self.processing_state == ProcessingState::Idle {
            self
        } else {
            self.unlocked()
        }
    }

    /// A fresh vault of `owner`.
    pub fn new(owner: String, index: u64, version: u64) -> (v: Vault)
        ensures
            v.wf(),
            v.owner == owner,
            v.index == index,
            v.version == version,
            v.active_validators@.len() == 0,
            v.unstake_entries@.len() == 0,
            v.refund_list@.len() == 0,
            v.pending_liquidity_request is None,
            v.liquidity_request is None,
            v.counter_offers is None,
            v.accepted_offer is None,
            v.liquidation is None,
            v.refund_nonce == 0,
            v.processing_state == ProcessingState::Idle,
            v.processing_since == 0,
            !v.is_listed_for_takeover,
    {
        Vault {
            owner,
            index,
            version,
            active_validators: Vec::new(),
            unstake_entries: Vec::new(),
            pending_liquidity_request: None,
            liquidity_request: None,
            counter_offers: None,
            accepted_offer: None,
            liquidation: None,
            refund_list: Vec::new(),
            refund_nonce: 0,
            processing_state: ProcessingState::Idle,
            processing_since: 0,
            is_listed_for_takeover: false,
        }
    }

    /// The storage cost of the account plus the reserved buffer.
    pub fn get_storage_cost(&self, env: &Env) -> (r: u128)
        requires
            env.wf(),
        ensures
            r == env.storage_cost(),
    {
        env.storage_byte_cost * (env.storage_usage as u128) + STORAGE_BUFFER
    }

    /// The balance that may be spent: the account balance less the storage cost, at least zero.
    pub fn get_available_balance(&self, env: &Env) -> (r: u128)
        requires
            env.wf(),
        ensures
            r == env.available_balance(),
    {
        let cost = self.get_storage_cost(env);
        if env.account_balance >= cost {
            env.account_balance - cost
        } else {
            0
        }
    }

    /// Takes the next refund id.
    pub fn get_refund_nonce(&mut self) -> (id: u64)
        requires
            old(self).refund_nonce < u64::MAX,
        ensures
            id == old(self).refund_nonce,
            *final(self) == (Vault { refund_nonce: (id + 1) as u64, ..*old(self) }),
    {
        let id = self.refund_nonce;
        self.refund_nonce = id + 1;
        id
    }

    /// Takes the processing lock for `kind` at time `now`, first clearing a stale lock.
    /// Refused while another operation holds a fresh lock.
    pub fn acquire_processing_lock(&mut self, kind: ProcessingState, now: u64) -> (r: Result<(), VaultError>)
        requires
            kind != ProcessingState::Idle,
        ensures
            r is Ok <==> old(self).lock_free(now),
            r is Ok ==> *final(self) == old(self).locked(kind, now),
            r is Err ==> r == Err::<(), VaultError>(VaultError::Busy(old(self).processing_state)),
            r is Err ==> *final(self) == *old(self),
    {
        let elapsed = if now >= self.processing_since { now - self.processing_since } else { 0 };
        if self.processing_state != ProcessingState::Idle && elapsed < LOCK_TIMEOUT {
            return Err(VaultError::Busy(self.processing_state));
        }
        self.processing_state = kind;
        self.processing_since = now;
        Ok(())
    }

    /// Whether the lock may be taken at `now`.
    pub fn lock_is_free(&self, now: u64) -> (r: bool)
        ensures
            r == self.lock_free(now),
    {
        if self.processing_state == ProcessingState::Idle {
            return true;
        }
        let elapsed = if now >= self.processing_since { now - self.processing_since } else { 0 };
        elapsed >= LOCK_TIMEOUT
    }

    /// Checks that no operation holds a fresh lock, clearing a stale one.
    pub fn ensure_processing_idle(&mut self, now: u64) -> (r: Result<(), VaultError>)
        ensures
            r is Ok <==> old(self).lock_free(now),
            r is Ok ==> *final(self) == old(self).idle_cleared(),
            r is Err ==> r == Err::<(), VaultError>(VaultError::Busy(old(self).processing_state)),
            r is Err ==> *final(self) == *old(self),
    {
        if self.processing_state == ProcessingState::Idle {
            return Ok(());
        }
        let elapsed = if now >= self.processing_since { now - self.processing_since } else { 0 };
        if elapsed < LOCK_TIMEOUT {
            return Err(VaultError::Busy(self.processing_state));
        }
        self.processing_state = ProcessingState::Idle;
        self.processing_since = 0;
        Ok(())
    }

    /// Releases the processing lock.
    pub fn release_processing_lock(&mut self)
        ensures
            *final(self) == old(self).unlocked(),
    {
        self.processing_state = ProcessingState::Idle;
        self.processing_since = 0;
    }

    /// Records a refund under `refund_id`, or under a fresh id when none is given.
    pub fn add_refund_entry(
        &mut self,
        token: Option<String>,
        proposer: String,
        amount: u128,
        refund_id: Option<u64>,
        epoch: u64,
    ) -> (id: u64)
        requires
            old(self).wf(),
            refund_id is None ==> old(self).refund_nonce < u64::MAX,
        ensures
            final(self).wf(),
            refund_id matches Some(given) ==> id == given,
            refund_id is None ==> id == old(self).refund_nonce,
            final(self).refund_list@ == put_id(
                old(self).refund_list@,
                id,
                RefundEntry { token, proposer, amount, added_at_epoch: epoch },
            ),
            final(self).refund_nonce == if refund_id is None {
                (old(self).refund_nonce + 1) as u64
            } else {
                old(self).refund_nonce
            },
            *final(self) == (Vault {
                refund_list: final(self).refund_list,
                refund_nonce: final(self).refund_nonce,
                ..*old(self)
            }),
    {
        let id = match refund_id {
            Some(given) => given,
            None => self.get_refund_nonce(),
        };
        put_by_id(&mut self.refund_list, id, RefundEntry { token, proposer, amount, added_at_epoch: epoch });
        id
    }

    /// Moves the acceptance time of the accepted offer to `timestamp`, to
    /// exercise loan expiry.
    pub fn set_accepted_offer_timestamp(&mut self, timestamp: u64) -> (r: Result<(), VaultError>)
        ensures
            old(self).accepted_offer is None ==> r == Err::<(), VaultError>(VaultError::NoAcceptedOffer)
                && *final(self) == *old(self),
            old(self).accepted_offer matches Some(a) ==> r is Ok && *final(self) == (Vault {
                accepted_offer: Some(AcceptedOffer { accepted_at: timestamp, ..a }),
                ..*old(self)
            }),
    {
        match &mut self.accepted_offer {
            Some(offer) => {
                offer.accepted_at = timestamp;
                Ok(())
            },
            None => Err(VaultError::NoAcceptedOffer),
        }
    }

    /// The unstake entry of `validator` after `amount` more was unstaked at `epoch`.
    pub open spec fn unstake_after(&self, validator: Seq<char>, amount: u128, epoch: u64) -> UnstakeEntry {
        UnstakeEntry {
            amount: (match lookup(self.unstake_entries@, validator) {
                Some(e) => e.amount,
                None => 0,
            } + amount) as u128,
            epoch_height: epoch,
        }
    }

    /// Adds `amount` to the unstake entry of `validator` (creating it) and stamps it with `epoch`.
    pub fn update_validator_unstake_entry(&mut self, validator: &String, amount: u128, epoch: u64)
        requires
            old(self).wf(),
            (match lookup(old(self).unstake_entries@, validator@) {
                Some(e) => e.amount,
                None => 0,
            }) + amount <= u128::MAX,
        ensures
            final(self).wf(),
            final(self).unstake_entries@ == put_key(
                old(self).unstake_entries@,
                *validator,
                old(self).unstake_after(validator@, amount, epoch),
            ),
            *final(self) == (Vault { unstake_entries: final(self).unstake_entries, ..*old(self) }),
    {
        let current: u128 = match find_key(&self.unstake_entries, validator) {
            Some(i) => self.unstake_entries[i].1.amount,
            None => 0,
        };
        let entry = UnstakeEntry { amount: current + amount, epoch_height: epoch };
        put_by_key(&mut self.unstake_entries, validator.clone(), entry);
    }

    /// The active validators in ascending order of account id.
    pub fn get_ordered_validator_list(&self) -> (list: Vec<String>)
        requires
            self.wf(),
        ensures
            sorted_strictly(list@),
            unique_views(list@),
            list@.len() == self.active_validators@.len(),
            forall|x: Seq<char>| has_view(list@, x) <==> has_view(self.active_validators@, x),
    {
        sorted_ids(&self.active_validators)
    }
}

/// The refund of a counter offer: `ft_transfer` of its amount back to the proposer,
/// then `on_refund_complete`.
pub fn refund_counter_offer(token: &String, offer: &CounterOffer) -> (c: Chain)
    ensures
        is_refund_chain(c, *token, *offer),
{
    Chain::single(
        Call::FtTransfer { token: token.clone(), receiver: offer.proposer.clone(), amount: offer.amount },
        Callback::OnRefundComplete {
            refund_id: None,
            proposer: offer.proposer.clone(),
            amount: offer.amount,
            token: token.clone(),
        },
    )
}

/// Refunds of every offer in `offers`, in order.
pub fn refund_all(token: &String, offers: &Vec<(String, CounterOffer)>) -> (cs: Vec<Chain>)
    ensures
        are_refund_chains(cs@, *token, offers@),
{
    let mut cs: Vec<Chain> = Vec::new();
    let mut i: usize = 0;
    while i < offers.len()
        invariant
            i <= offers.len(),
            cs@.len() == i,
            forall|j: int| 0 <= j < i ==> is_refund_chain(#[trigger] cs@[j], *token, offers@[j].1),
        decreases offers.len() - i,
    {
        cs.push(refund_counter_offer(token, &offers[i].1));
        i = i + 1;
    }
    cs
}

} // verus!
