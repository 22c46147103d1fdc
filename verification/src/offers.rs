//! Lenders' offers against the owner's liquidity request: counter offers,
//! direct acceptance, acceptance of a counter offer by the owner, and
//! cancellation of offers and of the request.

use vstd::prelude::*;
use crate::collections::{find_key, has_key, lookup, remove_by_key, remove_key};
use crate::env::Env;
use crate::error::{AcceptError, VaultError};
use crate::promise::{Callback, Chain};
use crate::types::{
    AcceptedOffer, ApplyCounterOfferMessage, CounterOffer, LiquidityRequest, APPLY_COUNTER_OFFER_ACTION,
    MAX_COUNTER_OFFERS,
};
use crate::vault::{are_recorded_refund_chains, is_refund_chain, put_ids, recorded_refunds, refund_counter_offer, Vault};

verus! {

/// The largest offered amount, or zero.
pub open spec fn best_amount(s: Seq<(String, CounterOffer)>) -> u128
    decreases s.len(),
{
    if s.len() == 0 {
        0
    } else {
        let b = best_amount(s.drop_last());
        if s.last().1.amount > b {
            s.last().1.amount
        } else {
            b
        }
    }
}

/// The position of the first smallest offer, or -1.
pub open spec fn worst_index(s: Seq<(String, CounterOffer)>) -> int
    decreases s.len(),
{
    if s.len() == 0 {
        -1
    } else {
        let w = worst_index(s.drop_last());
        if w < 0 || s.last().1.amount < s[w].1.amount {
            s.len() - 1
        } else {
            w
        }
    }
}

/// The best amount bounds every offer, and the worst index holds a smallest one.
pub proof fn lemma_best_worst(s: Seq<(String, CounterOffer)>)
    ensures
        forall|i: int| 0 <= i < s.len() ==> s[i].1.amount <= best_amount(s),
        s.len() == 0 ==> worst_index(s) == -1,
        s.len() > 0 ==> 0 <= worst_index(s) < s.len(),
        forall|i: int| 0 <= i < s.len() ==> s[worst_index(s)].1.amount <= #[trigger] s[i].1.amount,
    decreases s.len(),
{
    if s.len() > 0 {
        let t = s.drop_last();
        lemma_best_worst(t);
        assert forall|i: int| 0 <= i < s.len() implies s[i].1.amount <= best_amount(s) by {
            if i < t.len() {
                assert(s[i] == t[i]);
            }
        }
        if worst_index(t) >= 0 {
            assert(s[worst_index(t)] == t[worst_index(t)]);
        }
        assert forall|i: int| 0 <= i < s.len() implies s[worst_index(s)].1.amount <= #[trigger] s[i].1.amount by {
            if i < t.len() {
                assert(s[i] == t[i]);
            }
        }
    }
}

/// The terms of the message equal those of the request.
pub open spec fn terms_match(msg: ApplyCounterOfferMessage, r: LiquidityRequest) -> bool {
    &&& msg.token@ == r.token@
    &&& msg.amount == r.amount
    &&& msg.interest == r.interest
    &&& msg.collateral == r.collateral
    &&& msg.duration == r.duration
}

/// The message asks to apply funds to the request.
pub open spec fn is_apply(msg: Option<ApplyCounterOfferMessage>) -> bool {
    msg matches Some(m) && m.action@ == APPLY_COUNTER_OFFER_ACTION@
}

/// What `ft_on_transfer` answers: the tokens to hand back, and the promises it started.
#[derive(PartialEq, Eq, Clone, Debug)]
pub struct FtOutcome {
    pub refund: u128,
    pub promises: Vec<Chain>,
}

/// What `cancel_counter_offer` removed, and the refund it started.
#[derive(PartialEq, Eq, Clone, Debug)]
pub struct CancelledOffer {
    pub offer: CounterOffer,
    pub request: LiquidityRequest,
    pub refund: Chain,
}

impl Vault {
    /// Every counter offer is positive and below the requested amount, and
    /// there are at most `MAX_COUNTER_OFFERS` of them.
    pub open spec fn offers_valid(&self) -> bool {
        self.counter_offers matches Some(o) ==> {
            &&& self.liquidity_request is Some
            &&& o.len() <= MAX_COUNTER_OFFERS
            &&& forall|i: int|
                0 <= i < o@.len() ==> 0 < #[trigger] o@[i].1.amount < self.liquidity_request.unwrap().amount
        }
    }

    /// The current counter offers, or none.
    pub open spec fn offers_seq(&self) -> Seq<(String, CounterOffer)> {
        match self.counter_offers {
            Some(o) => o@,
            None => seq![],
        }
    }

    /// Why a counter offer is refused, if it is.
    pub open spec fn add_offer_check(
        &self,
        proposer: String,
        offered: u128,
        msg: ApplyCounterOfferMessage,
        token_contract: String,
    ) -> Option<VaultError> {
        let r = self.liquidity_request.unwrap();
        let o = self.offers_seq();
        if self.liquidity_request is None {
            Some(VaultError::NoLiquidityRequest)
        } else if self.accepted_offer is Some {
            Some(VaultError::AlreadyAccepted)
        } else if token_contract@ != r.token@ {
            Some(VaultError::TokenMismatch)
        } else if !terms_match(msg, r) {
            Some(VaultError::MessageMismatch)
        } else if offered == 0 {
            Some(VaultError::ZeroOffer)
        } else if offered >= r.amount {
            Some(VaultError::OfferNotBelowRequest)
        } else if has_key(o, proposer@) {
            Some(VaultError::DuplicateProposer)
        } else if offered <= best_amount(o) {
            Some(VaultError::OfferNotBest)
        } else {
            None
        }
    }

    /// A new counter offer evicts the smallest one: the list is full.
    pub open spec fn add_evicts(&self) -> bool {
        self.offers_seq().len() >= MAX_COUNTER_OFFERS
    }

    /// The first smallest counter offer, which a new offer evicts from a full list.
    pub open spec fn evicted_offer(&self) -> CounterOffer {
        self.offers_seq()[worst_index(self.offers_seq())].1
    }

    /// The counter offers after `proposer` offers `offered` at `now`: the new
    /// offer is appended, and from a full list the first smallest one leaves.
    pub open spec fn offers_after_add(&self, proposer: String, offered: u128, now: u64) -> Seq<(String, CounterOffer)> {
        let o = self.offers_seq();
        let added = o.push((proposer, CounterOffer { proposer, amount: offered, timestamp: now }));
        if self.add_evicts() {
            remove_key(added, o[worst_index(o)].0@)
        } else {
            added
        }
    }

    /// Tokens of exactly the requested amount fill the request directly.
    pub open spec fn direct_accept(&self, amount: u128) -> bool {
        self.liquidity_request matches Some(req) && req.amount == amount
    }

    /// The state after a lender's direct acceptance at `now`.
    pub open spec fn after_accept_request(self, lender: String, now: u64) -> Vault {
        Vault {
            accepted_offer: Some(AcceptedOffer { lender, accepted_at: now }),
            counter_offers: None,
            ..self
        }
    }

    /// Records a lender's counter offer of `offered` tokens (sent through
    /// `token_contract`) against the open request. The offer must match the
    /// request's terms, be positive, below the requested amount and above every
    /// other offer. When the list is full the smallest offer is evicted and refunded.
    pub fn try_add_counter_offer(
        &mut self,
        proposer: String,
        offered: u128,
        msg: &ApplyCounterOfferMessage,
        token_contract: &String,
        env: &Env,
    ) -> (r: Result<Option<Chain>, VaultError>)
        requires
            old(self).wf(),
        ensures
            old(self).add_offer_check(proposer, offered, *msg, *token_contract) matches Some(e) ==> r
                == Err::<Option<Chain>, VaultError>(e) && *final(self) == *old(self),
            old(self).add_offer_check(proposer, offered, *msg, *token_contract) is None ==> ({
                &&& final(self).counter_offers matches Some(v)
                    && v@ == old(self).offers_after_add(proposer, offered, env.block_timestamp)
                &&& *final(self) == (Vault { counter_offers: final(self).counter_offers, ..*old(self) })
                &&& old(self).add_evicts() ==> (r matches Ok(Some(c))
                    && is_refund_chain(c, *token_contract, old(self).evicted_offer()))
                &&& !old(self).add_evicts() ==> r == Ok::<Option<Chain>, VaultError>(None)
            }),
            final(self).wf(),
            old(self).offers_valid() ==> final(self).offers_valid(),
    {
        let ghost old_self = *self;
        let (r_token, r_amount, r_interest, r_collateral, r_duration) = match &self.liquidity_request {
            Some(req) => (req.token.clone(), req.amount, req.interest, req.collateral, req.duration),
            None => {
                return Err(VaultError::NoLiquidityRequest);
            },
        };
        if self.accepted_offer.is_some() {
            return Err(VaultError::AlreadyAccepted);
        }
        if *token_contract != r_token {
            return Err(VaultError::TokenMismatch);
        }
        if !(msg.token == r_token && msg.amount == r_amount && msg.interest == r_interest
            && msg.collateral == r_collateral && msg.duration == r_duration) {
            return Err(VaultError::MessageMismatch);
        }
        if offered == 0 {
            return Err(VaultError::ZeroOffer);
        }
        if offered >= r_amount {
            return Err(VaultError::OfferNotBelowRequest);
        }
        let ghost o = old_self.offers_seq();
        let empty: Vec<(String, CounterOffer)> = Vec::new();
        let (best, worst, count) = match &self.counter_offers {
            Some(offers) => {
                if find_key(offers, &proposer).is_some() {
                    return Err(VaultError::DuplicateProposer);
                }
                let (b, w) = best_and_worst(offers);
                (b, w, offers.len())
            },
            None => (0u128, None, 0usize),
        };
        proof {
            if old_self.counter_offers is None {
                assert(o =~= seq![]);
            }
        }
        if offered <= best {
            return Err(VaultError::OfferNotBest);
        }
        let mut offers_map = match self.counter_offers.take() {
            Some(v) => v,
            None => empty,
        };
        assert(offers_map@ == o);
        let evict = count as u64 >= MAX_COUNTER_OFFERS;
        let offer = CounterOffer { proposer: proposer.clone(), amount: offered, timestamp: env.block_timestamp };
        offers_map.push((proposer, offer));
        let ghost added = offers_map@;
        proof {
            assert forall|a: int, b: int| 0 <= a < b < added.len() implies added[a].0@ != added[b].0@ by {
                if b == o.len() {
                    assert(!has_key(o, added[b].0@));
                    assert(o[a].0@ == added[a].0@);
                }
            }
            lemma_best_worst(o);
        }
        let mut refund: Option<Chain> = None;
        if evict {
            match worst {
                Some(w) => {
                    let key = offers_map[w].0.clone();
                    let evicted = offers_map[w].1.duplicate();
                    proof {
                        crate::collections::lemma_remove_key(added, key@);
                    }
                    remove_by_key(&mut offers_map, &key);
                    refund = Some(refund_counter_offer(token_contract, &evicted));
                },
                None => {},
            }
        }
        proof {
            if old_self.offers_valid() {
                let req = old_self.liquidity_request.unwrap();
                let kept = offers_map@;
                if evict {
                    crate::collections::lemma_remove_key(added, o[worst_index(o)].0@);
                    assert forall|i: int| 0 <= i < kept.len() implies 0 < #[trigger] kept[i].1.amount < req.amount by {
                        let k = kept[i].0@;
                        assert(has_key(kept, k));
                        crate::collections::lemma_key_index(kept, k);
                        assert(lookup(kept, k) == lookup(added, k));
                        crate::collections::lemma_key_index(added, k);
                    }
                } else {
                    assert forall|i: int| 0 <= i < kept.len() implies 0 < #[trigger] kept[i].1.amount < req.amount by {
                        if i < o.len() {
                            assert(kept[i] == o[i]);
                        }
                    }
                }
            }
        }
        self.counter_offers = Some(offers_map);
        Ok(refund)
    }

    /// Why a lender's direct acceptance of the request is refused, if it is.
    pub open spec fn accept_request_check(
        &self,
        lender: String,
        amount: u128,
        msg: ApplyCounterOfferMessage,
        token_contract: String,
    ) -> Option<AcceptError> {
        let r = self.liquidity_request.unwrap();
        if self.liquidity_request is None {
            Some(AcceptError::NoLiquidityRequest)
        } else if self.accepted_offer is Some {
            Some(AcceptError::AlreadyFulfilled)
        } else if lender@ == self.owner@ {
            Some(AcceptError::OwnerCannotFulfill)
        } else if token_contract@ != r.token@ || msg.token@ != r.token@ {
            Some(AcceptError::TokenMismatch)
        } else if msg.amount != r.amount || amount != r.amount {
            Some(AcceptError::AmountMismatch)
        } else if msg.interest != r.interest {
            Some(AcceptError::InterestMismatch)
        } else if msg.collateral != r.collateral {
            Some(AcceptError::CollateralMismatch)
        } else if msg.duration != r.duration {
            Some(AcceptError::DurationMismatch)
        } else {
            None
        }
    }

    /// A lender fills the request with exactly the requested amount on its
    /// terms: the lender becomes the accepted offer and every counter offer is
    /// refunded and cleared.
    pub fn try_accept_liquidity_request(
        &mut self,
        lender: String,
        amount: u128,
        msg: &ApplyCounterOfferMessage,
        token_contract: &String,
        env: &Env,
    ) -> (r: Result<Vec<Chain>, AcceptError>)
        requires
            old(self).wf(),
            old(self).accept_request_check(lender, amount, *msg, *token_contract) is None ==> old(self).refund_nonce + old(self).offers_seq().len()
                <= u64::MAX,
        ensures
            final(self).wf(),
            old(self).accept_request_check(lender, amount, *msg, *token_contract) matches Some(e) ==> r
                == Err::<Vec<Chain>, AcceptError>(e) && *final(self) == *old(self),
            old(self).accept_request_check(lender, amount, *msg, *token_contract) is None ==> ({
                let token = old(self).liquidity_request.unwrap().token;
                let ks = recorded_refunds(old(self).offers_seq(), token, old(self).refund_nonce, env.epoch_height);
                &&& *final(self) == (Vault {
                    refund_list: final(self).refund_list,
                    refund_nonce: final(self).refund_nonce,
                    ..old(self).after_accept_request(lender, env.block_timestamp)
                })
                &&& final(self).refund_list@ == put_ids(old(self).refund_list@, ks)
                &&& final(self).refund_nonce == old(self).refund_nonce + ks.len()
                &&& r matches Ok(cs) && are_recorded_refund_chains(cs@, token, ks)
            }),
    {
        let token = match &self.liquidity_request {
            Some(req) => {
                if self.accepted_offer.is_some() {
                    return Err(AcceptError::AlreadyFulfilled);
                }
                if lender == self.owner {
                    return Err(AcceptError::OwnerCannotFulfill);
                }
                if *token_contract != req.token || msg.token != req.token {
                    return Err(AcceptError::TokenMismatch);
                }
                if msg.amount != req.amount || amount != req.amount {
                    return Err(AcceptError::AmountMismatch);
                }
                if msg.interest != req.interest {
                    return Err(AcceptError::InterestMismatch);
                }
                if msg.collateral != req.collateral {
                    return Err(AcceptError::CollateralMismatch);
                }
                if msg.duration != req.duration {
                    return Err(AcceptError::DurationMismatch);
                }
                req.token.clone()
            },
            None => {
                return Err(AcceptError::NoLiquidityRequest);
            },
        };
        self.accepted_offer = Some(AcceptedOffer { lender, accepted_at: env.block_timestamp });
        let refunds = self.refund_all_counter_offers(&token, env.epoch_height);
        Ok(refunds)
    }

    /// Why the owner's acceptance of a counter offer is refused, if it is.
    pub open spec fn accept_offer_check(&self, env: Env, proposer: String, amount: u128) -> Option<VaultError> {
        if env.attached_deposit != 1 {
            Some(VaultError::RequiresOneYocto)
        } else if env.predecessor@ != self.owner@ {
            Some(VaultError::NotOwner)
        } else if self.liquidity_request is None {
            Some(VaultError::NoLiquidityRequest)
        } else if self.accepted_offer is Some {
            Some(VaultError::AlreadyAccepted)
        } else if self.counter_offers is None {
            Some(VaultError::NoCounterOffers)
        } else if !has_key(self.offers_seq(), proposer@) {
            Some(VaultError::CounterOfferNotFound)
        } else if lookup(self.offers_seq(), proposer@).unwrap().amount != amount {
            Some(VaultError::OfferAmountMismatch)
        } else {
            None
        }
    }

    /// The owner accepts the counter offer of `proposer_id`, stating its amount.
    /// The lender is recorded, the request's principal becomes the accepted
    /// amount, every other offer is recorded in the refund list and refunded,
    /// and the offers are cleared. A stated amount that differs from the stored
    /// offer is refused and changes nothing.
    pub fn accept_counter_offer(&mut self, proposer_id: &String, amount: u128, env: &Env) -> (r: Result<Vec<Chain>, VaultError>)
        requires
            old(self).wf(),
            old(self).accept_offer_check(*env, *proposer_id, amount) is None ==> old(self).refund_nonce + old(self).offers_seq().len()
                <= u64::MAX,
        ensures
            old(self).accept_offer_check(*env, *proposer_id, amount) matches Some(e) ==> r == Err::<Vec<Chain>, VaultError>(e)
                && *final(self) == *old(self),
            old(self).accept_offer_check(*env, *proposer_id, amount) is None ==> ({
                let rest = remove_key(old(self).offers_seq(), proposer_id@);
                let req = old(self).liquidity_request.unwrap();
                let ks = recorded_refunds(rest, req.token, old(self).refund_nonce, env.epoch_height);
                &&& *final(self) == (Vault {
                    accepted_offer: Some(AcceptedOffer { lender: *proposer_id, accepted_at: env.block_timestamp }),
                    liquidity_request: Some(LiquidityRequest { amount, ..req }),
                    counter_offers: None,
                    refund_list: final(self).refund_list,
                    refund_nonce: final(self).refund_nonce,
                    ..*old(self)
                })
                &&& final(self).refund_list@ == put_ids(old(self).refund_list@, ks)
                &&& final(self).refund_nonce == old(self).refund_nonce + ks.len()
                &&& r matches Ok(cs) && are_recorded_refund_chains(cs@, req.token, ks)
            }),
            final(self).wf(),
    {
        if env.attached_deposit != 1 {
            return Err(VaultError::RequiresOneYocto);
        }
        if env.predecessor != self.owner {
            return Err(VaultError::NotOwner);
        }
        let token = match &self.liquidity_request {
            Some(req) => req.token.clone(),
            None => {
                return Err(VaultError::NoLiquidityRequest);
            },
        };
        if self.accepted_offer.is_some() {
            return Err(VaultError::AlreadyAccepted);
        }
        match &self.counter_offers {
            Some(offers) => {
                match find_key(offers, proposer_id) {
                    Some(i) => {
                        proof {
                            crate::collections::lemma_key_index(offers@, proposer_id@);
                        }
                        if offers[i].1.amount != amount {
                            return Err(VaultError::OfferAmountMismatch);
                        }
                    },
                    None => {
                        return Err(VaultError::CounterOfferNotFound);
                    },
                }
            },
            None => {
                return Err(VaultError::NoCounterOffers);
            },
        }
        let ghost o = self.offers_seq();
        let mut offers_map = match self.counter_offers.take() {
            Some(v) => v,
            None => Vec::new(),
        };
        proof {
            crate::collections::lemma_remove_key(o, proposer_id@);
        }
        let _ = remove_by_key(&mut offers_map, proposer_id);
        self.accepted_offer = Some(AcceptedOffer { lender: proposer_id.clone(), accepted_at: env.block_timestamp });
        match &mut self.liquidity_request {
            Some(req) => {
                req.amount = amount;
            },
            None => {},
        }
        let refunds = self.record_refunds(&token, &offers_map, env.epoch_height);
        Ok(refunds)
    }

    /// The refusal of an acceptance whose stated amount differs from the
    /// counter offer.
    pub fn on_accept_counter_offer_mismatch_fail(&self) -> (r: Result<(), VaultError>)
        ensures
            r == Err::<(), VaultError>(VaultError::OfferAmountMismatch),
    {
        Err(VaultError::OfferAmountMismatch)
    }

    /// Why a lender's cancellation is refused, if it is.
    pub open spec fn cancel_offer_check(&self, env: Env) -> Option<VaultError> {
        if env.attached_deposit != 1 {
            Some(VaultError::RequiresOneYocto)
        } else if self.liquidity_request is None {
            Some(VaultError::NoLiquidityRequestOpen)
        } else if self.accepted_offer is Some {
            Some(VaultError::CannotCancelAfterAccepted)
        } else if !self.lock_free(env.block_timestamp) {
            Some(VaultError::Busy(self.processing_state))
        } else if self.counter_offers is None {
            Some(VaultError::NoCounterOffersFound)
        } else if !has_key(self.offers_seq(), env.predecessor@) {
            Some(VaultError::NoActiveOfferToCancel)
        } else {
            None
        }
    }

    /// The caller withdraws their counter offer; it is refunded.
    pub fn cancel_counter_offer(&mut self, env: &Env) -> (r: Result<CancelledOffer, VaultError>)
        requires
            old(self).wf(),
        ensures
            old(self).cancel_offer_check(*env) matches Some(e) ==> r == Err::<CancelledOffer, VaultError>(e)
                && *final(self) == *old(self),
            old(self).cancel_offer_check(*env) is None ==> ({
                let o = old(self).offers_seq();
                let rest = remove_key(o, env.predecessor@);
                let offer = lookup(o, env.predecessor@).unwrap();
                let cleared = old(self).idle_cleared();
                &&& *final(self) == (Vault { counter_offers: final(self).counter_offers, ..cleared })
                &&& if rest.len() == 0 {
                    final(self).counter_offers is None
                } else {
                    final(self).counter_offers matches Some(v) && v@ == rest
                }
                &&& r matches Ok(c) && c.offer == offer && c.request == old(self).liquidity_request.unwrap()
                    && is_refund_chain(c.refund, old(self).liquidity_request.unwrap().token, offer)
            }),
            final(self).wf(),
    {
        if env.attached_deposit != 1 {
            return Err(VaultError::RequiresOneYocto);
        }
        let request = match &self.liquidity_request {
            Some(req) => req.duplicate(),
            None => {
                return Err(VaultError::NoLiquidityRequestOpen);
            },
        };
        if self.accepted_offer.is_some() {
            return Err(VaultError::CannotCancelAfterAccepted);
        }
        if !self.lock_is_free(env.block_timestamp) {
            return Err(VaultError::Busy(self.processing_state));
        }
        match &self.counter_offers {
            Some(offers) => {
                if find_key(offers, &env.predecessor).is_none() {
                    return Err(VaultError::NoActiveOfferToCancel);
                }
            },
            None => {
                return Err(VaultError::NoCounterOffersFound);
            },
        }
        let _ = self.ensure_processing_idle(env.block_timestamp);
        let ghost o = self.offers_seq();
        let mut offers = match self.counter_offers.take() {
            Some(v) => v,
            None => Vec::new(),
        };
        proof {
            crate::collections::lemma_remove_key(o, env.predecessor@);
        }
        let offer = match remove_by_key(&mut offers, &env.predecessor) {
            Some(of) => of,
            None => CounterOffer { proposer: String::new(), amount: 0, timestamp: 0 },
        };
        if offers.len() == 0 {
            self.counter_offers = None;
        } else {
            self.counter_offers = Some(offers);
        }
        let refund = refund_counter_offer(&request.token, &offer);
        Ok(CancelledOffer { offer, request, refund })
    }

    /// Why the owner's cancellation of the request is refused, if it is.
    pub open spec fn cancel_request_check(&self, env: Env) -> Option<VaultError> {
        if env.attached_deposit != 1 {
            Some(VaultError::RequiresOneYocto)
        } else if env.predecessor@ != self.owner@ {
            Some(VaultError::NotOwner)
        } else if self.liquidity_request is None {
            Some(VaultError::NoActiveLiquidityRequest)
        } else if self.accepted_offer is Some {
            Some(VaultError::CannotCancelRequestAfterAccepted)
        } else if !self.lock_free(env.block_timestamp) {
            Some(VaultError::Busy(self.processing_state))
        } else {
            None
        }
    }

    /// The owner withdraws the open request; every counter offer is refunded
    /// and cleared.
    pub fn cancel_liquidity_request(&mut self, env: &Env) -> (r: Result<Vec<Chain>, VaultError>)
        requires
            old(self).wf(),
            old(self).cancel_request_check(*env) is None ==> old(self).refund_nonce + old(self).offers_seq().len()
                <= u64::MAX,
        ensures
            final(self).wf(),
            old(self).cancel_request_check(*env) matches Some(e) ==> r == Err::<Vec<Chain>, VaultError>(e)
                && *final(self) == *old(self),
            old(self).cancel_request_check(*env) is None ==> ({
                let token = old(self).liquidity_request.unwrap().token;
                let ks = recorded_refunds(old(self).offers_seq(), token, old(self).refund_nonce, env.epoch_height);
                &&& *final(self) == (Vault {
                    liquidity_request: None,
                    counter_offers: None,
                    refund_list: final(self).refund_list,
                    refund_nonce: final(self).refund_nonce,
                    ..old(self).idle_cleared()
                })
                &&& final(self).refund_list@ == put_ids(old(self).refund_list@, ks)
                &&& final(self).refund_nonce == old(self).refund_nonce + ks.len()
                &&& r matches Ok(cs) && are_recorded_refund_chains(cs@, token, ks)
            }),
    {
        if env.attached_deposit != 1 {
            return Err(VaultError::RequiresOneYocto);
        }
        if env.predecessor != self.owner {
            return Err(VaultError::NotOwner);
        }
        let token = match &self.liquidity_request {
            Some(req) => req.token.clone(),
            None => {
                return Err(VaultError::NoActiveLiquidityRequest);
            },
        };
        if self.accepted_offer.is_some() {
            return Err(VaultError::CannotCancelRequestAfterAccepted);
        }
        match self.ensure_processing_idle(env.block_timestamp) {
            Ok(()) => {},
            Err(e) => {
                return Err(e);
            },
        }
        let refunds = self.refund_all_counter_offers(&token, env.epoch_height);
        self.liquidity_request = None;
        Ok(refunds)
    }

    /// Receives tokens a lender sent with `msg` (`None` when it did not parse).
    /// An apply message for exactly the requested amount accepts the request;
    /// a smaller amount becomes a counter offer. Unknown messages, a missing
    /// request, or a refused acceptance hand all tokens back.
    pub fn ft_on_transfer(&mut self, sender_id: String, amount: u128, msg: Option<ApplyCounterOfferMessage>, env: &Env) -> (r: Result<FtOutcome, VaultError>)
        requires
            old(self).wf(),
            is_apply(msg) && old(self).direct_accept(amount) ==> old(self).refund_nonce + old(self).offers_seq().len()
                <= u64::MAX,
        ensures
            final(self).wf(),
            r is Err ==> *final(self) == *old(self),
            r is Ok ==> (r->Ok_0.refund == 0 || r->Ok_0.refund == amount),
            !is_apply(msg) ==> ({
                &&& r matches Ok(out) && out.refund == amount && out.promises@.len() == 0
                &&& *final(self) == *old(self)
            }),
            is_apply(msg) && old(self).direct_accept(amount) ==> ({
                let check = old(self).accept_request_check(sender_id, amount, msg.unwrap(), env.predecessor);
                &&& check is None ==> ({
                    let token = old(self).liquidity_request.unwrap().token;
                    let ks = recorded_refunds(old(self).offers_seq(), token, old(self).refund_nonce, env.epoch_height);
                    &&& *final(self) == (Vault {
                        refund_list: final(self).refund_list,
                        refund_nonce: final(self).refund_nonce,
                        ..old(self).after_accept_request(sender_id, env.block_timestamp)
                    })
                    &&& final(self).refund_list@ == put_ids(old(self).refund_list@, ks)
                    &&& final(self).refund_nonce == old(self).refund_nonce + ks.len()
                    &&& r matches Ok(out) && out.refund == 0 && are_recorded_refund_chains(out.promises@, token, ks)
                })
                &&& check is Some ==> ({
                    &&& r matches Ok(out) && out.refund == amount && out.promises@.len() == 0
                    &&& *final(self) == *old(self)
                })
            }),
            is_apply(msg) && !old(self).direct_accept(amount) ==> ({
                let check = old(self).add_offer_check(sender_id, amount, msg.unwrap(), env.predecessor);
                &&& check is None ==> ({
                    &&& final(self).counter_offers matches Some(v)
                        && v@ == old(self).offers_after_add(sender_id, amount, env.block_timestamp)
                    &&& *final(self) == (Vault { counter_offers: final(self).counter_offers, ..*old(self) })
                    &&& r matches Ok(out) && out.refund == 0
                    &&& old(self).add_evicts() ==> (r->Ok_0.promises@.len() == 1 && is_refund_chain(
                        r->Ok_0.promises@[0],
                        env.predecessor,
                        old(self).evicted_offer(),
                    ))
                    &&& !old(self).add_evicts() ==> r->Ok_0.promises@.len() == 0
                })
                &&& check == Some(VaultError::NoLiquidityRequest) ==> ({
                    &&& r matches Ok(out) && out.refund == amount && out.promises@.len() == 0
                    &&& *final(self) == *old(self)
                })
                &&& (check matches Some(e) && e != VaultError::NoLiquidityRequest) ==> r == Err::<FtOutcome, VaultError>(
                    check.unwrap(),
                )
            }),
    {
        let parsed = match msg {
            Some(m) => m,
            None => {
                return Ok(FtOutcome { refund: amount, promises: Vec::new() });
            },
        };
        let apply = String::from_str(APPLY_COUNTER_OFFER_ACTION);
        if parsed.action != apply {
            return Ok(FtOutcome { refund: amount, promises: Vec::new() });
        }
        let is_direct_accept = match &self.liquidity_request {
            Some(req) => req.amount == amount,
            None => false,
        };
        if is_direct_accept {
            match self.try_accept_liquidity_request(sender_id, amount, &parsed, &env.predecessor, env) {
                Ok(refunds) => Ok(FtOutcome { refund: 0, promises: refunds }),
                Err(_) => Ok(FtOutcome { refund: amount, promises: Vec::new() }),
            }
        } else {
            match self.try_add_counter_offer(sender_id, amount, &parsed, &env.predecessor, env) {
                Ok(evicted) => {
                    let mut promises: Vec<Chain> = Vec::new();
                    match evicted {
                        Some(c) => promises.push(c),
                        None => {},
                    }
                    Ok(FtOutcome { refund: 0, promises })
                },
                Err(VaultError::NoLiquidityRequest) => Ok(FtOutcome { refund: amount, promises: Vec::new() }),
                Err(e) => Err(e),
            }
        }
    }
}

/// The largest offered amount and the position of the first smallest offer.
pub fn best_and_worst(offers: &Vec<(String, CounterOffer)>) -> (r: (u128, Option<usize>))
    ensures
        r.0 == best_amount(offers@),
        offers@.len() == 0 ==> r.1 is None,
        offers@.len() > 0 ==> (r.1 matches Some(w) && w == worst_index(offers@)),
{
    let mut best: u128 = 0;
    let mut worst: Option<usize> = None;
    let mut i: usize = 0;
    while i < offers.len()
        invariant
            i <= offers@.len(),
            best == best_amount(offers@.subrange(0, i as int)),
            i == 0 ==> worst is None,
            i > 0 ==> (worst matches Some(w) && w == worst_index(offers@.subrange(0, i as int))),
        decreases offers@.len() - i,
    {
        let ghost pre = offers@.subrange(0, i as int);
        proof {
            assert(offers@.subrange(0, i + 1).drop_last() =~= pre);
            if i > 0 {
                lemma_best_worst(pre);
            }
        }
        let amt = offers[i].1.amount;
        if amt > best {
            best = amt;
        }
        match worst {
            None => {
                worst = Some(i);
            },
            Some(w) => {
                if amt < offers[w].1.amount {
                    worst = Some(i);
                }
            },
        }
        i = i + 1;
    }
    proof {
        assert(offers@.subrange(0, i as int) =~= offers@);
    }
    (best, worst)
}

} // verus!
