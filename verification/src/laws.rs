//! Properties of the vault that span several operations.

use vstd::prelude::*;
use crate::collections::{
    has_id, has_key, has_view, id_index, lemma_id_index, lemma_remove_id, lookup, lookup_id, remove_id,
    remove_key, unique_ids, unique_keys, unique_views,
};
use crate::refunds::{refund_expired, remove_ids, retry_selected, unexpired};
use crate::staking_pool::{
    account_of, after_deposit, after_unstake, after_withdraw, Account, UNSTAKE_DELAY_EPOCHS,
};
use crate::env::{CallResult, Env};
use crate::liquidation::{
    after_unstakes, decoded_stakes, lemma_after_unstakes, lemma_maturing_sum_nonneg, lemma_remove_views_all,
    matured_keys, maturing_sum, min_int,
    recorded, remove_views_all, staked_of, unstake_plan, zero_stake_ids, is_liquidation_query,
};
use crate::order::sorted_strictly;
use crate::loan::zero_staked;
use crate::error::VaultError;
use crate::promise::{Call, Callback, Chain};
use crate::offers::{best_amount, lemma_best_worst, worst_index};
use crate::types::{
    ApplyCounterOfferMessage, CounterOffer, ProcessingState, RefundEntry, UnstakeEntry, LOCK_TIMEOUT,
    MAX_LOAN_DURATION,
};
use crate::vault::{elapsed, put_ids, recorded_refunds, Vault};

verus! {

/// The processing lock makes workflows mutually exclusive: while one holds a
/// fresh lock, every call that would take it (requesting liquidity,
/// repaying, delegating, undelegating, claiming unstaked NEAR, starting or
/// resuming liquidation, taking over the vault) and every call that must
/// find the vault idle (cancelling a request or a counter offer, listing or
/// unlisting for takeover) is refused.
pub proof fn lemma_fresh_lock_excludes_workflows(
    v: Vault,
    env: Env,
    validator: String,
    amount: u128,
    collateral: u128,
    duration: u64,
)
    requires
        !v.lock_free(env.block_timestamp),
    ensures
        v.request_check(env, amount, collateral, duration) is Some,
        v.repay_check(env) is Some,
        v.delegate_check(env, validator, amount) is Some,
        v.undelegate_check(env, validator, amount) is Some,
        v.claim_check(env, validator) is Some,
        v.process_claims_check(env) is Some,
        v.claim_vault_check(env) is Some,
        v.cancel_request_check(env) is Some,
        v.cancel_offer_check(env) is Some,
        v.list_check(env) is Some,
        v.cancel_takeover_check(env) is Some,
{
    assert(v.liquidation_started().processing_state == v.processing_state);
    assert(v.liquidation_started().processing_since == v.processing_since);
}

/// A lock held for at least `LOCK_TIMEOUT` is stale: it no longer blocks anyone.
pub proof fn lemma_stale_lock_is_free(v: Vault, now: u64)
    requires
        elapsed(now, v.processing_since) >= LOCK_TIMEOUT,
    ensures
        v.lock_free(now),
{
}

/// An accepted counter offer becomes the best: after it is added, no other
/// offer is as large, and the proposer's offer is the one recorded.
#[verifier::spinoff_prover]
pub proof fn lemma_added_offer_is_best(
    v: Vault,
    proposer: String,
    offered: u128,
    msg: ApplyCounterOfferMessage,
    token_contract: String,
    now: u64,
)
    requires
        v.wf(),
        v.add_offer_check(proposer, offered, msg, token_contract) is None,
    ensures
        ({
            let after = v.offers_after_add(proposer, offered, now);
            &&& lookup(after, proposer@) == Some(CounterOffer { proposer, amount: offered, timestamp: now })
            &&& forall|i: int| 0 <= i < after.len() && after[i].0@ != proposer@ ==> #[trigger] after[i].1.amount < offered
            &&& best_amount(after) == offered
        }),
{
    let o = v.offers_seq();
    let offer = CounterOffer { proposer, amount: offered, timestamp: now };
    let added = o.push((proposer, offer));
    lemma_best_worst(o);
    assert(!has_key(o, proposer@));
    if v.counter_offers is None {
        assert(o =~= seq![]);
    }
    assert(crate::collections::unique_keys(o));
    assert(crate::collections::unique_keys(added)) by {
        assert forall|a: int, b: int| 0 <= a < b < added.len() implies added[a].0@ != added[b].0@ by {
            if b == o.len() {
                assert(o[a] == added[a]);
            }
        }
    }
    assert(has_key(added, proposer@)) by {
        assert(added[o.len() as int].0@ == proposer@);
    }
    crate::collections::lemma_key_index(added, proposer@);
    assert forall|i: int| 0 <= i < added.len() && added[i].0@ != proposer@ implies #[trigger] added[i].1.amount
        < offered by {
        if i < o.len() {
            assert(added[i] == o[i]);
        }
    }
    let after = v.offers_after_add(proposer, offered, now);
    if v.add_evicts() {
        let k = o[worst_index(o)].0@;
        assert(k != proposer@) by {
            assert(o[worst_index(o)].0@ == k);
        }
        crate::collections::lemma_remove_key(added, k);
        assert(after == remove_key(added, k));
        assert(lookup(after, proposer@) == lookup(added, proposer@));
        assert forall|i: int| 0 <= i < after.len() && after[i].0@ != proposer@ implies #[trigger] after[i].1.amount
            < offered by {
            let x = after[i].0@;
            assert(has_key(after, x));
            crate::collections::lemma_key_index(after, x);
            assert(x != k);
            assert(lookup(after, x) == lookup(added, x));
            crate::collections::lemma_key_index(after, x);
            crate::collections::lemma_key_index(added, x);
        }
        assert(has_key(after, proposer@));
        crate::collections::lemma_key_index(after, proposer@);
        lemma_best_is_offered(after, proposer@, offered);
    } else {
        lemma_best_is_offered(after, proposer@, offered);
    }
}

/// If the offer of `p` is `offered` and every other offer is smaller, the best amount is `offered`.
proof fn lemma_best_is_offered(s: Seq<(String, CounterOffer)>, p: Seq<char>, offered: u128)
    requires
        crate::collections::unique_keys(s),
        has_key(s, p),
        lookup(s, p) matches Some(x) && x.amount == offered,
        forall|i: int| 0 <= i < s.len() && s[i].0@ != p ==> #[trigger] s[i].1.amount < offered,
    ensures
        best_amount(s) == offered,
{
    lemma_best_worst(s);
    crate::collections::lemma_key_index(s, p);
    lemma_best_is_attained(s);
}

/// The best amount of a non-empty list is one of its offers; of an empty one, zero.
proof fn lemma_best_is_attained(s: Seq<(String, CounterOffer)>)
    ensures
        s.len() == 0 ==> best_amount(s) == 0,
        s.len() > 0 ==> exists|i: int| 0 <= i < s.len() && s[i].1.amount == best_amount(s),
    decreases s.len(),
{
    if s.len() > 0 {
        let t = s.drop_last();
        lemma_best_is_attained(t);
        if s.last().1.amount > best_amount(t) || t.len() == 0 {
            assert(s[s.len() - 1].1.amount == best_amount(s));
        } else {
            let j = choose|j: int| 0 <= j < t.len() && t[j].1.amount == best_amount(t);
            assert(s[j] == t[j]);
        }
    }
}

/// A liquidation never pays the lender more than the collateral: a payout of
/// `min(debt, available)` keeps the liquidated total within the collateral
/// (so recording it never saturates), and a payout that finalizes the
/// liquidation brings the total to exactly the collateral.
pub proof fn lemma_payout_within_collateral(v: Vault, available: u128)
    requires
        v.debt_consistent(),
    ensures
        ({
            let paid = min_int(v.debt(), available as int);
            let before = v.liquidation.unwrap().liquidated;
            let collateral = v.liquidity_request.unwrap().collateral;
            &&& 0 <= paid
            &&& before + paid <= collateral
            &&& before.saturating_add(paid as u128) == before + paid
            &&& paid == v.debt() ==> before + paid == collateral
        }),
{
}

/// After a repaid loan the owner can borrow again: the state that a
/// successful `on_repay_loan` leaves refuses no well-formed request by the
/// owner on account of the previous loan or the lock.
pub proof fn lemma_repaid_vault_accepts_request(v: Vault, env: Env, amount: u128, collateral: u128, duration: u64)
    requires
        env.attached_deposit == 1,
        env.predecessor@ == v.owner@,
        amount > 0,
        collateral > 0,
        0 < duration <= MAX_LOAN_DURATION,
        v.active_validators@.len() > 0,
    ensures
        (Vault {
            liquidity_request: None,
            accepted_offer: None,
            counter_offers: None,
            pending_liquidity_request: None,
            ..v.unlocked()
        }).request_check(env, amount, collateral, duration) is None,
{
}

/// A takeover whose payment reaches the owner ends with the buyer owning the
/// vault, the listing closed and the lock released; nothing else changes.
pub proof fn lemma_takeover_hands_over(v: Vault, env: Env)
    requires
        v.claim_vault_check(env) is None,
    ensures
        ({
            let mid = Vault {
                is_listed_for_takeover: false,
                ..v.locked(ProcessingState::ClaimVault, env.block_timestamp)
            };
            &&& mid.owner@ == v.owner@
            &&& (Vault { owner: env.predecessor, is_listed_for_takeover: false, ..mid.claim_released() })
                == (Vault {
                owner: env.predecessor,
                is_listed_for_takeover: false,
                processing_state: ProcessingState::Idle,
                processing_since: 0,
                ..v
            })
        }),
{
}

/// Storing refunds with distinct ids leaves each of them findable under its id.
proof fn lemma_put_ids_findable(s: Seq<(u64, RefundEntry)>, ks: Seq<(u64, RefundEntry)>)
    requires
        unique_ids(s),
        forall|i: int, j: int| 0 <= i < j < ks.len() ==> ks[i].0 != ks[j].0,
    ensures
        unique_ids(put_ids(s, ks)),
        forall|i: int| 0 <= i < ks.len() ==> lookup_id(put_ids(s, ks), #[trigger] ks[i].0) == Some(ks[i].1),
    decreases ks.len(),
{
    if ks.len() > 0 {
        let prev = put_ids(s, ks.drop_last());
        lemma_put_ids_findable(s, ks.drop_last());
        crate::collections::lemma_put_id(prev, ks.last().0, ks.last().1);
        assert forall|i: int| 0 <= i < ks.len() implies lookup_id(put_ids(s, ks), #[trigger] ks[i].0) == Some(ks[i].1) by {
            if i < ks.len() - 1 {
                assert(ks.drop_last()[i] == ks[i]);
            }
        }
    }
}

/// No offer is lost when the owner accepts one: afterwards the refund of every
/// other offer is in the refund list under its own id, with the offer's
/// proposer and amount and the request's token, waiting to be settled.
pub proof fn lemma_accept_records_every_refund(v: Vault, env: Env, proposer: String, amount: u128)
    requires
        v.wf(),
        v.refund_nonce + v.offers_seq().len() <= u64::MAX,
        v.accept_offer_check(env, proposer, amount) is None,
    ensures
        ({
            let rest = remove_key(v.offers_seq(), proposer@);
            let token = v.liquidity_request.unwrap().token;
            let ks = recorded_refunds(rest, token, v.refund_nonce, env.epoch_height);
            &&& ks.len() == v.offers_seq().len() - 1
            &&& forall|i: int|
                0 <= i < rest.len() ==> lookup_id(put_ids(v.refund_list@, ks), #[trigger] ks[i].0) == Some(
                    RefundEntry {
                        token: Some(token),
                        proposer: rest[i].1.proposer,
                        amount: rest[i].1.amount,
                        added_at_epoch: env.epoch_height,
                    },
                )
        }),
{
    let rest = remove_key(v.offers_seq(), proposer@);
    let token = v.liquidity_request.unwrap().token;
    let ks = recorded_refunds(rest, token, v.refund_nonce, env.epoch_height);
    crate::collections::lemma_remove_key(v.offers_seq(), proposer@);
    lemma_put_ids_findable(v.refund_list@, ks);
}

/// No offer is lost when the owner cancels the request: afterwards the refund
/// of every offer is in the refund list under its own id.
pub proof fn lemma_cancel_records_every_refund(v: Vault, env: Env)
    requires
        v.wf(),
        v.refund_nonce + v.offers_seq().len() <= u64::MAX,
        v.cancel_request_check(env) is None,
    ensures
        ({
            let o = v.offers_seq();
            let token = v.liquidity_request.unwrap().token;
            let ks = recorded_refunds(o, token, v.refund_nonce, env.epoch_height);
            forall|i: int|
                0 <= i < o.len() ==> lookup_id(put_ids(v.refund_list@, ks), #[trigger] ks[i].0) == Some(
                    RefundEntry {
                        token: Some(token),
                        proposer: o[i].1.proposer,
                        amount: o[i].1.amount,
                        added_at_epoch: env.epoch_height,
                    },
                )
        }),
{
    let token = v.liquidity_request.unwrap().token;
    let ks = recorded_refunds(v.offers_seq(), token, v.refund_nonce, env.epoch_height);
    lemma_put_ids_findable(v.refund_list@, ks);
}

/// Staking with the pool gives back what was staked: an account new to the
/// pool that stakes `d`, unstakes all of it at epoch `e`, and withdraws at any
/// epoch from `e + UNSTAKE_DELAY_EPOCHS` on can unstake all of it, is paid
/// exactly `d`, and is left with nothing staked or unstaked. Before that epoch
/// the withdrawal is refused.
pub proof fn lemma_pool_round_trip(s: Seq<(String, Account)>, x: String, d: u128, e: u64)
    requires
        unique_keys(s),
        !has_key(s, x@),
        d > 0,
        e + UNSTAKE_DELAY_EPOCHS <= u64::MAX,
    ensures
        ({
            let staked = after_deposit(s, x, d);
            let unstaked = after_unstake(staked, x, d, e);
            let a = account_of(unstaked, x@);
            &&& account_of(staked, x@).stake_shares == d
            &&& a.unstaked == d
            &&& a.unstaked_available_epoch_height == e + UNSTAKE_DELAY_EPOCHS
            &&& account_of(after_withdraw(unstaked, x), x@) == Account {
                unstaked: 0,
                stake_shares: 0,
                unstaked_available_epoch_height: 0,
            }
        }),
{
    let staked = after_deposit(s, x, d);
    let a0 = account_of(s, x@);
    crate::collections::lemma_put_key(s, x, Account { stake_shares: (a0.stake_shares + d) as u128, ..a0 });
    let unstaked = after_unstake(staked, x, d, e);
    let a1 = account_of(staked, x@);
    crate::collections::lemma_put_key(
        staked,
        x,
        Account {
            unstaked: (a1.unstaked + d) as u128,
            stake_shares: (a1.stake_shares - d) as u128,
            unstaked_available_epoch_height: if a1.unstaked == 0 {
                (e + UNSTAKE_DELAY_EPOCHS) as u64
            } else {
                a1.unstaked_available_epoch_height
            },
        },
    );
    let a2 = account_of(unstaked, x@);
    crate::collections::lemma_put_key(unstaked, x, Account { unstaked: 0, unstaked_available_epoch_height: 0, ..a2 });
}

/// Some instruction of `xs` unstakes from validator `k`.
pub open spec fn unstakes_from(xs: Seq<(String, u128, bool)>, k: Seq<char>) -> bool {
    exists|j: int| 0 <= j < xs.len() && #[trigger] xs[j].0@ == k
}

/// Recording a batch of unstakes from distinct validators (`rs[i]` answering
/// instruction `i`): each successful unstake adds its amount to that
/// validator's entry, stamped with the current epoch, and the validator leaves
/// the active set exactly when its whole stake went; a failed unstake changes
/// nothing; validators outside the batch are untouched.
pub proof fn lemma_unstakes_recorded_per_validator(
    vs: Seq<String>,
    es: Seq<(String, UnstakeEntry)>,
    xs: Seq<(String, u128, bool)>,
    rs: Seq<CallResult>,
    epoch: u64,
)
    requires
        unique_views(vs),
        unique_keys(es),
        rs.len() >= xs.len(),
        forall|i: int, j: int| 0 <= i < j < xs.len() ==> xs[i].0@ != xs[j].0@,
    ensures
        ({
            let after = after_unstakes(vs, es, xs, rs, epoch);
            &&& forall|i: int|
                0 <= i < xs.len() && rs[i] is Successful ==> lookup(after.1, #[trigger] xs[i].0@) == Some(
                    UnstakeEntry { amount: (recorded(es, xs[i].0@) + xs[i].1) as u128, epoch_height: epoch },
                )
            &&& forall|i: int|
                0 <= i < xs.len() && !(rs[i] is Successful) ==> lookup(after.1, #[trigger] xs[i].0@) == lookup(
                    es,
                    xs[i].0@,
                )
            &&& forall|i: int|
                0 <= i < xs.len() ==> (has_view(after.0, #[trigger] xs[i].0@) <==> (has_view(vs, xs[i].0@)
                    && !(rs[i] is Successful && xs[i].2)))
            &&& forall|k: Seq<char>|
                !unstakes_from(xs, k) ==> lookup(after.1, k) == lookup(es, k) && (has_view(after.0, k)
                    <==> has_view(vs, k))
        }),
    decreases xs.len(),
{
    if xs.len() > 0 {
        let n = xs.len() - 1;
        let ys = xs.drop_last();
        let x = xs.last();
        let prev = after_unstakes(vs, es, ys, rs, epoch);
        lemma_unstakes_recorded_per_validator(vs, es, ys, rs, epoch);
        lemma_after_unstakes(vs, es, ys, rs, epoch);
        let after = after_unstakes(vs, es, xs, rs, epoch);
        assert(!unstakes_from(ys, x.0@)) by {
            if unstakes_from(ys, x.0@) {
                let j = choose|j: int| 0 <= j < ys.len() && #[trigger] ys[j].0@ == x.0@;
                assert(xs[j].0@ != xs[n].0@);
            }
        }
        let e = UnstakeEntry { amount: (recorded(prev.1, x.0@) + x.1) as u128, epoch_height: epoch };
        crate::collections::lemma_put_key(prev.1, x.0, e);
        crate::collections::lemma_remove_view(prev.0, x.0@);
        assert forall|i: int| 0 <= i < xs.len() && rs[i] is Successful implies lookup(after.1, #[trigger] xs[i].0@)
            == Some(UnstakeEntry { amount: (recorded(es, xs[i].0@) + xs[i].1) as u128, epoch_height: epoch }) by {
            if i < n {
                assert(ys[i] == xs[i]);
                assert(xs[i].0@ != xs[n].0@);
            }
        }
        assert forall|i: int| 0 <= i < xs.len() && !(rs[i] is Successful) implies lookup(
            after.1,
            #[trigger] xs[i].0@,
        ) == lookup(es, xs[i].0@) by {
            if i < n {
                assert(ys[i] == xs[i]);
                assert(xs[i].0@ != xs[n].0@);
            }
        }
        assert forall|i: int| 0 <= i < xs.len() implies (has_view(after.0, #[trigger] xs[i].0@) <==> (has_view(
            vs,
            xs[i].0@,
        ) && !(rs[i] is Successful && xs[i].2))) by {
            if i < n {
                assert(ys[i] == xs[i]);
                assert(xs[i].0@ != xs[n].0@);
            }
        }
        assert forall|k: Seq<char>| !unstakes_from(xs, k) implies lookup(after.1, k) == lookup(es, k) && (has_view(
            after.0,
            k,
        ) <==> has_view(vs, k)) by {
            assert(k != xs[n].0@);
            if unstakes_from(ys, k) {
                let j = choose|j: int| 0 <= j < ys.len() && #[trigger] ys[j].0@ == k;
                assert(xs[j].0@ == k);
            }
        }
    }
}

/// The total that the instructions of `plan` unstake.
pub open spec fn plan_amount(plan: Seq<(String, u128, bool)>) -> int
    decreases plan.len(),
{
    if plan.len() == 0 {
        0
    } else {
        plan[0].1 + plan_amount(plan.drop_first())
    }
}

/// The stake that the validators of `ids` reported, `ss[i]` for validator `i`
/// (`None` counts nothing).
pub open spec fn reported_stake(ids: Seq<String>, ss: Seq<Option<u128>>) -> int
    decreases ids.len(),
{
    if ids.len() == 0 {
        0
    } else {
        (match ss[0] {
            Some(x) => x as int,
            None => 0,
        }) + reported_stake(ids.drop_first(), ss.drop_first())
    }
}

/// The liquidation driver unstakes exactly what is missing, as far as the
/// reported stake allows: the instructions of the unstake plan for a deficit
/// `d` add up to the smaller of `d` and the total stake reported.
pub proof fn lemma_unstake_plan_covers_deficit(ids: Seq<String>, ss: Seq<Option<u128>>, d: int)
    requires
        d >= 0,
    ensures
        plan_amount(unstake_plan(ids, ss, d)) == min_int(d, reported_stake(ids, ss)),
        reported_stake(ids, ss) >= 0,
    decreases ids.len(),
{
    if ids.len() > 0 {
        lemma_unstake_plan_covers_deficit(ids.drop_first(), ss.drop_first(), d);
        let st = ss[0];
        if d > 0 && st is Some && st.unwrap() > 0 {
            let a = min_int(st.unwrap() as int, d);
            lemma_unstake_plan_covers_deficit(ids.drop_first(), ss.drop_first(), d - a);
            let rest = unstake_plan(ids.drop_first(), ss.drop_first(), d - a);
            let plan = seq![(ids[0], a as u128, a == st.unwrap())] + rest;
            assert(plan.drop_first() =~= rest);
            assert(unstake_plan(ids, ss, d) == plan);
        }
    }
}

/// Some refund of `ks` has id `x`.
pub open spec fn names_id(ks: Seq<(u64, RefundEntry)>, x: u64) -> bool {
    exists|j: int| 0 <= j < ks.len() && #[trigger] ks[j].0 == x
}

/// The refund under id `x` in `s` is one that `caller` may retry: the owner
/// may retry any, a proposer their own.
pub open spec fn retryable(s: Seq<(u64, RefundEntry)>, x: u64, caller: Seq<char>, owner: Seq<char>) -> bool {
    lookup_id(s, x) matches Some(e) && (caller == owner || caller == e.proposer@)
}

/// Looking an id up in a list with unique ids: the last pair is found under
/// its id, and every other id is found as in the list without it.
proof fn lemma_lookup_id_last(s: Seq<(u64, RefundEntry)>)
    requires
        unique_ids(s),
        s.len() > 0,
    ensures
        unique_ids(s.drop_last()),
        lookup_id(s, s.last().0) == Some(s.last().1),
        !has_id(s.drop_last(), s.last().0),
        forall|x: u64| x != s.last().0 ==> lookup_id(s, x) == lookup_id(s.drop_last(), x),
{
    let t = s.drop_last();
    let n = s.len() - 1;
    assert(s[n].0 == s.last().0);
    lemma_id_index(s, s.last().0);
    if has_id(t, s.last().0) {
        let j = choose|j: int| 0 <= j < t.len() && t[j].0 == s.last().0;
        assert(s[j].0 == s[n].0);
    }
    assert forall|x: u64| x != s.last().0 implies lookup_id(s, x) == lookup_id(t, x) by {
        if has_id(s, x) {
            lemma_id_index(s, x);
            let j = id_index(s, x);
            assert(j < n);
            assert(t[j].0 == x);
            assert(has_id(t, x));
            lemma_id_index(t, x);
            assert(t[id_index(t, x)] == s[id_index(t, x)]);
        }
        if has_id(t, x) {
            lemma_id_index(t, x);
            assert(s[id_index(t, x)].0 == x);
        }
    }
}

/// Removing the ids of `ks` from a list with unique ids removes exactly
/// those ids and keeps every other refund.
proof fn lemma_remove_ids_lookup(s: Seq<(u64, RefundEntry)>, ks: Seq<(u64, RefundEntry)>)
    requires
        unique_ids(s),
    ensures
        unique_ids(remove_ids(s, ks)),
        forall|x: u64| #[trigger] lookup_id(remove_ids(s, ks), x) == if names_id(ks, x) {
            None
        } else {
            lookup_id(s, x)
        },
    decreases ks.len(),
{
    if ks.len() > 0 {
        let t = ks.drop_last();
        lemma_remove_ids_lookup(s, t);
        lemma_remove_id(remove_ids(s, t), ks.last().0);
        assert forall|x: u64| #[trigger] lookup_id(remove_ids(s, ks), x) == if names_id(ks, x) {
            None
        } else {
            lookup_id(s, x)
        } by {
            let n = ks.len() - 1;
            let prev = remove_ids(s, t);
            assert(remove_ids(s, ks) == remove_id(prev, ks.last().0));
            assert(ks[n].0 == ks.last().0);
            if x == ks.last().0 {
                assert(names_id(ks, x));
                assert(lookup_id(remove_id(prev, ks.last().0), ks.last().0) is None);
            } else {
                assert(lookup_id(remove_id(prev, ks.last().0), x) == lookup_id(prev, x));
                assert(lookup_id(prev, x) == if names_id(t, x) {
                    None
                } else {
                    lookup_id(s, x)
                });
                if names_id(t, x) {
                    let j = choose|j: int| 0 <= j < t.len() && #[trigger] t[j].0 == x;
                    assert(ks[j].0 == x);
                    assert(names_id(ks, x));
                }
                if names_id(ks, x) {
                    let j = choose|j: int| 0 <= j < ks.len() && #[trigger] ks[j].0 == x;
                    assert(j != n);
                    assert(t[j].0 == x);
                    assert(names_id(t, x));
                }
            }
        }
    }
}

/// The refunds that a retry selects: each is a refund of the list that the
/// caller may retry, every such refund is selected, and no id occurs twice.
proof fn lemma_retry_selected(s: Seq<(u64, RefundEntry)>, caller: Seq<char>, owner: Seq<char>)
    requires
        unique_ids(s),
    ensures
        unique_ids(retry_selected(s, caller, owner)),
        forall|j: int|
            0 <= j < retry_selected(s, caller, owner).len() ==> lookup_id(
                s,
                #[trigger] retry_selected(s, caller, owner)[j].0,
            ) == Some(retry_selected(s, caller, owner)[j].1),
        forall|x: u64| names_id(retry_selected(s, caller, owner), x) <==> retryable(s, x, caller, owner),
    decreases s.len(),
{
    if s.len() > 0 {
        let t = s.drop_last();
        lemma_lookup_id_last(s);
        lemma_retry_selected(t, caller, owner);
        let prev = retry_selected(t, caller, owner);
        let sel = retry_selected(s, caller, owner);
        let l = s.last();
        assert(!names_id(prev, l.0)) by {
            if names_id(prev, l.0) {
                let j = choose|j: int| 0 <= j < prev.len() && #[trigger] prev[j].0 == l.0;
                assert(lookup_id(t, prev[j].0) == Some(prev[j].1));
            }
        }
        if caller == owner || caller == l.1.proposer@ {
            assert(sel == prev.push(l));
            assert forall|a: int, b: int| 0 <= a < b < sel.len() implies sel[a].0 != sel[b].0 by {
                if b == prev.len() {
                    assert(sel[a] == prev[a]);
                }
            }
            assert forall|j: int| 0 <= j < sel.len() implies lookup_id(s, #[trigger] sel[j].0) == Some(sel[j].1) by {
                if j < prev.len() {
                    assert(sel[j] == prev[j]);
                    assert(lookup_id(t, prev[j].0) == Some(prev[j].1));
                    assert(prev[j].0 != l.0) by {
                        if prev[j].0 == l.0 {
                            assert(names_id(prev, l.0));
                        }
                    }
                }
            }
            assert forall|x: u64| names_id(sel, x) <==> retryable(s, x, caller, owner) by {
                if x == l.0 {
                    assert(sel[prev.len() as int].0 == x);
                    assert(names_id(sel, x));
                    assert(lookup_id(s, x) == Some(l.1));
                } else {
                    assert(lookup_id(s, x) == lookup_id(t, x));
                    assert(names_id(prev, x) <==> retryable(t, x, caller, owner));
                    if names_id(sel, x) {
                        let j = choose|j: int| 0 <= j < sel.len() && #[trigger] sel[j].0 == x;
                        assert(j < prev.len());
                        assert(sel[j] == prev[j]);
                        assert(prev[j].0 == x);
                        assert(names_id(prev, x));
                    }
                    if names_id(prev, x) {
                        let j = choose|j: int| 0 <= j < prev.len() && #[trigger] prev[j].0 == x;
                        assert(sel[j] == prev[j]);
                        assert(sel[j].0 == x);
                        assert(names_id(sel, x));
                    }
                }
            }
        } else {
            assert(sel == prev);
            assert forall|j: int| 0 <= j < sel.len() implies lookup_id(s, #[trigger] sel[j].0) == Some(sel[j].1) by {
                assert(lookup_id(t, prev[j].0) == Some(prev[j].1));
                assert(prev[j].0 != l.0) by {
                    assert(!names_id(prev, l.0));
                    if prev[j].0 == l.0 {
                        assert(names_id(prev, l.0));
                    }
                }
            }
            assert forall|x: u64| names_id(sel, x) <==> retryable(s, x, caller, owner) by {
                if x == l.0 {
                    assert(lookup_id(s, x) == Some(l.1));
                    assert(!names_id(prev, x));
                    assert(!retryable(s, x, caller, owner));
                } else {
                    assert(lookup_id(s, x) == lookup_id(t, x));
                    assert(names_id(prev, x) <==> retryable(t, x, caller, owner));
                    assert(retryable(s, x, caller, owner) == retryable(t, x, caller, owner));
                }
            }
        }
    }
}

/// The refunds of `ks` that have not expired: each comes from `ks` and has
/// not expired, every unexpired refund of `ks` is kept, and ids stay unique.
proof fn lemma_unexpired(ks: Seq<(u64, RefundEntry)>, epoch: u64)
    requires
        unique_ids(ks),
    ensures
        unique_ids(unexpired(ks, epoch)),
        forall|j: int|
            0 <= j < unexpired(ks, epoch).len() ==> (exists|i: int|
                0 <= i < ks.len() && ks[i] == #[trigger] unexpired(ks, epoch)[j]) && !refund_expired(
                unexpired(ks, epoch)[j].1.added_at_epoch,
                epoch,
            ),
        forall|i: int|
            0 <= i < ks.len() && !refund_expired(ks[i].1.added_at_epoch, epoch) ==> exists|j: int|
                0 <= j < unexpired(ks, epoch).len() && unexpired(ks, epoch)[j] == #[trigger] ks[i],
    decreases ks.len(),
{
    if ks.len() > 0 {
        let t = ks.drop_last();
        assert forall|a: int, b: int| 0 <= a < b < t.len() implies t[a].0 != t[b].0 by {
            assert(t[a] == ks[a] && t[b] == ks[b]);
        }
        lemma_unexpired(t, epoch);
        let prev = unexpired(t, epoch);
        let u = unexpired(ks, epoch);
        let l = ks.last();
        let n = ks.len() - 1;
        assert(ks[n] == l);
        assert(!names_id(prev, l.0)) by {
            if names_id(prev, l.0) {
                let j = choose|j: int| 0 <= j < prev.len() && #[trigger] prev[j].0 == l.0;
                let i = choose|i: int| 0 <= i < t.len() && t[i] == #[trigger] prev[j];
                assert(ks[i].0 == ks[n].0);
            }
        }
        if !refund_expired(l.1.added_at_epoch, epoch) {
            assert(u == prev.push(l));
            assert forall|a: int, b: int| 0 <= a < b < u.len() implies u[a].0 != u[b].0 by {
                if b == prev.len() {
                    assert(u[a] == prev[a]);
                    assert(prev[a].0 != l.0);
                }
            }
            assert forall|j: int| 0 <= j < u.len() implies (exists|i: int| 0 <= i < ks.len() && ks[i] == #[trigger] u[j])
                && !refund_expired(u[j].1.added_at_epoch, epoch) by {
                if j < prev.len() {
                    assert(u[j] == prev[j]);
                    let i = choose|i: int| 0 <= i < t.len() && t[i] == #[trigger] prev[j];
                    assert(ks[i] == u[j]);
                } else {
                    assert(ks[n] == u[j]);
                }
            }
            assert forall|i: int| 0 <= i < ks.len() && !refund_expired(ks[i].1.added_at_epoch, epoch) implies exists|j: int|
                0 <= j < u.len() && u[j] == #[trigger] ks[i] by {
                if i < n {
                    assert(t[i] == ks[i]);
                    let j = choose|j: int| 0 <= j < prev.len() && prev[j] == #[trigger] t[i];
                    assert(u[j] == ks[i]);
                } else {
                    assert(u[prev.len() as int] == ks[i]);
                }
            }
        } else {
            assert forall|j: int| 0 <= j < u.len() implies (exists|i: int| 0 <= i < ks.len() && ks[i] == #[trigger] u[j])
                && !refund_expired(u[j].1.added_at_epoch, epoch) by {
                let i = choose|i: int| 0 <= i < t.len() && t[i] == #[trigger] prev[j];
                assert(ks[i] == u[j]);
            }
            assert forall|i: int| 0 <= i < ks.len() && !refund_expired(ks[i].1.added_at_epoch, epoch) implies exists|j: int|
                0 <= j < u.len() && u[j] == #[trigger] ks[i] by {
                assert(i < n);
                assert(t[i] == ks[i]);
            }
        }
    }
}

/// A retry takes out of the list exactly the refunds the caller may retry and
/// keeps the rest; it sends each of those that has not expired, once (with
/// `retry_refunds`, which sends one promise per refund of
/// `unexpired(retry_selected(..))`), and no other.
pub proof fn lemma_retry_takes_exactly_callers_refunds(
    s: Seq<(u64, RefundEntry)>,
    caller: Seq<char>,
    owner: Seq<char>,
    epoch: u64,
)
    requires
        unique_ids(s),
    ensures
        ({
            let sel = retry_selected(s, caller, owner);
            let u = unexpired(sel, epoch);
            &&& forall|x: u64| #[trigger] lookup_id(remove_ids(s, sel), x) == if retryable(s, x, caller, owner) {
                None
            } else {
                lookup_id(s, x)
            }
            &&& unique_ids(u)
            &&& forall|j: int| 0 <= j < u.len() ==> lookup_id(s, #[trigger] u[j].0) == Some(u[j].1)
            &&& forall|x: u64| names_id(u, x) <==> (retryable(s, x, caller, owner) && !refund_expired(
                lookup_id(s, x).unwrap().added_at_epoch,
                epoch,
            ))
        }),
{
    let sel = retry_selected(s, caller, owner);
    let u = unexpired(sel, epoch);
    lemma_retry_selected(s, caller, owner);
    lemma_remove_ids_lookup(s, sel);
    lemma_unexpired(sel, epoch);
    assert forall|x: u64| #[trigger] lookup_id(remove_ids(s, sel), x) == if retryable(s, x, caller, owner) {
        None
    } else {
        lookup_id(s, x)
    } by {
        assert(names_id(sel, x) <==> retryable(s, x, caller, owner));
    }
    assert forall|j: int| 0 <= j < u.len() implies lookup_id(s, #[trigger] u[j].0) == Some(u[j].1) by {
        let i = choose|i: int| 0 <= i < sel.len() && sel[i] == #[trigger] u[j];
        assert(lookup_id(s, sel[i].0) == Some(sel[i].1));
    }
    assert forall|x: u64| names_id(u, x) <==> (retryable(s, x, caller, owner) && !refund_expired(
        lookup_id(s, x).unwrap().added_at_epoch,
        epoch,
    )) by {
        if names_id(u, x) {
            let j = choose|j: int| 0 <= j < u.len() && #[trigger] u[j].0 == x;
            let i = choose|i: int| 0 <= i < sel.len() && sel[i] == #[trigger] u[j];
            assert(lookup_id(s, sel[i].0) == Some(sel[i].1));
            assert(names_id(sel, x));
        }
        if retryable(s, x, caller, owner) && !refund_expired(lookup_id(s, x).unwrap().added_at_epoch, epoch) {
            assert(names_id(sel, x));
            let i = choose|i: int| 0 <= i < sel.len() && #[trigger] sel[i].0 == x;
            assert(lookup_id(s, sel[i].0) == Some(sel[i].1));
            let j = choose|j: int| 0 <= j < u.len() && u[j] == #[trigger] sel[i];
            assert(u[j].0 == x);
        }
    }
}

/// Liquid NEAR goes to the lender. When no unstaked NEAR has matured and the
/// vault holds liquid NEAR, a liquidation step that does not first ask the
/// validators for stake (because the liquid NEAR covers the debt, or the NEAR
/// still unlocking covers the rest) transfers `min(debt, available)` to the
/// lender, finalizing exactly when that pays the whole debt, and changes
/// nothing else.
pub proof fn lemma_liquid_near_goes_to_lender(v: Vault, env: Env, r: Result<Chain, VaultError>, post: Vault)
    requires
        v.step_effect(env, r, post),
        matured_keys(v.unstake_entries@, env.epoch_height).len() == 0,
        env.available_balance() > 0,
        env.available_balance() >= v.debt() || maturing_sum(v.unstake_entries@, env.epoch_height) >= v.debt()
            - env.available_balance(),
    ensures
        post == v,
        r matches Ok(c) && c.calls@ == seq![
            Call::Transfer {
                receiver: v.accepted_offer.unwrap().lender,
                amount: min_int(v.debt(), env.available_balance()) as u128,
            },
        ] && c.callback == Some(
            Callback::OnLenderPayoutComplete {
                lender: v.accepted_offer.unwrap().lender,
                amount: min_int(v.debt(), env.available_balance()) as u128,
                finalize: env.available_balance() >= v.debt(),
            },
        ),
{
}

/// The driver only idles when it must. A liquidation step that schedules
/// nothing and releases the lock happens only when no unstaked NEAR has
/// matured, there is no liquid NEAR to forward, and the NEAR still unlocking
/// covers the whole debt.
pub proof fn lemma_driver_waits_only_when_covered(v: Vault, env: Env, r: Result<Chain, VaultError>, post: Vault)
    requires
        v.step_effect(env, r, post),
        r matches Ok(c) && c.is_noop(),
    ensures
        matured_keys(v.unstake_entries@, env.epoch_height).len() == 0,
        env.available_balance() == 0,
        maturing_sum(v.unstake_entries@, env.epoch_height) >= v.debt(),
        post == v.unlocked(),
{
}

/// The unstake after a stake query covers only the real shortfall: in total
/// it is the smaller of the stake the validators reported and what liquid
/// NEAR and NEAR already unlocking leave unpaid of the debt (zero when they
/// cover it).
pub proof fn lemma_unstake_covers_only_the_shortfall(v: Vault, env: Env, ids: Seq<String>, ss: Seq<Option<u128>>)
    requires
        v.step_ready(env),
    ensures
        ({
            let rest = v.debt() - env.available_balance() - maturing_sum(v.unstake_entries@, env.epoch_height);
            let shortfall = if rest > 0 { rest } else { 0 };
            plan_amount(unstake_plan(ids, ss, v.deficit(env))) == min_int(reported_stake(ids, ss), shortfall)
        }),
{
    lemma_maturing_sum_nonneg(v.unstake_entries@, env.epoch_height);
    lemma_unstake_plan_covers_deficit(ids, ss, v.deficit(env));
}

/// `k` is among `ks`.
pub open spec fn lists_view(ks: Seq<Seq<char>>, k: Seq<char>) -> bool {
    exists|j: int| 0 <= j < ks.len() && ks[j] == k
}

/// Removing the ids `ks` from a set keeps exactly the members not among them.
proof fn lemma_remove_views_all_members(s: Seq<String>, ks: Seq<Seq<char>>)
    requires
        unique_views(s),
    ensures
        forall|k: Seq<char>| #[trigger] has_view(remove_views_all(s, ks), k) <==> (has_view(s, k) && !lists_view(ks, k)),
    decreases ks.len(),
{
    if ks.len() > 0 {
        let t = ks.drop_last();
        lemma_remove_views_all_members(s, t);
        lemma_remove_views_all(s, t);
        crate::collections::lemma_remove_view(remove_views_all(s, t), ks.last());
        assert forall|k: Seq<char>| #[trigger] has_view(remove_views_all(s, ks), k) <==> (has_view(s, k) && !lists_view(ks, k)) by {
            let prev = remove_views_all(s, t);
            assert(remove_views_all(s, ks) == crate::collections::remove_view(prev, ks.last()));
            assert(ks[ks.len() - 1] == ks.last());
            assert(has_view(prev, k) <==> (has_view(s, k) && !lists_view(t, k)));
            if k == ks.last() {
                assert(lists_view(ks, k));
            }
            if lists_view(t, k) {
                let j = choose|j: int| 0 <= j < t.len() && t[j] == k;
                assert(ks[j] == k);
            }
            if lists_view(ks, k) && k != ks.last() {
                let j = choose|j: int| 0 <= j < ks.len() && ks[j] == k;
                assert(t[j] == k);
            }
        }
    }
}

/// The validators that `zero_staked` names are exactly those that reported a stake of zero.
proof fn lemma_zero_staked_members(ids: Seq<String>, ss: Seq<Option<u128>>)
    ensures
        forall|k: Seq<char>| #[trigger] lists_view(zero_staked(ids, ss), k) <==> exists|i: int|
            0 <= i < ss.len() && ids[i]@ == k && ss[i] == Some(0u128),
    decreases ss.len(),
{
    if ss.len() > 0 {
        let t = ss.drop_last();
        let n = ss.len() - 1;
        lemma_zero_staked_members(ids, t);
        let prev = zero_staked(ids, t);
        assert forall|k: Seq<char>| #[trigger] lists_view(zero_staked(ids, ss), k) <==> exists|i: int|
            0 <= i < ss.len() && ids[i]@ == k && ss[i] == Some(0u128) by {
            if ss.last() == Some(0u128) {
                let z = prev.push(ids[n]@);
                assert(zero_staked(ids, ss) == z);
                if lists_view(z, k) {
                    let j = choose|j: int| 0 <= j < z.len() && z[j] == k;
                    if j < prev.len() {
                        assert(prev[j] == k);
                        assert(lists_view(prev, k));
                        let i = choose|i: int| 0 <= i < t.len() && ids[i]@ == k && t[i] == Some(0u128);
                        assert(ss[i] == t[i]);
                    } else {
                        assert(ss[n] == Some(0u128));
                    }
                }
                if exists|i: int| 0 <= i < ss.len() && ids[i]@ == k && ss[i] == Some(0u128) {
                    let i = choose|i: int| 0 <= i < ss.len() && ids[i]@ == k && ss[i] == Some(0u128);
                    if i < n {
                        assert(t[i] == ss[i]);
                        assert(lists_view(prev, k));
                        let j = choose|j: int| 0 <= j < prev.len() && prev[j] == k;
                        assert(z[j] == k);
                    } else {
                        assert(z[prev.len() as int] == k);
                    }
                }
            } else {
                assert(zero_staked(ids, ss) == prev);
                if exists|i: int| 0 <= i < ss.len() && ids[i]@ == k && ss[i] == Some(0u128) {
                    let i = choose|i: int| 0 <= i < ss.len() && ids[i]@ == k && ss[i] == Some(0u128);
                    assert(i != n);
                    assert(t[i] == ss[i]);
                }
                if exists|i: int| 0 <= i < t.len() && ids[i]@ == k && t[i] == Some(0u128) {
                    let i = choose|i: int| 0 <= i < t.len() && ids[i]@ == k && t[i] == Some(0u128);
                    assert(ss[i] == t[i]);
                }
            }
        }
    }
}

/// The stake check of a liquidity request prunes only validators that hold
/// nothing: afterwards a validator is active exactly when it was active
/// before and did not report a stake of zero. A validator whose query failed
/// or whose answer did not parse stays active.
pub proof fn lemma_stake_check_prunes_only_empty_validators(
    vs: Seq<String>,
    ids: Seq<String>,
    ss: Seq<Option<u128>>,
)
    requires
        unique_views(vs),
    ensures
        forall|k: Seq<char>| #[trigger] has_view(remove_views_all(vs, zero_staked(ids, ss)), k) <==> (has_view(vs, k)
            && !exists|i: int| 0 <= i < ss.len() && ids[i]@ == k && ss[i] == Some(0u128)),
        forall|i: int|
            0 <= i < ss.len() && ss[i] != Some(0u128) && has_view(vs, ids[i]@) && (forall|j: int|
                0 <= j < ss.len() && ids[j]@ == ids[i]@ ==> j == i) ==> #[trigger] has_view(
                remove_views_all(vs, zero_staked(ids, ss)),
                ids[i]@,
            ),
{
    lemma_remove_views_all_members(vs, zero_staked(ids, ss));
    lemma_zero_staked_members(ids, ss);
}

/// For the raw answers: a validator whose query failed is never pruned by
/// the stake check of a liquidity request.
pub proof fn lemma_failed_query_keeps_validator(vs: Seq<String>, ids: Seq<String>, rs: Seq<CallResult>, i: int)
    requires
        unique_views(vs),
        0 <= i < rs.len(),
        rs[i] is Failed,
        has_view(vs, ids[i]@),
        forall|j: int| 0 <= j < rs.len() && ids[j]@ == ids[i]@ ==> j == i,
    ensures
        has_view(remove_views_all(vs, zero_staked(ids, decoded_stakes(rs))), ids[i]@),
{
    let ss = decoded_stakes(rs);
    lemma_stake_check_prunes_only_empty_validators(vs, ids, ss);
    assert(ss[i] == staked_of(rs[i]));
}

/// Matured NEAR is collected first: when some unstaked NEAR has matured, the
/// liquidation step withdraws from exactly the validators holding matured
/// NEAR and changes nothing else.
pub proof fn lemma_matured_near_collected_first(v: Vault, env: Env, r: Result<Chain, VaultError>, post: Vault)
    requires
        v.step_effect(env, r, post),
        matured_keys(v.unstake_entries@, env.epoch_height).len() > 0,
    ensures
        post == v,
        r matches Ok(c) && c.calls@.len() == matured_keys(v.unstake_entries@, env.epoch_height).len() && (forall|i: int|
            0 <= i < c.calls@.len() ==> #[trigger] c.calls@[i] == Call::WithdrawAll {
                validator: matured_keys(v.unstake_entries@, env.epoch_height)[i],
            }),
{
}

/// A shortfall leads to a stake query: when nothing has matured and liquid
/// NEAR plus NEAR still unlocking fall short of the debt, the liquidation step
/// asks every active validator for its stake (refused when there is none)
/// and pays nothing yet.
pub proof fn lemma_shortfall_queries_stake(v: Vault, env: Env, r: Result<Chain, VaultError>, post: Vault)
    requires
        v.step_effect(env, r, post),
        matured_keys(v.unstake_entries@, env.epoch_height).len() == 0,
        env.available_balance() + maturing_sum(v.unstake_entries@, env.epoch_height) < v.debt(),
    ensures
        post == v,
        v.active_validators@.len() == 0 ==> r == Err::<Chain, VaultError>(VaultError::NoActiveValidators),
        v.active_validators@.len() > 0 ==> (r matches Ok(c) && c.calls@.len() == v.active_validators@.len()
            && (forall|i: int|
            0 <= i < c.calls@.len() ==> (#[trigger] c.calls@[i] matches Call::GetAccountStakedBalance { validator }
                && has_view(v.active_validators@, validator@)))),
{
    lemma_maturing_sum_nonneg(v.unstake_entries@, env.epoch_height);
    if v.active_validators@.len() > 0 {
        let c = r->Ok_0;
        let vs = choose|vs: Seq<String>|
            #![trigger is_liquidation_query(c, vs)]
            is_liquidation_query(c, vs) && sorted_strictly(vs) && vs.len() == v.active_validators@.len() && forall|
                x: Seq<char>,
            | has_view(vs, x) <==> has_view(v.active_validators@, x);
        assert forall|i: int| 0 <= i < c.calls@.len() implies (#[trigger] c.calls@[i] matches Call::GetAccountStakedBalance {
            validator,
        } && has_view(v.active_validators@, validator@)) by {
            assert(c.calls@[i] == Call::GetAccountStakedBalance { validator: vs[i] });
            assert(has_view(vs, vs[i]@));
        }
    }
}

/// The liquidation's stake query prunes only validators that reported no
/// stake: every validator it drops from the active set answered with zero.
pub proof fn lemma_liquidation_prunes_only_empty_validators(ids: Seq<String>, ss: Seq<Option<u128>>, d: int)
    requires
        ss.len() >= ids.len(),
    ensures
        forall|k: Seq<char>| #[trigger] lists_view(zero_stake_ids(ids, ss, d), k) ==> exists|i: int|
            0 <= i < ids.len() && ids[i]@ == k && ss[i] == Some(0u128),
    decreases ids.len(),
{
    if ids.len() > 0 && d > 0 {
        let st = ss[0];
        let d2 = if st is Some && st.unwrap() > 0 { d - min_int(st.unwrap() as int, d) } else { d };
        lemma_liquidation_prunes_only_empty_validators(ids.drop_first(), ss.drop_first(), d2);
        let rest = zero_stake_ids(ids.drop_first(), ss.drop_first(), d2);
        assert forall|k: Seq<char>| #[trigger] lists_view(zero_stake_ids(ids, ss, d), k) implies exists|i: int|
            0 <= i < ids.len() && ids[i]@ == k && ss[i] == Some(0u128) by {
            let z = zero_stake_ids(ids, ss, d);
            let j = choose|j: int| 0 <= j < z.len() && z[j] == k;
            if st is Some && st.unwrap() > 0 {
                assert(z == rest);
                assert(lists_view(rest, k));
                let i = choose|i: int| 0 <= i < ids.len() - 1 && ids.drop_first()[i]@ == k && ss.drop_first()[i] == Some(0u128);
                assert(ids[i + 1] == ids.drop_first()[i]);
                assert(ss[i + 1] == ss.drop_first()[i]);
            } else if st is Some {
                assert(z == seq![ids[0]@] + rest);
                if j == 0 {
                    assert(ids[0]@ == k);
                } else {
                    assert(rest[j - 1] == k);
                    assert(lists_view(rest, k));
                    let i = choose|i: int| 0 <= i < ids.len() - 1 && ids.drop_first()[i]@ == k && ss.drop_first()[i] == Some(0u128);
                    assert(ids[i + 1] == ids.drop_first()[i]);
                    assert(ss[i + 1] == ss.drop_first()[i]);
                }
            } else {
                assert(z == rest);
                assert(lists_view(rest, k));
                let i = choose|i: int| 0 <= i < ids.len() - 1 && ids.drop_first()[i]@ == k && ss.drop_first()[i] == Some(0u128);
                assert(ids[i + 1] == ids.drop_first()[i]);
                assert(ss[i + 1] == ss.drop_first()[i]);
            }
        }
    }
}

} // verus!
