//! Read-only views of the vault.

use vstd::prelude::*;
use crate::collections::{find_key, lookup};
use crate::env::Env;
use crate::liquidation::{copy_entries, copy_ids};
use crate::types::{CounterOffer, RefundEntry, UnstakeEntry, VaultViewState};
use crate::vault::Vault;

verus! {

/// The refunds of `s` whose proposer is `who`, in order.
pub open spec fn refunds_of(s: Seq<(u64, RefundEntry)>, who: Seq<char>) -> Seq<(u64, RefundEntry)>
    decreases s.len(),
{
    if s.len() == 0 {
        seq![]
    } else {
        let prev = refunds_of(s.drop_last(), who);
        if s.last().1.proposer@ == who {
            prev.push(s.last())
        } else {
            prev
        }
    }
}

/// A copy of a map of counter offers.
pub fn copy_offers(v: &Vec<(String, CounterOffer)>) -> (r: Vec<(String, CounterOffer)>)
    ensures
        r@ == v@,
{
    let mut r: Vec<(String, CounterOffer)> = Vec::new();
    let mut i: usize = 0;
    while i < v.len()
        invariant
            i <= v.len(),
            r@ == v@.subrange(0, i as int),
        decreases v.len() - i,
    {
        r.push((v[i].0.clone(), v[i].1.duplicate()));
        i = i + 1;
        assert(r@ =~= v@.subrange(0, i as int));
    }
    assert(v@.subrange(0, i as int) =~= v@);
    r
}

impl Vault {
    /// A snapshot of the vault: owner, index, version, loan, listing,
    /// validators, unstake entries, liquidation and the current epoch.
    pub fn get_vault_state(&self, env: &Env) -> (s: VaultViewState)
        ensures
            s.owner == self.owner,
            s.index == self.index,
            s.version == self.version,
            s.liquidity_request == self.liquidity_request,
            s.accepted_offer == self.accepted_offer,
            s.is_listed_for_takeover == self.is_listed_for_takeover,
            s.active_validators@ == self.active_validators@,
            s.unstake_entries@ == self.unstake_entries@,
            s.liquidation == self.liquidation,
            s.current_epoch == env.epoch_height,
    {
        VaultViewState {
            owner: self.owner.clone(),
            index: self.index,
            version: self.version,
            liquidity_request: match &self.liquidity_request {
                Some(r) => Some(r.duplicate()),
                None => None,
            },
            accepted_offer: match &self.accepted_offer {
                Some(a) => Some(a.duplicate()),
                None => None,
            },
            is_listed_for_takeover: self.is_listed_for_takeover,
            active_validators: copy_ids(&self.active_validators),
            unstake_entries: copy_entries(&self.unstake_entries),
            liquidation: self.liquidation,
            current_epoch: env.epoch_height,
        }
    }

    /// The validators the vault stakes with.
    pub fn get_active_validators(&self) -> (r: Vec<String>)
        ensures
            r@ == self.active_validators@,
    {
        copy_ids(&self.active_validators)
    }

    /// The unstake entry of `validator`, if any.
    pub fn get_unstake_entry(&self, validator: String) -> (r: Option<UnstakeEntry>)
        requires
            self.wf(),
        ensures
            r == lookup(self.unstake_entries@, validator@),
    {
        match find_key(&self.unstake_entries, &validator) {
            Some(i) => {
                proof {
                    crate::collections::lemma_key_index(self.unstake_entries@, validator@);
                }
                Some(self.unstake_entries[i].1)
            },
            None => None,
        }
    }

    /// The counter offers by proposer, if the request has any.
    pub fn get_counter_offers(&self) -> (r: Option<Vec<(String, CounterOffer)>>)
        ensures
            self.counter_offers is None ==> r is None,
            self.counter_offers matches Some(o) ==> (r matches Some(v) && v@ == o@),
    {
        match &self.counter_offers {
            Some(o) => Some(copy_offers(o)),
            None => None,
        }
    }

    /// The balance the owner may withdraw or delegate.
    pub fn view_available_balance(&self, env: &Env) -> (r: u128)
        requires
            env.wf(),
        ensures
            r == env.available_balance(),
    {
        self.get_available_balance(env)
    }

    /// The storage cost of the vault, buffer included.
    pub fn view_storage_cost(&self, env: &Env) -> (r: u128)
        requires
            env.wf(),
        ensures
            r == env.storage_cost(),
    {
        self.get_storage_cost(env)
    }

    /// All recorded refunds, or those of `account_id`, in list order.
    pub fn get_refund_entries(&self, account_id: Option<String>) -> (r: Vec<(u64, RefundEntry)>)
        ensures
            account_id is None ==> r@ == self.refund_list@,
            account_id matches Some(a) ==> r@ == refunds_of(self.refund_list@, a@),
    {
        let mut r: Vec<(u64, RefundEntry)> = Vec::new();
        let mut i: usize = 0;
        while i < self.refund_list.len()
            invariant
                i <= self.refund_list@.len(),
                account_id is None ==> r@ == self.refund_list@.subrange(0, i as int),
                account_id matches Some(a) ==> r@ == refunds_of(self.refund_list@.subrange(0, i as int), a@),
            decreases self.refund_list@.len() - i,
        {
            proof {
                assert(self.refund_list@.subrange(0, i + 1).drop_last() =~= self.refund_list@.subrange(0, i as int));
            }
            let keep = match &account_id {
                Some(a) => self.refund_list[i].1.proposer == *a,
                None => true,
            };
            if keep {
                r.push((self.refund_list[i].0, self.refund_list[i].1.duplicate()));
            }
            i = i + 1;
            proof {
                if account_id is None {
                    assert(r@ =~= self.refund_list@.subrange(0, i as int));
                }
            }
        }
        proof {
            assert(self.refund_list@.subrange(0, i as int) =~= self.refund_list@);
        }
        r
    }
}

} // verus!
