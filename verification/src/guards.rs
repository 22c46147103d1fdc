//! Checks of the preconditions that the vault's methods state, for callers
//! outside the verified code to run before a call.

use vstd::prelude::*;
use crate::collections::{all_ids_unique, all_keys_unique, all_views_unique};
use crate::env::Env;
use crate::liquidation::maturing_sum;
use crate::types::{NANOS_PER_SECOND, NUM_EPOCHS_TO_UNLOCK, STORAGE_BUFFER};
use crate::vault::Vault;

verus! {

impl Env {
    /// Whether the storage cost plus the reserve fits in a `u128`.
    pub fn fits(&self) -> (r: bool)
        ensures
            r == self.wf(),
    {
        match self.storage_byte_cost.checked_mul(self.storage_usage as u128) {
            Some(c) => c.checked_add(STORAGE_BUFFER).is_some(),
            None => {
                proof {
                    assert(self.storage_byte_cost * self.storage_usage > u128::MAX);
                }
                false
            },
        }
    }
}

impl Vault {
    /// Whether the vault's collections hold no duplicate keys.
    pub fn is_well_formed(&self) -> (r: bool)
        ensures
            r == self.wf(),
    {
        let offers_ok = match &self.counter_offers {
            Some(o) => all_keys_unique(o),
            None => true,
        };
        all_views_unique(&self.active_validators) && all_keys_unique(&self.unstake_entries) && all_ids_unique(
            &self.refund_list,
        ) && offers_ok
    }

    /// Whether the unstaked NEAR still locked at `epoch` sums to a `u128`.
    pub fn maturing_fits(&self, epoch: u64) -> (r: bool)
        ensures
            r == (maturing_sum(self.unstake_entries@, epoch) <= u128::MAX),
    {
        let ghost s = self.unstake_entries@;
        let mut total: u128 = 0;
        let mut i: usize = 0;
        while i < self.unstake_entries.len()
            invariant
                s == self.unstake_entries@,
                i <= s.len(),
                total == maturing_sum(s.subrange(0, i as int), epoch),
            decreases s.len() - i,
        {
            proof {
                assert(s.subrange(0, i + 1).drop_last() =~= s.subrange(0, i as int));
                crate::liquidation::lemma_maturing_sum_prefix(s, epoch, i + 1);
            }
            let e = self.unstake_entries[i].1;
            let unlock = e.epoch_height.saturating_add(NUM_EPOCHS_TO_UNLOCK);
            if epoch < unlock {
                match total.checked_add(e.amount) {
                    Some(t) => {
                        total = t;
                    },
                    None => {
                        return false;
                    },
                }
            }
            i = i + 1;
        }
        proof {
            assert(s.subrange(0, i as int) =~= s);
        }
        true
    }

    /// Whether the loan's expiration timestamp fits in a `u64` (true when
    /// there is no accepted loan).
    pub fn expiration_is_representable(&self) -> (r: bool)
        requires
            self.accepted_offer is Some ==> self.liquidity_request is Some,
        ensures
            self.accepted_offer is Some ==> r == self.expiration_fits(),
    {
        match (&self.accepted_offer, &self.liquidity_request) {
            (Some(o), Some(req)) => match req.duration.checked_mul(NANOS_PER_SECOND) {
                Some(d) => o.accepted_at.checked_add(d).is_some(),
                None => false,
            },
            _ => true,
        }
    }

    /// Whether a liquidation driver step may run in this state under `env`.
    pub fn ready_for_liquidation_step(&self, env: &Env) -> (r: bool)
        ensures
            r == self.step_ready(*env),
    {
        let debt_ok = match (&self.liquidity_request, &self.liquidation) {
            (Some(req), Some(l)) => l.liquidated <= req.collateral,
            _ => false,
        };
        self.is_well_formed() && env.fits() && debt_ok && self.accepted_offer.is_some() && self.maturing_fits(
            env.epoch_height,
        )
    }
}

} // verus!
