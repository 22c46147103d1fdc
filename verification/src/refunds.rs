//! Refunds of counter offers: settling them, and retrying those that failed until they expire.

use vstd::prelude::*;
use crate::collections::{put_id, remove_by_id, remove_id, unique_ids};
use crate::env::{CallResult, Env};
use crate::error::VaultError;
use crate::liquidation::sat_add_u64;
use crate::promise::{Call, Callback, Chain};
use crate::types::{RefundEntry, REFUND_EXPIRY_EPOCHS};
use crate::vault::Vault;

verus! {

/// The refunds of `s` that `caller` may retry: all of them for the owner,
/// else those whose proposer is the caller. Order is kept.
pub open spec fn retry_selected(s: Seq<(u64, RefundEntry)>, caller: Seq<char>, owner: Seq<char>) -> Seq<(u64, RefundEntry)>
    decreases s.len(),
{
    if s.len() == 0 {
        seq![]
    } else {
        let prev = retry_selected(s.drop_last(), caller, owner);
        if caller == owner || caller == s.last().1.proposer@ {
            prev.push(s.last())
        } else {
            prev
        }
    }
}

/// A refund recorded at `added` epoch has expired at `epoch`.
pub open spec fn refund_expired(added: u64, epoch: u64) -> bool {
    epoch >= sat_add_u64(added, REFUND_EXPIRY_EPOCHS)
}

/// The refunds of `ks` that have not expired at `epoch`, in order.
pub open spec fn unexpired(ks: Seq<(u64, RefundEntry)>, epoch: u64) -> Seq<(u64, RefundEntry)>
    decreases ks.len(),
{
    if ks.len() == 0 {
        seq![]
    } else {
        let prev = unexpired(ks.drop_last(), epoch);
        if refund_expired(ks.last().1.added_at_epoch, epoch) {
            prev
        } else {
            prev.push(ks.last())
        }
    }
}

/// `s` with the id of each refund of `ks` removed in turn.
pub open spec fn remove_ids(s: Seq<(u64, RefundEntry)>, ks: Seq<(u64, RefundEntry)>) -> Seq<(u64, RefundEntry)>
    decreases ks.len(),
{
    if ks.len() == 0 {
        s
    } else {
        remove_id(remove_ids(s, ks.drop_last()), ks.last().0)
    }
}

/// The refund list after refunds `items` were answered by `results`:
/// the id of each item whose transfer succeeded is removed, in order.
pub open spec fn settle_batch(
    s: Seq<(u64, RefundEntry)>,
    items: Seq<(u64, String, u128)>,
    results: Seq<CallResult>,
) -> Seq<(u64, RefundEntry)>
    decreases items.len(),
{
    if items.len() == 0 {
        s
    } else {
        let prev = settle_batch(s, items.drop_last(), results);
        if results[items.len() - 1] is Successful {
            remove_id(prev, items.last().0)
        } else {
            prev
        }
    }
}

/// A retry of refund `id`: `ft_transfer` of its tokens (or a NEAR transfer
/// when it has no token) to the proposer, then `on_retry_refund_complete`.
pub open spec fn is_retry_chain(c: Chain, id: u64, e: RefundEntry) -> bool {
    &&& c.calls@ == seq![
        match e.token {
            Some(t) => Call::FtTransfer { token: t, receiver: e.proposer, amount: e.amount },
            None => Call::Transfer { receiver: e.proposer, amount: e.amount },
        },
    ]
    &&& c.callback == Some(Callback::OnRetryRefundComplete { id, entry: e })
}

/// One retry per refund of `ks`, in order.
pub open spec fn are_retry_chains(cs: Seq<Chain>, ks: Seq<(u64, RefundEntry)>) -> bool {
    &&& cs.len() == ks.len()
    &&& forall|i: int| 0 <= i < cs.len() ==> is_retry_chain(#[trigger] cs[i], ks[i].0, ks[i].1)
}

/// The promise that retries refund `id`.
pub fn schedule_refund(id: u64, entry: RefundEntry) -> (c: Chain)
    ensures
        is_retry_chain(c, id, entry),
{
    let call = match &entry.token {
        Some(t) => Call::FtTransfer { token: t.clone(), receiver: entry.proposer.clone(), amount: entry.amount },
        None => Call::Transfer { receiver: entry.proposer.clone(), amount: entry.amount },
    };
    Chain::single(call, Callback::OnRetryRefundComplete { id, entry })
}

impl Vault {
    /// Settles the refund of a counter offer. A refund recorded in the list
    /// (`refund_id` given) leaves it when the transfer succeeded and stays
    /// there when it failed. A refund not recorded yet is recorded under a
    /// fresh id, stamped with the current epoch, when it failed.
    pub fn on_refund_complete(
        &mut self,
        refund_id: Option<u64>,
        proposer: String,
        amount: u128,
        token: String,
        success: bool,
        env: &Env,
    )
        requires
            old(self).wf(),
            refund_id is None && !success ==> old(self).refund_nonce < u64::MAX,
        ensures
            final(self).wf(),
            refund_id is Some && success ==> ({
                &&& final(self).refund_list@ == remove_id(old(self).refund_list@, refund_id.unwrap())
                &&& *final(self) == (Vault { refund_list: final(self).refund_list, ..*old(self) })
            }),
            refund_id is Some && !success ==> *final(self) == *old(self),
            refund_id is None && success ==> *final(self) == *old(self),
            refund_id is None && !success ==> ({
                &&& final(self).refund_list@ == put_id(
                    old(self).refund_list@,
                    old(self).refund_nonce,
                    RefundEntry { token: Some(token), proposer, amount, added_at_epoch: env.epoch_height },
                )
                &&& *final(self) == (Vault {
                    refund_list: final(self).refund_list,
                    refund_nonce: (old(self).refund_nonce + 1) as u64,
                    ..*old(self)
                })
            }),
    {
        match refund_id {
            Some(id) => {
                if success {
                    let _ = remove_by_id(&mut self.refund_list, id);
                }
            },
            None => {
                if !success {
                    let _ = self.add_refund_entry(Some(token), proposer, amount, None, env.epoch_height);
                }
            },
        }
    }

    /// Settles several refunds `(id, proposer, amount)` recorded in the list,
    /// `results[i]` answering item `i`: each that succeeded leaves the list,
    /// each that failed stays there for a retry.
    pub fn on_batch_refunds_complete(&mut self, items: &Vec<(u64, String, u128)>, results: &Vec<CallResult>)
        requires
            old(self).wf(),
            results@.len() >= items@.len(),
        ensures
            final(self).wf(),
            final(self).refund_list@ == settle_batch(old(self).refund_list@, items@, results@),
            *final(self) == (Vault { refund_list: final(self).refund_list, ..*old(self) }),
    {
        let mut i: usize = 0;
        while i < items.len()
            invariant
                i <= items@.len(),
                results@.len() >= items@.len(),
                self.wf(),
                self.refund_list@ == settle_batch(old(self).refund_list@, items@.subrange(0, i as int), results@),
                *self == (Vault { refund_list: self.refund_list, ..*old(self) }),
            decreases items@.len() - i,
        {
            proof {
                assert(items@.subrange(0, i + 1).drop_last() =~= items@.subrange(0, i as int));
            }
            if results[i].is_successful() {
                let _ = remove_by_id(&mut self.refund_list, items[i].0);
            }
            i = i + 1;
        }
        proof {
            assert(items@.subrange(0, i as int) =~= items@);
        }
    }

    /// The caller (the owner, or a proposer for their own refunds) retries the
    /// refunds in the list. Each selected refund leaves the list; those not yet
    /// expired are sent again, in list order.
    pub fn retry_refunds(&mut self, env: &Env) -> (r: Result<Vec<Chain>, VaultError>)
        requires
            old(self).wf(),
        ensures
            final(self).wf(),
            env.attached_deposit != 1 ==> r == Err::<Vec<Chain>, VaultError>(VaultError::RequiresOneYocto)
                && *final(self) == *old(self),
            ({
                let sel = retry_selected(old(self).refund_list@, env.predecessor@, old(self).owner@);
                &&& env.attached_deposit == 1 && sel.len() == 0 ==> r == Err::<Vec<Chain>, VaultError>(
                    VaultError::NoRefundableEntries,
                ) && *final(self) == *old(self)
                &&& env.attached_deposit == 1 && sel.len() > 0 ==> ({
                    &&& final(self).refund_list@ == remove_ids(old(self).refund_list@, sel)
                    &&& *final(self) == (Vault { refund_list: final(self).refund_list, ..*old(self) })
                    &&& r matches Ok(cs) && are_retry_chains(cs@, unexpired(sel, env.epoch_height))
                })
            }),
    {
        if env.attached_deposit != 1 {
            return Err(VaultError::RequiresOneYocto);
        }
        let is_owner = env.predecessor == self.owner;
        let ghost caller = env.predecessor@;
        let ghost owner = self.owner@;
        let mut sel: Vec<(u64, RefundEntry)> = Vec::new();
        let mut i: usize = 0;
        while i < self.refund_list.len()
            invariant
                i <= self.refund_list@.len(),
                *self == *old(self),
                is_owner == (caller == owner),
                caller == env.predecessor@,
                owner == self.owner@,
                sel@ == retry_selected(self.refund_list@.subrange(0, i as int), caller, owner),
            decreases self.refund_list@.len() - i,
        {
            proof {
                assert(self.refund_list@.subrange(0, i + 1).drop_last() =~= self.refund_list@.subrange(0, i as int));
            }
            if is_owner || env.predecessor == self.refund_list[i].1.proposer {
                let id = self.refund_list[i].0;
                let entry = self.refund_list[i].1.duplicate();
                sel.push((id, entry));
            }
            i = i + 1;
        }
        proof {
            assert(self.refund_list@.subrange(0, i as int) =~= self.refund_list@);
        }
        if sel.len() == 0 {
            return Err(VaultError::NoRefundableEntries);
        }
        let ghost base = self.refund_list@;
        let mut cs: Vec<Chain> = Vec::new();
        let mut j: usize = 0;
        while j < sel.len()
            invariant
                j <= sel@.len(),
                unique_ids(self.refund_list@),
                self.refund_list@ == remove_ids(base, sel@.subrange(0, j as int)),
                *self == (Vault { refund_list: self.refund_list, ..*old(self) }),
                base == old(self).refund_list@,
                old(self).wf(),
                are_retry_chains(cs@, unexpired(sel@.subrange(0, j as int), env.epoch_height)),
            decreases sel@.len() - j,
        {
            proof {
                assert(sel@.subrange(0, j + 1).drop_last() =~= sel@.subrange(0, j as int));
            }
            let id = sel[j].0;
            let entry = sel[j].1.duplicate();
            let _ = remove_by_id(&mut self.refund_list, id);
            let expiry = entry.added_at_epoch.saturating_add(REFUND_EXPIRY_EPOCHS);
            if env.epoch_height < expiry {
                cs.push(schedule_refund(id, entry));
            }
            j = j + 1;
        }
        proof {
            assert(sel@.subrange(0, j as int) =~= sel@);
        }
        Ok(cs)
    }

    /// Settles a retried refund: a failed transfer that has not expired is
    /// recorded again under the same id, stamped with the current epoch.
    pub fn on_retry_refund_complete(&mut self, id: u64, entry: RefundEntry, success: bool, env: &Env)
        requires
            old(self).wf(),
            !success ==> entry.added_at_epoch + REFUND_EXPIRY_EPOCHS <= u64::MAX,
        ensures
            final(self).wf(),
            success || env.epoch_height >= entry.added_at_epoch + REFUND_EXPIRY_EPOCHS ==> *final(self) == *old(self),
            !success && env.epoch_height < entry.added_at_epoch + REFUND_EXPIRY_EPOCHS ==> ({
                &&& final(self).refund_list@ == put_id(
                    old(self).refund_list@,
                    id,
                    RefundEntry { added_at_epoch: env.epoch_height, ..entry },
                )
                &&& *final(self) == (Vault { refund_list: final(self).refund_list, ..*old(self) })
            }),
    {
        if success {
            return;
        }
        if env.epoch_height < entry.added_at_epoch + REFUND_EXPIRY_EPOCHS {
            let _ = self.add_refund_entry(entry.token, entry.proposer, entry.amount, Some(id), env.epoch_height);
        }
    }
}

} // verus!
