//! A staking pool model that vaults stake with in tests: shares are 1:1 with
//! NEAR, and unstaked NEAR unlocks after `UNSTAKE_DELAY_EPOCHS`.

use vstd::prelude::*;
use crate::collections::{find_key, lookup, put_by_key, put_key, unique_keys};
use crate::env::Env;
use crate::promise::{Call, Chain};

verus! {

/// Epochs from the first unstake of a round until it can be withdrawn.
pub const UNSTAKE_DELAY_EPOCHS: u64 = 4;

/// Prefix of the pool's account map.
#[derive(PartialEq, Eq, Structural, Copy, Clone, Debug)]
pub enum StorageKey {
    Accounts,
}

impl StorageKey {
    /// The storage prefix: the Borsh encoding of the key, its variant index.
    pub fn into_storage_key(self) -> (r: Vec<u8>)
        ensures
            r@ == seq![0u8],
    {
        let mut v: Vec<u8> = Vec::new();
        v.push(0u8);
        v
    }
}

/// A delegator's account in the pool.
#[derive(PartialEq, Eq, Structural, Copy, Clone, Debug)]
pub struct Account {
    /// Unstaked NEAR waiting to be withdrawn.
    pub unstaked: u128,
    /// Staked NEAR (one share per yoctoNEAR).
    pub stake_shares: u128,
    /// Epoch at which the unstaked NEAR can be withdrawn.
    pub unstaked_available_epoch_height: u64,
}

impl Default for Account {
    fn default() -> (a: Self)
        ensures
            a == (Account { unstaked: 0, stake_shares: 0, unstaked_available_epoch_height: 0 }),
    {
        Account { unstaked: 0, stake_shares: 0, unstaked_available_epoch_height: 0 }
    }
}

/// The public view of an account.
#[derive(PartialEq, Eq, Clone, Debug)]
pub struct HumanReadableAccount {
    pub account_id: String,
    pub unstaked_balance: u128,
    pub staked_balance: u128,
    pub can_withdraw: bool,
}

/// Why the pool refuses a call. A refused call changes nothing.
#[derive(PartialEq, Eq, Structural, Copy, Clone, Debug)]
pub enum PoolError {
    /// Staking needs an attached deposit.
    NoDeposit,
    /// The account has less stake than asked to unstake.
    NotEnoughStaked,
    /// The account has nothing unstaked.
    NoUnstaked,
    /// The unstaked NEAR unlocks at epoch `required`; it is `current`.
    NotMatured { current: u64, required: u64 },
}

/// The pool's state.
#[derive(PartialEq, Eq, Clone, Debug)]
pub struct MockStakingPool {
    /// Accounts by id (a map held as pairs).
    pub accounts: Vec<(String, Account)>,
    pub total_staked_balance: u128,
    pub last_total_balance: u128,
}

/// The account of `id`, or an empty one.
pub open spec fn account_of(s: Seq<(String, Account)>, id: Seq<char>) -> Account {
    match lookup(s, id) {
        Some(a) => a,
        None => Account { unstaked: 0, stake_shares: 0, unstaked_available_epoch_height: 0 },
    }
}

/// Total stake of the accounts of `s`.
pub open spec fn shares_sum(s: Seq<(String, Account)>) -> int
    decreases s.len(),
{
    if s.len() == 0 {
        0
    } else {
        shares_sum(s.drop_last()) + s.last().1.stake_shares
    }
}

/// Replacing one account changes the total by the difference of its stakes.
pub proof fn lemma_shares_sum_update(s: Seq<(String, Account)>, i: int, x: (String, Account))
    requires
        0 <= i < s.len(),
    ensures
        shares_sum(s.update(i, x)) == shares_sum(s) - s[i].1.stake_shares + x.1.stake_shares,
    decreases s.len(),
{
    if i < s.len() - 1 {
        lemma_shares_sum_update(s.drop_last(), i, x);
        assert(s.update(i, x).drop_last() =~= s.drop_last().update(i, x));
    } else {
        assert(s.update(i, x).drop_last() =~= s.drop_last());
    }
}

/// Storing an account changes the total by the difference of its stakes.
pub proof fn lemma_shares_sum_put(s: Seq<(String, Account)>, k: String, a: Account)
    requires
        unique_keys(s),
    ensures
        shares_sum(put_key(s, k, a)) == shares_sum(s) - account_of(s, k@).stake_shares + a.stake_shares,
{
    crate::collections::lemma_put_key(s, k, a);
    if crate::collections::has_key(s, k@) {
        crate::collections::lemma_key_index(s, k@);
        let i = crate::collections::key_index(s, k@);
        lemma_shares_sum_update(s, i, (s[i].0, a));
    } else {
        assert(put_key(s, k, a).drop_last() =~= s);
    }
}

/// The accounts after `id` stakes `deposit` more.
pub open spec fn after_deposit(s: Seq<(String, Account)>, id: String, deposit: u128) -> Seq<(String, Account)> {
    let a = account_of(s, id@);
    put_key(s, id, Account { stake_shares: (a.stake_shares + deposit) as u128, ..a })
}

/// The accounts after `id` unstakes `amount` at `epoch`: the first unstake of
/// a round sets the unlock epoch to `epoch` plus the delay.
pub open spec fn after_unstake(
    s: Seq<(String, Account)>,
    id: String,
    amount: u128,
    epoch: u64,
) -> Seq<(String, Account)> {
    let a = account_of(s, id@);
    put_key(
        s,
        id,
        Account {
            unstaked: (a.unstaked + amount) as u128,
            stake_shares: (a.stake_shares - amount) as u128,
            unstaked_available_epoch_height: if a.unstaked == 0 {
                (epoch + UNSTAKE_DELAY_EPOCHS) as u64
            } else {
                a.unstaked_available_epoch_height
            },
        },
    )
}

/// The accounts after `id` withdraws everything it had unstaked.
pub open spec fn after_withdraw(s: Seq<(String, Account)>, id: String) -> Seq<(String, Account)> {
    let a = account_of(s, id@);
    put_key(s, id, Account { unstaked: 0, unstaked_available_epoch_height: 0, ..a })
}

impl MockStakingPool {
    /// Account ids are unique and the total stake is the sum of the accounts' stakes.
    pub open spec fn wf(&self) -> bool {
        &&& unique_keys(self.accounts@)
        &&& self.total_staked_balance == shares_sum(self.accounts@)
    }

    /// Whether account ids are unique and the total is the sum of the stakes.
    pub fn is_well_formed(&self) -> (r: bool)
        ensures
            r == self.wf(),
    {
        if !crate::collections::all_keys_unique(&self.accounts) {
            return false;
        }
        let ghost s = self.accounts@;
        let mut total: u128 = 0;
        let mut i: usize = 0;
        while i < self.accounts.len()
            invariant
                s == self.accounts@,
                i <= s.len(),
                total == shares_sum(s.subrange(0, i as int)),
            decreases s.len() - i,
        {
            proof {
                assert(s.subrange(0, i + 1).drop_last() =~= s.subrange(0, i as int));
                lemma_shares_sum_prefix(s, i + 1);
            }
            match total.checked_add(self.accounts[i].1.stake_shares) {
                Some(t) => {
                    total = t;
                },
                None => {
                    return false;
                },
            }
            i = i + 1;
        }
        proof {
            assert(s.subrange(0, i as int) =~= s);
        }
        total == self.total_staked_balance
    }

    /// An empty pool.
    pub fn new() -> (p: MockStakingPool)
        ensures
            p.wf(),
            p.accounts@.len() == 0,
            p.total_staked_balance == 0,
            p.last_total_balance == 0,
    {
        MockStakingPool { accounts: Vec::new(), total_staked_balance: 0, last_total_balance: 0 }
    }

    /// The caller's account, or an empty one.
    fn account(&self, id: &String) -> (a: Account)
        requires
            unique_keys(self.accounts@),
        ensures
            a == account_of(self.accounts@, id@),
    {
        match find_key(&self.accounts, id) {
            Some(i) => {
                proof {
                    crate::collections::lemma_key_index(self.accounts@, id@);
                }
                self.accounts[i].1
            },
            None => Account::default(),
        }
    }

    /// Stakes the attached deposit for the caller.
    pub fn deposit_and_stake(&mut self, env: &Env) -> (r: Result<(), PoolError>)
        requires
            old(self).wf(),
            old(self).total_staked_balance + env.attached_deposit <= u128::MAX,
            env.account_balance + old(self).total_staked_balance + env.attached_deposit <= u128::MAX,
        ensures
            final(self).wf(),
            env.attached_deposit == 0 ==> r == Err::<(), PoolError>(PoolError::NoDeposit) && *final(self)
                == *old(self),
            env.attached_deposit > 0 ==> ({
                &&& r is Ok
                &&& final(self).accounts@ == after_deposit(old(self).accounts@, env.predecessor, env.attached_deposit)
                &&& final(self).total_staked_balance == old(self).total_staked_balance + env.attached_deposit
                &&& final(self).last_total_balance == env.account_balance + final(self).total_staked_balance
            }),
    {
        let deposit = env.attached_deposit;
        if deposit == 0 {
            return Err(PoolError::NoDeposit);
        }
        let mut account = self.account(&env.predecessor);
        proof {
            lemma_shares_bound(self.accounts@, env.predecessor@);
        }
        account.stake_shares = account.stake_shares + deposit;
        self.total_staked_balance = self.total_staked_balance + deposit;
        self.last_total_balance = env.account_balance + self.total_staked_balance;
        proof {
            lemma_shares_sum_put(self.accounts@, env.predecessor, account);
        }
        put_by_key(&mut self.accounts, env.predecessor.clone(), account);
        Ok(())
    }

    /// Moves `amount` of the caller's stake to unstaked. The first unstake of
    /// a round sets the unlock epoch to the current epoch plus the delay.
    pub fn unstake(&mut self, amount: u128, env: &Env) -> (r: Result<(), PoolError>)
        requires
            old(self).wf(),
            account_of(old(self).accounts@, env.predecessor@).unstaked + amount <= u128::MAX,
            env.epoch_height + UNSTAKE_DELAY_EPOCHS <= u64::MAX,
        ensures
            final(self).wf(),
            ({
                let a = account_of(old(self).accounts@, env.predecessor@);
                &&& a.stake_shares < amount ==> r == Err::<(), PoolError>(PoolError::NotEnoughStaked)
                    && *final(self) == *old(self)
                &&& a.stake_shares >= amount ==> ({
                    &&& r is Ok
                    &&& final(self).accounts@ == after_unstake(
                        old(self).accounts@,
                        env.predecessor,
                        amount,
                        env.epoch_height,
                    )
                    &&& final(self).total_staked_balance == old(self).total_staked_balance - amount
                    &&& final(self).last_total_balance == old(self).last_total_balance
                })
            }),
    {
        let mut account = self.account(&env.predecessor);
        if account.stake_shares < amount {
            return Err(PoolError::NotEnoughStaked);
        }
        proof {
            lemma_shares_bound(self.accounts@, env.predecessor@);
        }
        if account.unstaked == 0 {
            account.unstaked_available_epoch_height = env.epoch_height + UNSTAKE_DELAY_EPOCHS;
        }
        account.stake_shares = account.stake_shares - amount;
        account.unstaked = account.unstaked + amount;
        self.total_staked_balance = self.total_staked_balance - amount;
        proof {
            lemma_shares_sum_put(self.accounts@, env.predecessor, account);
        }
        put_by_key(&mut self.accounts, env.predecessor.clone(), account);
        Ok(())
    }

    /// Sends all of the caller's unstaked NEAR back once it has unlocked.
    pub fn withdraw_all(&mut self, env: &Env) -> (r: Result<Chain, PoolError>)
        requires
            old(self).wf(),
        ensures
            final(self).wf(),
            ({
                let a = account_of(old(self).accounts@, env.predecessor@);
                &&& a.unstaked == 0 ==> r == Err::<Chain, PoolError>(PoolError::NoUnstaked) && *final(self)
                    == *old(self)
                &&& a.unstaked > 0 && env.epoch_height < a.unstaked_available_epoch_height ==> r == Err::<
                    Chain,
                    PoolError,
                >(
                    PoolError::NotMatured {
                        current: env.epoch_height,
                        required: a.unstaked_available_epoch_height,
                    },
                ) && *final(self) == *old(self)
                &&& a.unstaked > 0 && env.epoch_height >= a.unstaked_available_epoch_height ==> ({
                    &&& r matches Ok(c) && c.callback is None && c.calls@ == seq![
                        Call::Transfer { receiver: env.predecessor, amount: a.unstaked },
                    ]
                    &&& final(self).accounts@ == after_withdraw(old(self).accounts@, env.predecessor)
                    &&& final(self).total_staked_balance == old(self).total_staked_balance
                    &&& final(self).last_total_balance == old(self).last_total_balance
                })
            }),
    {
        let mut account = self.account(&env.predecessor);
        if account.unstaked == 0 {
            return Err(PoolError::NoUnstaked);
        }
        if env.epoch_height < account.unstaked_available_epoch_height {
            return Err(
                PoolError::NotMatured {
                    current: env.epoch_height,
                    required: account.unstaked_available_epoch_height,
                },
            );
        }
        let amount = account.unstaked;
        account.unstaked = 0;
        account.unstaked_available_epoch_height = 0;
        proof {
            lemma_shares_sum_put(self.accounts@, env.predecessor, account);
        }
        put_by_key(&mut self.accounts, env.predecessor.clone(), account);
        let mut calls: Vec<Call> = Vec::new();
        calls.push(Call::Transfer { receiver: env.predecessor.clone(), amount });
        Ok(Chain { calls, callback: None })
    }

    /// The unstaked NEAR of `account_id`.
    pub fn get_account_unstaked_balance(&self, account_id: String) -> (r: u128)
        requires
            self.wf(),
        ensures
            r == account_of(self.accounts@, account_id@).unstaked,
    {
        self.account(&account_id).unstaked
    }

    /// The staked NEAR of `account_id`.
    pub fn get_account_staked_balance(&self, account_id: String) -> (r: u128)
        requires
            self.wf(),
        ensures
            r == account_of(self.accounts@, account_id@).stake_shares,
    {
        self.account(&account_id).stake_shares
    }

    /// The account of `account_id` as the pool reports it; it can withdraw
    /// when something is unstaked and has unlocked.
    pub fn get_account(&self, account_id: String, env: &Env) -> (r: HumanReadableAccount)
        requires
            self.wf(),
        ensures
            ({
                let a = account_of(self.accounts@, account_id@);
                r == (HumanReadableAccount {
                    account_id,
                    unstaked_balance: a.unstaked,
                    staked_balance: a.stake_shares,
                    can_withdraw: a.unstaked > 0 && env.epoch_height >= a.unstaked_available_epoch_height,
                })
            }),
    {
        let a = self.account(&account_id);
        let can_withdraw = a.unstaked > 0 && env.epoch_height >= a.unstaked_available_epoch_height;
        HumanReadableAccount { account_id, unstaked_balance: a.unstaked, staked_balance: a.stake_shares, can_withdraw }
    }

    /// Does nothing; completes a promise.
    pub fn noop(&self) {
    }
}

/// One account's stake never exceeds the total.
pub proof fn lemma_shares_bound(s: Seq<(String, Account)>, k: Seq<char>)
    requires
        unique_keys(s),
    ensures
        0 <= account_of(s, k).stake_shares <= shares_sum(s),
    decreases s.len(),
{
    lemma_shares_sum_nonneg(s);
    if crate::collections::has_key(s, k) {
        crate::collections::lemma_key_index(s, k);
        let i = crate::collections::key_index(s, k);
        lemma_shares_sum_member(s, i);
    }
}

/// A prefix never holds more stake than the whole.
pub proof fn lemma_shares_sum_prefix(s: Seq<(String, Account)>, i: int)
    requires
        0 <= i <= s.len(),
    ensures
        0 <= shares_sum(s.subrange(0, i)) <= shares_sum(s),
    decreases s.len() - i,
{
    if i < s.len() {
        lemma_shares_sum_prefix(s, i + 1);
        assert(s.subrange(0, i + 1).drop_last() =~= s.subrange(0, i));
    } else {
        assert(s.subrange(0, i) =~= s);
    }
    lemma_shares_sum_nonneg(s.subrange(0, i));
}

/// The total stake is never negative.
pub proof fn lemma_shares_sum_nonneg(s: Seq<(String, Account)>)
    ensures
        shares_sum(s) >= 0,
    decreases s.len(),
{
    if s.len() > 0 {
        lemma_shares_sum_nonneg(s.drop_last());
    }
}

/// Each account's stake is part of the total.
pub proof fn lemma_shares_sum_member(s: Seq<(String, Account)>, i: int)
    requires
        0 <= i < s.len(),
    ensures
        s[i].1.stake_shares <= shares_sum(s),
    decreases s.len(),
{
    lemma_shares_sum_nonneg(s.drop_last());
    if i < s.len() - 1 {
        lemma_shares_sum_member(s.drop_last(), i);
    }
}

} // verus!
