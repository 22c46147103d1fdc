use sudostake::env::Env;
use sudostake::promise::Call;
use sudostake::staking_pool::{Account, MockStakingPool, PoolError, StorageKey, UNSTAKE_DELAY_EPOCHS};
use sudostake::types::YOCTO_PER_NEAR;

fn ctx(caller: &str, deposit: u128, epoch: u64) -> Env {
    Env {
        current_account: "pool.near".to_string(),
        predecessor: caller.to_string(),
        attached_deposit: deposit,
        block_timestamp: 0,
        epoch_height: epoch,
        account_balance: 100 * YOCTO_PER_NEAR,
        storage_usage: 307_200,
        storage_byte_cost: 10_000_000_000_000_000_000,
    }
}

#[test]
fn pool_stakes_unstakes_and_withdraws() {
    let mut pool = MockStakingPool::new();
    assert_eq!(pool.deposit_and_stake(&ctx("vault.near", 3 * YOCTO_PER_NEAR, 10)), Ok(()));
    assert_eq!(pool.get_account_staked_balance("vault.near".to_string()), 3 * YOCTO_PER_NEAR);
    assert_eq!(pool.total_staked_balance, 3 * YOCTO_PER_NEAR);
    assert_eq!(pool.last_total_balance, 103 * YOCTO_PER_NEAR);

    assert_eq!(pool.unstake(YOCTO_PER_NEAR, &ctx("vault.near", 0, 10)), Ok(()));
    assert_eq!(pool.get_account_unstaked_balance("vault.near".to_string()), YOCTO_PER_NEAR);
    assert_eq!(pool.total_staked_balance, 2 * YOCTO_PER_NEAR);
    let view = pool.get_account("vault.near".to_string(), &ctx("x.near", 0, 10));
    assert_eq!(view.staked_balance, 2 * YOCTO_PER_NEAR);
    assert!(!view.can_withdraw);

    // A second unstake in the same round keeps the first unlock epoch.
    assert_eq!(pool.unstake(YOCTO_PER_NEAR, &ctx("vault.near", 0, 12)), Ok(()));
    let acc = pool.accounts[0].1;
    assert_eq!(acc.unstaked_available_epoch_height, 10 + UNSTAKE_DELAY_EPOCHS);

    assert_eq!(
        pool.withdraw_all(&ctx("vault.near", 0, 13)),
        Err(PoolError::NotMatured { current: 13, required: 14 })
    );
    let c = pool.withdraw_all(&ctx("vault.near", 0, 14)).expect("withdrawn");
    assert_eq!(c.calls, vec![Call::Transfer { receiver: "vault.near".to_string(), amount: 2 * YOCTO_PER_NEAR }]);
    assert_eq!(pool.get_account_unstaked_balance("vault.near".to_string()), 0);
    assert_eq!(pool.withdraw_all(&ctx("vault.near", 0, 20)), Err(PoolError::NoUnstaked));
}

#[test]
fn pool_refusals() {
    let mut pool = MockStakingPool::new();
    assert_eq!(pool.deposit_and_stake(&ctx("vault.near", 0, 0)), Err(PoolError::NoDeposit));
    assert_eq!(pool.unstake(1, &ctx("vault.near", 0, 0)), Err(PoolError::NotEnoughStaked));
    assert_eq!(pool.get_account_staked_balance("nobody.near".to_string()), 0);
    assert_eq!(Account::default(), Account { unstaked: 0, stake_shares: 0, unstaked_available_epoch_height: 0 });
    assert_eq!(StorageKey::Accounts.into_storage_key(), vec![0u8]);
    pool.noop();
}

#[test]
fn pool_total_is_sum_of_stakes() {
    let mut pool = MockStakingPool::new();
    pool.deposit_and_stake(&ctx("a.near", 5, 0)).unwrap();
    pool.deposit_and_stake(&ctx("b.near", 7, 0)).unwrap();
    pool.deposit_and_stake(&ctx("a.near", 1, 0)).unwrap();
    pool.unstake(4, &ctx("b.near", 0, 0)).unwrap();
    let sum: u128 = pool.accounts.iter().map(|(_, a)| a.stake_shares).sum();
    assert_eq!(pool.total_staked_balance, sum);
    assert_eq!(sum, 9);
}
