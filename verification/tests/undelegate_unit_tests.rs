use sudostake::error::VaultError;
use sudostake::fixtures::{alice, create_valid_liquidity_request, get_context, owner};
use sudostake::promise::{Call, Callback};
use sudostake::types::{ProcessingState, UnstakeEntry, YOCTO_PER_NEAR};
use sudostake::vault::Vault;

fn validator() -> String {
    "validator.poolv1.near".to_string()
}

fn vault_with_validator() -> Vault {
    let mut vault = Vault::new(owner(), 0, 1);
    vault.active_validators.push(validator());
    vault
}

fn entry(vault: &Vault, v: &str) -> Option<UnstakeEntry> {
    vault.unstake_entries.iter().find(|(k, _)| k == v).map(|(_, e)| *e)
}

fn is_active(vault: &Vault, v: &str) -> bool {
    vault.active_validators.iter().any(|x| x == v)
}

#[test]
fn test_undelegate_fails_without_yocto() {
    let env = get_context(owner(), 10 * YOCTO_PER_NEAR, None);
    let mut vault = vault_with_validator();
    assert_eq!(vault.undelegate(validator(), YOCTO_PER_NEAR, &env), Err(VaultError::RequiresOneYocto));
}

#[test]
fn test_undelegate_fails_if_not_owner() {
    let env = get_context(alice(), 10 * YOCTO_PER_NEAR, Some(1));
    let mut vault = vault_with_validator();
    assert_eq!(vault.undelegate(validator(), YOCTO_PER_NEAR, &env), Err(VaultError::NotOwner));
}

#[test]
fn test_undelegate_fails_if_zero_amount() {
    let env = get_context(owner(), 10 * YOCTO_PER_NEAR, Some(1));
    let mut vault = vault_with_validator();
    assert_eq!(vault.undelegate(validator(), 0, &env), Err(VaultError::ZeroAmount));
}

#[test]
fn test_undelegate_fails_if_validator_not_active() {
    let env = get_context(owner(), 10 * YOCTO_PER_NEAR, Some(1));
    let mut vault = Vault::new(owner(), 0, 1);
    assert_eq!(vault.undelegate(validator(), YOCTO_PER_NEAR, &env), Err(VaultError::ValidatorNotActive));
}

#[test]
fn test_undelegate_fails_if_liquidity_request_open() {
    let env = get_context(owner(), 10 * YOCTO_PER_NEAR, Some(1));
    let mut vault = vault_with_validator();
    vault.liquidity_request = Some(create_valid_liquidity_request("usdc.test.near".to_string()));
    assert_eq!(
        vault.undelegate(validator(), YOCTO_PER_NEAR, &env),
        Err(VaultError::UndelegateWithRequestOpen)
    );
}

#[test]
fn test_undelegate_fails_if_lock_active() {
    let env = get_context(owner(), 10 * YOCTO_PER_NEAR, Some(1));
    let mut vault = vault_with_validator();
    vault.undelegate(validator(), YOCTO_PER_NEAR, &env).expect("first undelegation starts");
    assert_eq!(
        vault.undelegate(validator(), YOCTO_PER_NEAR, &env),
        Err(VaultError::Busy(ProcessingState::Undelegate))
    );
}

#[test]
fn test_undelegate_succeeds_when_all_conditions_met() {
    let env = get_context(owner(), 10 * YOCTO_PER_NEAR, Some(1));
    let mut vault = vault_with_validator();
    let result = vault.undelegate(validator(), YOCTO_PER_NEAR, &env).expect("undelegation starts");
    assert_eq!(result.calls, vec![Call::Unstake { validator: validator(), amount: YOCTO_PER_NEAR }]);
    assert_eq!(
        result.callback,
        Some(Callback::OnUnstakeComplete { validator: validator(), amount: YOCTO_PER_NEAR })
    );
    assert_eq!(vault.processing_state, ProcessingState::Undelegate);
}

#[test]
fn test_on_unstake_complete_inserts_new_entry() {
    let env = get_context(owner(), 10 * YOCTO_PER_NEAR, None);
    let mut vault = Vault::new(owner(), 0, 1);
    let amount = 2 * YOCTO_PER_NEAR;
    let next = vault.on_unstake_complete(validator(), amount, true, &env);
    let e = entry(&vault, &validator()).expect("Expected unstake entry to exist");
    assert_eq!(e.amount, amount);
    assert_eq!(e.epoch_height, env.epoch_height);
    assert_eq!(next.calls, vec![Call::GetAccountStakedBalance { validator: validator() }]);
}

#[test]
fn test_on_unstake_complete_updates_existing_entry() {
    let env = get_context(owner(), 10 * YOCTO_PER_NEAR, None);
    let mut vault = Vault::new(owner(), 0, 1);
    let initial_amount = YOCTO_PER_NEAR;
    vault.unstake_entries.push((validator(), UnstakeEntry { amount: initial_amount, epoch_height: 100 }));
    let additional = 2 * YOCTO_PER_NEAR;
    vault.on_unstake_complete(validator(), additional, true, &env);
    let updated = entry(&vault, &validator()).expect("Expected unstake entry to exist");
    assert_eq!(updated.amount, initial_amount + additional);
    assert_eq!(updated.epoch_height, env.epoch_height);
}

#[test]
fn test_on_unstake_complete_handles_failure_and_unlocks() {
    let env = get_context(owner(), 10 * YOCTO_PER_NEAR, None);
    let mut vault = Vault::new(owner(), 0, 1);
    vault.processing_state = ProcessingState::Undelegate;
    vault.processing_since = env.block_timestamp;
    let next = vault.on_unstake_complete(validator(), YOCTO_PER_NEAR, false, &env);
    assert_eq!(vault.processing_state, ProcessingState::Idle, "Expected lock to be cleared");
    assert!(next.calls.is_empty() && next.callback.is_none());
}

#[test]
fn test_on_account_staked_balance_removes_validator_if_balance_zero() {
    let mut vault = vault_with_validator();
    vault.on_account_staked_balance(validator(), Some(0));
    assert!(!is_active(&vault, &validator()), "Validator should be removed if balance is zero");
}

#[test]
fn test_on_account_staked_balance_keeps_validator_if_balance_nonzero() {
    let mut vault = vault_with_validator();
    vault.on_account_staked_balance(validator(), Some(1_000_000));
    assert!(is_active(&vault, &validator()), "Validator should remain if balance is non-zero");
}

#[test]
fn test_on_account_staked_balance_handles_failure_and_keeps_validator() {
    let mut vault = vault_with_validator();
    vault.on_account_staked_balance(validator(), None);
    assert!(is_active(&vault, &validator()), "Validator should remain if staked balance callback fails");
}
