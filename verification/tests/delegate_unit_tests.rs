use sudostake::error::VaultError;
use sudostake::fixtures::{alice, get_context, insert_refund_entry, owner};
use sudostake::promise::{Call, Callback};
use sudostake::types::{Liquidation, ProcessingState, RefundEntry, MAX_ACTIVE_VALIDATORS, STORAGE_BUFFER, YOCTO_PER_NEAR};
use sudostake::vault::Vault;

fn validator() -> String {
    "validator.poolv1.near".to_string()
}

fn is_active(vault: &Vault, v: &str) -> bool {
    vault.active_validators.iter().any(|x| x == v)
}

fn maxed_vault() -> Vault {
    let mut vault = Vault::new(owner(), 0, 1);
    for i in 0..MAX_ACTIVE_VALIDATORS {
        vault.active_validators.push(format!("v{}.poolv1.near", i));
    }
    vault
}

#[test]
fn test_delegate_fails_if_no_attached_deposit() {
    let env = get_context(owner(), 10 * YOCTO_PER_NEAR, None);
    let mut vault = Vault::new(owner(), 0, 1);
    assert_eq!(vault.delegate(validator(), 1, &env), Err(VaultError::RequiresOneYocto));
}

#[test]
fn test_delegate_fails_if_not_owner() {
    let env = get_context(alice(), 10 * YOCTO_PER_NEAR, Some(1));
    let mut vault = Vault::new(owner(), 0, 1);
    assert_eq!(vault.delegate(validator(), 1, &env), Err(VaultError::NotOwner));
}

#[test]
fn test_delegate_fails_if_max_active_validators_reached() {
    let env = get_context(owner(), 10 * YOCTO_PER_NEAR, Some(1));
    let mut vault = maxed_vault();
    assert_eq!(
        vault.delegate("overflow.poolv1.near".to_string(), YOCTO_PER_NEAR, &env),
        Err(VaultError::TooManyValidators)
    );
}

#[test]
fn test_delegate_fails_if_zero_amount() {
    let env = get_context(owner(), 10 * YOCTO_PER_NEAR, Some(1));
    let mut vault = Vault::new(owner(), 0, 1);
    assert_eq!(vault.delegate(validator(), 0, &env), Err(VaultError::ZeroAmount));
}

#[test]
fn test_delegate_fails_if_insufficient_balance() {
    let env = get_context(owner(), YOCTO_PER_NEAR, Some(1));
    let mut vault = Vault::new(owner(), 0, 1);
    assert_eq!(
        vault.delegate(validator(), YOCTO_PER_NEAR, &env),
        Err(VaultError::ExceedsAvailable { requested: YOCTO_PER_NEAR, available: YOCTO_PER_NEAR - STORAGE_BUFFER })
    );
}

#[test]
fn test_delegate_fails_when_refund_list_not_empty() {
    let env = get_context(owner(), 10 * YOCTO_PER_NEAR, Some(1));
    let mut vault = Vault::new(owner(), 0, 1);
    insert_refund_entry(
        &mut vault,
        0,
        RefundEntry {
            proposer: "alice.near".to_string(),
            amount: 1_000_000,
            token: Some("usdc.mock.near".to_string()),
            added_at_epoch: 0,
        },
    );
    assert_eq!(vault.delegate(validator(), YOCTO_PER_NEAR, &env), Err(VaultError::PendingRefundsDelegate));
}

#[test]
fn test_delegate_fails_if_liquidation_active() {
    let env = get_context(owner(), 10 * YOCTO_PER_NEAR, Some(1));
    let mut vault = Vault::new(owner(), 0, 1);
    vault.liquidation = Some(Liquidation { liquidated: 0 });
    assert_eq!(
        vault.delegate(validator(), YOCTO_PER_NEAR, &env),
        Err(VaultError::DelegateDuringLiquidation)
    );
}

#[test]
fn test_delegate_fails_if_lock_active() {
    let env = get_context(owner(), 10 * YOCTO_PER_NEAR, Some(1));
    let mut vault = Vault::new(owner(), 0, 1);
    vault.delegate(validator(), YOCTO_PER_NEAR, &env).expect("first delegation starts");
    assert_eq!(
        vault.delegate("another.poolv1.near".to_string(), YOCTO_PER_NEAR, &env),
        Err(VaultError::Busy(ProcessingState::Delegate))
    );
}

#[test]
fn test_delegate_success_does_not_panic() {
    let env = get_context(owner(), 10 * YOCTO_PER_NEAR, Some(1));
    let mut vault = Vault::new(owner(), 0, 1);
    let result = vault.delegate(validator(), YOCTO_PER_NEAR, &env).expect("delegation starts");
    assert_eq!(result.calls, vec![Call::DepositAndStake { validator: validator(), amount: YOCTO_PER_NEAR }]);
    assert_eq!(
        result.callback,
        Some(Callback::OnDepositAndStake { validator: validator(), amount: YOCTO_PER_NEAR })
    );
}

#[test]
fn test_on_deposit_and_stake_success_adds_validator() {
    let mut vault = Vault::new(owner(), 0, 1);
    vault.on_deposit_and_stake(validator(), true);
    assert!(is_active(&vault, &validator()), "Validator should be marked as active after successful delegation");
}

#[test]
fn test_delegate_allows_existing_validator_even_if_maxed() {
    let env = get_context(owner(), 10 * YOCTO_PER_NEAR, Some(1));
    let mut vault = maxed_vault();
    let result = vault.delegate("v0.poolv1.near".to_string(), YOCTO_PER_NEAR, &env);
    assert!(result.is_ok());
}

#[test]
fn test_on_deposit_and_stake_handles_error_without_panic() {
    let env = get_context(owner(), 10 * YOCTO_PER_NEAR, Some(1));
    let mut vault = Vault::new(owner(), 0, 1);
    vault.delegate(validator(), YOCTO_PER_NEAR, &env).expect("delegation starts");
    assert_eq!(vault.processing_state, ProcessingState::Delegate, "Expected processing_state to be Delegate");
    vault.on_deposit_and_stake(validator(), false);
    assert!(!is_active(&vault, &validator()), "Validator should not be added on callback failure");
    assert_eq!(vault.processing_state, ProcessingState::Idle, "Lock should be released after failed callback");
}

#[test]
fn test_on_deposit_and_stake_releases_lock_on_success() {
    let env = get_context(owner(), 10 * YOCTO_PER_NEAR, Some(1));
    let mut vault = Vault::new(owner(), 0, 1);
    vault.delegate(validator(), YOCTO_PER_NEAR, &env).expect("delegation starts");
    assert_eq!(vault.processing_state, ProcessingState::Delegate, "Expected processing_state to be Delegate");
    vault.on_deposit_and_stake(validator(), true);
    assert!(is_active(&vault, &validator()), "Validator should be added on successful callback");
    assert_eq!(vault.processing_state, ProcessingState::Idle, "Processing lock should be cleared after success");
}

#[test]
fn delegating_twice_to_one_validator_keeps_one_entry() {
    let mut vault = Vault::new(owner(), 0, 1);
    vault.on_deposit_and_stake(validator(), true);
    vault.on_deposit_and_stake(validator(), true);
    assert_eq!(vault.active_validators, vec![validator()]);
}
