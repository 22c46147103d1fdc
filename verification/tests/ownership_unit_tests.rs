use sudostake::error::VaultError;
use sudostake::fixtures::{alice, get_context, owner};
use sudostake::types::{ProcessingState, YOCTO_PER_NEAR, LOCK_TIMEOUT};
use sudostake::vault::Vault;

#[test]
fn test_list_for_takeover_success() {
    let env = get_context(owner(), 10 * YOCTO_PER_NEAR, Some(1));
    let mut vault = Vault::new(owner(), 0, 1);
    assert!(!vault.is_listed_for_takeover);
    assert_eq!(vault.list_for_takeover(&env), Ok(()));
    assert!(vault.is_listed_for_takeover);
}

#[test]
fn test_list_for_takeover_requires_1yocto() {
    let env = get_context(owner(), 10 * YOCTO_PER_NEAR, None);
    let mut vault = Vault::new(owner(), 0, 1);
    assert_eq!(vault.list_for_takeover(&env), Err(VaultError::RequiresOneYocto));
}

#[test]
fn test_list_for_takeover_requires_owner() {
    let env = get_context(alice(), 10 * YOCTO_PER_NEAR, Some(1));
    let mut vault = Vault::new(owner(), 0, 1);
    assert_eq!(vault.list_for_takeover(&env), Err(VaultError::NotOwner));
}

#[test]
fn test_list_for_takeover_fails_if_already_listed() {
    let env = get_context(owner(), 10 * YOCTO_PER_NEAR, Some(1));
    let mut vault = Vault::new(owner(), 0, 1);
    vault.list_for_takeover(&env).unwrap();
    assert_eq!(vault.list_for_takeover(&env), Err(VaultError::AlreadyListed));
}

#[test]
fn test_cancel_takeover_success() {
    let env = get_context(owner(), 10 * YOCTO_PER_NEAR, Some(1));
    let mut vault = Vault::new(owner(), 0, 1);
    vault.is_listed_for_takeover = true;
    assert_eq!(vault.cancel_takeover(&env), Ok(()));
    assert!(!vault.is_listed_for_takeover, "Vault should no longer be listed");
}

#[test]
fn test_cancel_takeover_requires_1yocto() {
    let env = get_context(owner(), 10 * YOCTO_PER_NEAR, None);
    let mut vault = Vault::new(owner(), 0, 1);
    vault.is_listed_for_takeover = true;
    assert_eq!(vault.cancel_takeover(&env), Err(VaultError::RequiresOneYocto));
}

#[test]
fn test_cancel_takeover_rejects_non_owner() {
    let env = get_context(alice(), 10 * YOCTO_PER_NEAR, Some(1));
    let mut vault = Vault::new(owner(), 0, 1);
    vault.is_listed_for_takeover = true;
    assert_eq!(vault.cancel_takeover(&env), Err(VaultError::NotOwner));
}

#[test]
fn test_cancel_takeover_fails_if_not_listed() {
    let env = get_context(owner(), 10 * YOCTO_PER_NEAR, Some(1));
    let mut vault = Vault::new(owner(), 0, 1);
    assert_eq!(vault.cancel_takeover(&env), Err(VaultError::NotListed));
}

#[test]
fn transfer_ownership_test_transfer_ownership_success() {
    let env = get_context(owner(), 10 * YOCTO_PER_NEAR, Some(1));
    let mut vault = Vault::new(owner(), 0, 1);
    assert_eq!(vault.transfer_ownership(alice(), &env), Ok(()));
    assert_eq!(vault.owner, alice(), "Vault owner was not updated correctly");
}

#[test]
fn test_transfer_ownership_rejects_non_owner() {
    let env = get_context(alice(), 10 * YOCTO_PER_NEAR, Some(1));
    let mut vault = Vault::new(owner(), 0, 1);
    assert_eq!(vault.transfer_ownership(alice(), &env), Err(VaultError::NotOwner));
}

#[test]
fn test_transfer_ownership_rejects_same_owner() {
    let env = get_context(owner(), 10 * YOCTO_PER_NEAR, Some(1));
    let mut vault = Vault::new(owner(), 0, 1);
    assert_eq!(vault.transfer_ownership(owner(), &env), Err(VaultError::SameOwner));
}

#[test]
fn test_transfer_ownership_requires_1yocto() {
    let env = get_context(owner(), 10 * YOCTO_PER_NEAR, None);
    let mut vault = Vault::new(owner(), 0, 1);
    assert_eq!(vault.transfer_ownership(alice(), &env), Err(VaultError::RequiresOneYocto));
}

#[test]
fn initialization_test_vault_initialization() {
    let vault = Vault::new(alice(), 0, 1);
    assert_eq!(vault.owner, alice());
    assert_eq!(vault.index, 0);
    assert_eq!(vault.version, 1);
    assert!(vault.active_validators.is_empty());
    assert!(vault.unstake_entries.is_empty());
}

#[test]
fn listing_clears_a_stale_lock() {
    let mut env = get_context(owner(), 10 * YOCTO_PER_NEAR, Some(1));
    env.block_timestamp = LOCK_TIMEOUT + 10;
    let mut vault = Vault::new(owner(), 0, 1);
    vault.processing_state = ProcessingState::Delegate;
    vault.processing_since = 5;
    assert_eq!(vault.list_for_takeover(&env), Ok(()));
    assert_eq!(vault.processing_state, ProcessingState::Idle);
    assert_eq!(vault.processing_since, 0);
}

#[test]
fn listing_refused_under_fresh_lock() {
    let env = get_context(owner(), 10 * YOCTO_PER_NEAR, Some(1));
    let mut vault = Vault::new(owner(), 0, 1);
    vault.processing_state = ProcessingState::Delegate;
    assert_eq!(vault.list_for_takeover(&env), Err(VaultError::Busy(ProcessingState::Delegate)));
    assert!(!vault.is_listed_for_takeover);
}

#[test]
fn unit_test_test_vault_initialization() {
    let vault = Vault::new(alice(), 0, 1);
    assert_eq!(vault.owner, alice());
    assert_eq!(vault.index, 0);
    assert_eq!(vault.version, 1);
    assert!(vault.active_validators.is_empty());
    assert!(vault.unstake_entries.is_empty());
}
