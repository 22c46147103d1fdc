use sudostake::error::VaultError;
use sudostake::fixtures::{alice, get_context, owner};
use sudostake::ownership::ClaimOutcome;
use sudostake::promise::{Call, Callback};
use sudostake::types::{ProcessingState, YOCTO_PER_NEAR};
use sudostake::vault::Vault;

fn price() -> u128 {
    let probe = get_context(alice(), 10 * YOCTO_PER_NEAR, None);
    Vault::new(owner(), 0, 1).get_storage_cost(&probe)
}

#[test]
fn test_claim_vault_starts_promise_transfer() {
    let mut vault = Vault::new(owner(), 0, 1);
    vault.is_listed_for_takeover = true;
    let required_deposit = price();
    let env = get_context(alice(), 10 * YOCTO_PER_NEAR, Some(required_deposit));
    let c = vault.claim_vault(&env).expect("takeover starts");
    assert_eq!(vault.processing_state, ProcessingState::ClaimVault, "Vault should remain locked until callback resolves");
    assert_eq!(c.calls, vec![Call::Transfer { receiver: owner(), amount: required_deposit }]);
    assert_eq!(
        c.callback,
        Some(Callback::OnClaimVaultComplete { old_owner: owner(), new_owner: alice(), amount: required_deposit })
    );
    assert!(!vault.is_listed_for_takeover);
}

#[test]
fn test_claim_vault_rejects_if_not_listed() {
    let mut vault = Vault::new(owner(), 0, 1);
    let env = get_context(alice(), 10 * YOCTO_PER_NEAR, Some(price()));
    assert_eq!(vault.claim_vault(&env), Err(VaultError::NotListed));
}

#[test]
fn test_claim_vault_rejects_if_pending_claim_exists() {
    let mut vault = Vault::new(owner(), 0, 1);
    vault.is_listed_for_takeover = true;
    vault.processing_state = ProcessingState::ClaimVault;
    let env = get_context(alice(), 10 * YOCTO_PER_NEAR, Some(price()));
    assert_eq!(vault.claim_vault(&env), Err(VaultError::Busy(ProcessingState::ClaimVault)));
}

#[test]
fn test_claim_vault_rejects_self_claim() {
    let mut vault = Vault::new(owner(), 0, 1);
    vault.is_listed_for_takeover = true;
    let env = get_context(owner(), 10 * YOCTO_PER_NEAR, Some(price()));
    assert_eq!(vault.claim_vault(&env), Err(VaultError::OwnerCannotClaim));
}

#[test]
fn test_claim_vault_rejects_wrong_deposit() {
    let env = get_context(alice(), 10 * YOCTO_PER_NEAR, Some(YOCTO_PER_NEAR));
    let mut vault = Vault::new(owner(), 0, 1);
    vault.is_listed_for_takeover = true;
    assert_eq!(vault.claim_vault(&env), Err(VaultError::WrongPurchasePrice { price: price() }));
}

#[test]
fn test_on_claim_vault_complete_succeeds() {
    let old_owner = owner();
    let new_owner = alice();
    let amount: u128 = 10_000_000_000_000_000_000_000;
    let env = get_context(old_owner.clone(), 10 * YOCTO_PER_NEAR, None);
    let mut vault = Vault::new(old_owner.clone(), 0, 1);
    vault.is_listed_for_takeover = true;
    let outcome = vault.on_claim_vault_complete(old_owner, new_owner.clone(), amount, true, &env);
    assert_eq!(vault.owner, new_owner, "Ownership was not transferred");
    assert!(!vault.is_listed_for_takeover, "Vault should not be listed anymore");
    assert_eq!(outcome, ClaimOutcome::Claimed);
    assert_eq!(vault.processing_state, ProcessingState::Idle, "Processing lock should be released after success");
}

#[test]
fn test_on_claim_vault_failed() {
    let old_owner = owner();
    let new_owner = alice();
    let amount: u128 = 10_000_000_000_000_000_000_000;
    let env = get_context(old_owner.clone(), 10 * YOCTO_PER_NEAR, None);
    let mut vault = Vault::new(old_owner.clone(), 0, 1);
    vault.is_listed_for_takeover = true;
    let outcome = vault.on_claim_vault_complete(old_owner, new_owner.clone(), amount, false, &env);
    assert_eq!(outcome, ClaimOutcome::TransferFailed);
    assert_eq!(vault.refund_list.len(), 1, "Expected one refund entry");
    let (_, refund) = &vault.refund_list[0];
    assert_eq!(refund.token, None, "Refund should be in native NEAR");
    assert_eq!(&refund.proposer, &new_owner, "Refund should go to the new_owner");
    assert_eq!(refund.amount, amount, "Refund amount should match the takeover price");
    assert_eq!(vault.processing_state, ProcessingState::Idle, "Processing lock should be released after failure");
}

#[test]
fn takeover_round_trip_hands_vault_to_buyer() {
    let mut vault = Vault::new(owner(), 0, 1);
    vault.is_listed_for_takeover = true;
    let env = get_context(alice(), 10 * YOCTO_PER_NEAR, Some(price()));
    vault.claim_vault(&env).expect("takeover starts");
    let outcome = vault.on_claim_vault_complete(owner(), alice(), price(), true, &env);
    assert_eq!(outcome, ClaimOutcome::Claimed);
    assert_eq!(vault.owner, alice());
    assert!(!vault.is_listed_for_takeover);
    assert_eq!(vault.processing_state, ProcessingState::Idle);
}

#[test]
fn stale_takeover_is_refunded_and_relisted() {
    let mut vault = Vault::new(owner(), 0, 1);
    vault.is_listed_for_takeover = true;
    let env = get_context(alice(), 10 * YOCTO_PER_NEAR, Some(price()));
    vault.claim_vault(&env).expect("takeover starts");
    vault.owner = "someone.near".to_string();
    let outcome = vault.on_claim_vault_complete(owner(), alice(), price(), true, &env);
    assert_eq!(outcome, ClaimOutcome::Stale);
    assert_eq!(vault.owner, "someone.near");
    assert!(vault.is_listed_for_takeover);
    assert_eq!(vault.refund_list.len(), 1);
}
