use sudostake::error::VaultError;
use sudostake::fixtures::{alice, bob, get_context, insert_refund_entry, owner};
use sudostake::promise::{Call, Callback};
use sudostake::types::{RefundEntry, REFUND_EXPIRY_EPOCHS, YOCTO_PER_NEAR};
use sudostake::vault::Vault;

fn refund(vault: &Vault, id: u64) -> Option<RefundEntry> {
    vault.refund_list.iter().find(|(k, _)| *k == id).map(|(_, e)| e.clone())
}

#[test]
fn test_on_refund_complete_success_does_nothing() {
    let env = get_context(alice(), 10 * YOCTO_PER_NEAR, None);
    let mut vault = Vault::new(alice(), 0, 1);
    vault.on_refund_complete(None, alice(), 1_000_000, "usdc.mock.near".to_string(), true, &env);
    assert!(vault.refund_list.is_empty(), "Refund list should remain empty on successful refund");
}

#[test]
fn test_on_refund_complete_failure_adds_refund_entry() {
    let env = get_context(alice(), 10 * YOCTO_PER_NEAR, None);
    let mut vault = Vault::new(alice(), 0, 1);
    let proposer = alice();
    let token = "usdc.mock.near".to_string();
    let amount = 2_000_000;
    vault.on_refund_complete(None, proposer.clone(), amount, token.clone(), false, &env);
    let entry = refund(&vault, 0).expect("Refund entry not added");
    assert_eq!(entry.proposer, proposer);
    assert_eq!(entry.amount, amount);
    assert_eq!(entry.token, Some(token));
}

#[test]
fn test_retry_refunds_owner_can_retry_all_entries() {
    let env = get_context(owner(), 10 * YOCTO_PER_NEAR, Some(1));
    let mut vault = Vault::new(owner(), 0, 1);
    insert_refund_entry(
        &mut vault,
        0,
        RefundEntry {
            proposer: alice(),
            amount: 1_000_000,
            token: Some("usdc.mock.near".to_string()),
            added_at_epoch: 0,
        },
    );
    insert_refund_entry(
        &mut vault,
        1,
        RefundEntry { proposer: bob(), amount: 2_000_000, token: None, added_at_epoch: 0 },
    );
    let retries = vault.retry_refunds(&env).expect("owner retries");
    assert!(vault.refund_list.is_empty(), "All refund entries should be removed after retry_refunds by owner");
    assert_eq!(retries.len(), 2);
    assert_eq!(
        retries[0].calls,
        vec![Call::FtTransfer { token: "usdc.mock.near".to_string(), receiver: alice(), amount: 1_000_000 }]
    );
    assert_eq!(retries[1].calls, vec![Call::Transfer { receiver: bob(), amount: 2_000_000 }]);
    assert!(matches!(&retries[1].callback, Some(Callback::OnRetryRefundComplete { id: 1, .. })));
}

#[test]
fn test_retry_refunds_skips_expired_entries() {
    let mut env = get_context(owner(), 10 * YOCTO_PER_NEAR, Some(1));
    env.epoch_height = REFUND_EXPIRY_EPOCHS + 5;
    let mut vault = Vault::new(owner(), 0, 1);
    insert_refund_entry(
        &mut vault,
        0,
        RefundEntry { proposer: alice(), amount: 1_000_000, token: None, added_at_epoch: 0 },
    );
    let retries = vault.retry_refunds(&env).expect("owner retries");
    assert!(vault.refund_list.is_empty(), "Expired refund entry should be removed");
    assert!(retries.is_empty(), "An expired refund is dropped, not sent again");
}

#[test]
fn test_retry_refunds_proposer_can_only_retry_their_own_entries() {
    let env = get_context(alice(), 10 * YOCTO_PER_NEAR, Some(1));
    let mut vault = Vault::new(owner(), 0, 1);
    insert_refund_entry(
        &mut vault,
        0,
        RefundEntry { proposer: alice(), amount: 500_000, token: None, added_at_epoch: 0 },
    );
    insert_refund_entry(
        &mut vault,
        1,
        RefundEntry {
            proposer: bob(),
            amount: 1_000_000,
            token: Some("usdc.mock.near".to_string()),
            added_at_epoch: 0,
        },
    );
    vault.retry_refunds(&env).expect("alice retries her own refund");
    assert!(refund(&vault, 0).is_none(), "Alice's refund entry should be removed after retry");
    assert!(refund(&vault, 1).is_some(), "Owner's refund entry should remain");
}

#[test]
fn test_retry_refunds_panics_if_no_entries_found() {
    let env = get_context(bob(), 10 * YOCTO_PER_NEAR, Some(1));
    let mut vault = Vault::new(owner(), 0, 1);
    insert_refund_entry(
        &mut vault,
        0,
        RefundEntry {
            proposer: alice(),
            amount: 1_000_000,
            token: Some("usdc.mock.near".to_string()),
            added_at_epoch: 0,
        },
    );
    let before = vault.clone();
    assert_eq!(vault.retry_refunds(&env), Err(VaultError::NoRefundableEntries));
    assert_eq!(vault, before);
}

#[test]
fn test_retry_refunds_panics_without_one_yocto() {
    let env = get_context(owner(), 10 * YOCTO_PER_NEAR, None);
    let mut vault = Vault::new(owner(), 0, 1);
    insert_refund_entry(
        &mut vault,
        0,
        RefundEntry { proposer: alice(), amount: 1_000_000, token: None, added_at_epoch: 0 },
    );
    assert_eq!(vault.retry_refunds(&env), Err(VaultError::RequiresOneYocto));
}

#[test]
fn test_on_retry_refund_complete_success_removes_entry() {
    let env = get_context(owner(), 10 * YOCTO_PER_NEAR, None);
    let mut vault = Vault::new(owner(), 0, 1);
    let refund_id = 42;
    let entry = RefundEntry {
        proposer: alice(),
        amount: 750_000,
        token: Some("usdc.mock.near".to_string()),
        added_at_epoch: 0,
    };
    vault.on_retry_refund_complete(refund_id, entry, true, &env);
    assert!(refund(&vault, refund_id).is_none(), "Refund entry should be permanently removed on success");
}

#[test]
fn test_on_retry_refund_complete_failure_re_adds_if_not_expired() {
    let mut env = get_context(owner(), 10 * YOCTO_PER_NEAR, None);
    env.epoch_height = 3;
    let mut vault = Vault::new(owner(), 0, 1);
    let refund_id = 7;
    let entry = RefundEntry { proposer: alice(), amount: 1_500_000, token: None, added_at_epoch: 1 };
    vault.on_retry_refund_complete(refund_id, entry, false, &env);
    let stored = refund(&vault, refund_id);
    assert!(stored.is_some(), "Refund entry should be re-added after failed retry if not expired");
    assert_eq!(stored.unwrap().added_at_epoch, 3, "the entry is stamped with the current epoch");
}

#[test]
fn test_on_retry_refund_complete_failure_discards_if_expired() {
    let mut env = get_context(owner(), 10 * YOCTO_PER_NEAR, None);
    env.epoch_height = 20;
    let mut vault = Vault::new(owner(), 0, 1);
    let refund_id = 9;
    let entry = RefundEntry {
        proposer: alice(),
        amount: 2_000_000,
        token: Some("usdc.mock.near".to_string()),
        added_at_epoch: 0,
    };
    vault.on_retry_refund_complete(refund_id, entry, false, &env);
    assert!(refund(&vault, refund_id).is_none(), "Refund entry should be discarded after failed retry if expired");
}

#[test]
fn test_on_retry_refund_complete_success_for_near_removes_entry() {
    let env = get_context(owner(), 10 * YOCTO_PER_NEAR, None);
    let mut vault = Vault::new(owner(), 0, 1);
    let refund_id = 10;
    let entry = RefundEntry { proposer: alice(), amount: 3_000_000, token: None, added_at_epoch: 2 };
    vault.on_retry_refund_complete(refund_id, entry, true, &env);
    assert!(refund(&vault, refund_id).is_none(), "NEAR refund entry should be removed on successful retry");
}

#[test]
fn failed_refund_then_retry_round_trip() {
    // A failed first refund is recorded, retried by its proposer, and after a
    // second failure within the expiry window it is back under the same id.
    let env = get_context(alice(), 10 * YOCTO_PER_NEAR, Some(1));
    let mut vault = Vault::new(owner(), 0, 1);
    vault.on_refund_complete(None, alice(), 900_000, "usdc.mock.near".to_string(), false, &env);
    let retries = vault.retry_refunds(&env).expect("alice retries");
    assert_eq!(retries.len(), 1);
    let (id, entry) = match &retries[0].callback {
        Some(Callback::OnRetryRefundComplete { id, entry }) => (*id, entry.clone()),
        other => panic!("unexpected callback {:?}", other),
    };
    assert_eq!(id, 0);
    assert!(vault.refund_list.is_empty());
    vault.on_retry_refund_complete(id, entry.clone(), false, &env);
    assert_eq!(refund(&vault, 0), Some(entry));
}
