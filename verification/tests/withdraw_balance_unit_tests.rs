use sudostake::env::Env;
use sudostake::error::VaultError;
use sudostake::fixtures::{alice, get_context, insert_refund_entry, owner};
use sudostake::promise::Call;
use sudostake::types::{AcceptedOffer, Liquidation, LiquidityRequest, RefundEntry, STORAGE_BUFFER, YOCTO_PER_NEAR};
use sudostake::vault::Vault;

fn usdc_request() -> LiquidityRequest {
    LiquidityRequest {
        token: "usdc.near".to_string(),
        amount: 1_000_000,
        interest: 100_000,
        collateral: 5 * YOCTO_PER_NEAR,
        duration: 86400,
        created_at: 0,
    }
}

fn pending_refund() -> RefundEntry {
    RefundEntry {
        token: Some("usdc.near".to_string()),
        proposer: alice(),
        amount: 1_000_000,
        added_at_epoch: 0,
    }
}

#[test]
fn owner_can_withdraw_near_successfully() {
    let env = get_context(owner(), 5 * YOCTO_PER_NEAR, Some(1));
    let vault = Vault::new(owner(), 0, 1);
    let c = vault.withdraw_balance(None, YOCTO_PER_NEAR, None, &env).expect("withdrawal proceeds");
    assert_eq!(c.calls, vec![Call::Transfer { receiver: owner(), amount: YOCTO_PER_NEAR }]);
}

#[test]
fn withdraw_near_insufficient_balance_should_panic() {
    let env = get_context(owner(), YOCTO_PER_NEAR, Some(1));
    let vault = Vault::new(owner(), 0, 1);
    assert_eq!(
        vault.withdraw_balance(None, 5 * YOCTO_PER_NEAR, None, &env),
        Err(VaultError::NotEnoughBalance { available: YOCTO_PER_NEAR - STORAGE_BUFFER, requested: 5 * YOCTO_PER_NEAR })
    );
}

#[test]
fn non_owner_cannot_withdraw_should_panic() {
    let env = get_context(alice(), 10 * YOCTO_PER_NEAR, Some(1));
    let vault = Vault::new(owner(), 0, 1);
    assert_eq!(vault.withdraw_balance(None, YOCTO_PER_NEAR, None, &env), Err(VaultError::NotOwner));
}

#[test]
fn test_disallow_withdrawal_if_refund_list_not_empty() {
    let env = get_context(owner(), 5 * YOCTO_PER_NEAR, Some(1));
    let mut vault = Vault::new(owner(), 0, 1);
    insert_refund_entry(&mut vault, 0, pending_refund());
    assert_eq!(
        vault.withdraw_balance(None, YOCTO_PER_NEAR, None, &env),
        Err(VaultError::PendingRefundsWithdraw)
    );
}

#[test]
fn test_disallow_nep_withdrawal_if_refund_list_not_empty() {
    let env = get_context(owner(), 5 * YOCTO_PER_NEAR, Some(1));
    let mut vault = Vault::new(owner(), 0, 1);
    insert_refund_entry(&mut vault, 0, pending_refund());
    assert_eq!(
        vault.withdraw_balance(Some("usdc.near".to_string()), 1_000_000, None, &env),
        Err(VaultError::PendingRefundsWithdraw)
    );
}

#[test]
fn owner_can_withdraw_nep141_with_one_yocto() {
    let env = get_context(owner(), 10 * YOCTO_PER_NEAR, Some(1));
    let vault = Vault::new(owner(), 0, 1);
    let fake_token = "usdc.mock.near".to_string();
    let c = vault.withdraw_balance(Some(fake_token.clone()), 100_000_000, None, &env).expect("withdrawal proceeds");
    assert_eq!(c.calls, vec![Call::FtTransfer { token: fake_token, receiver: owner(), amount: 100_000_000 }]);
    assert!(c.callback.is_none());
}

#[test]
fn nep141_withdraw_without_one_yocto_should_panic() {
    let env = get_context(owner(), 10 * YOCTO_PER_NEAR, Some(0));
    let vault = Vault::new(owner(), 0, 1);
    assert_eq!(
        vault.withdraw_balance(Some("usdc.mock.near".to_string()), 100_000_000, None, &env),
        Err(VaultError::RequiresOneYocto)
    );
}

#[test]
fn test_get_available_balance_subtracts_storage_and_buffer() {
    let env = Env {
        current_account: owner(),
        predecessor: "bob.near".to_string(),
        attached_deposit: 0,
        block_timestamp: 0,
        epoch_height: 0,
        account_balance: YOCTO_PER_NEAR,
        storage_usage: 10_000,
        storage_byte_cost: 10_000_000_000_000_000_000,
    };
    let vault = Vault::new(owner(), 0, 1);
    let storage_cost = env.storage_byte_cost * 10_000;
    let expected = 1_000_000_000_000_000_000_000_000u128.saturating_sub(storage_cost + STORAGE_BUFFER);
    assert_eq!(vault.get_available_balance(&env), expected, "Should subtract both storage cost and buffer");
    assert_eq!(expected, 890_000_000_000_000_000_000_000);
}

#[test]
fn test_allow_withdraw_when_no_liquidity_request() {
    let vault = Vault::new(owner(), 0, 1);
    assert_eq!(vault.ensure_owner_can_withdraw(None), Ok(()));
    assert_eq!(vault.ensure_owner_can_withdraw(Some(&"usdc.near".to_string())), Ok(()));
}

#[test]
fn test_disallow_withdraw_requested_token_when_counter_offers_pending() {
    let mut vault = Vault::new(owner(), 0, 1);
    vault.liquidity_request = Some(usdc_request());
    assert_eq!(
        vault.ensure_owner_can_withdraw(Some(&"usdc.near".to_string())),
        Err(VaultError::WithdrawTokenWithOffersPending)
    );
}

#[test]
fn test_disallow_withdraw_near_during_liquidation() {
    let mut vault = Vault::new(owner(), 0, 1);
    vault.liquidity_request = Some(usdc_request());
    vault.accepted_offer = Some(AcceptedOffer { lender: "lender.near".to_string(), accepted_at: 12345678 });
    vault.liquidation = Some(Liquidation { liquidated: 0 });
    assert_eq!(vault.ensure_owner_can_withdraw(None), Err(VaultError::WithdrawNearDuringLiquidation));
}

#[test]
fn test_allow_near_after_offer_accepted_before_liquidation() {
    let mut vault = Vault::new(owner(), 0, 1);
    vault.liquidity_request = Some(usdc_request());
    vault.accepted_offer = Some(AcceptedOffer { lender: "lender.near".to_string(), accepted_at: 12345678 });
    assert_eq!(vault.ensure_owner_can_withdraw(None), Ok(()));
}

#[test]
fn test_allow_nep141_during_liquidation() {
    let mut vault = Vault::new(owner(), 0, 1);
    vault.liquidity_request = Some(usdc_request());
    vault.accepted_offer = Some(AcceptedOffer { lender: "lender.near".to_string(), accepted_at: 12345678 });
    vault.liquidation = Some(Liquidation { liquidated: 0 });
    assert_eq!(vault.ensure_owner_can_withdraw(Some(&"usdt.near".to_string())), Ok(()));
}

#[test]
fn withdraw_to_third_party_goes_to_recipient() {
    let env = get_context(owner(), 10 * YOCTO_PER_NEAR, Some(1));
    let vault = Vault::new(owner(), 0, 1);
    let c = vault.withdraw_balance(None, YOCTO_PER_NEAR, Some(alice()), &env).expect("withdrawal proceeds");
    assert_eq!(c.calls, vec![Call::Transfer { receiver: alice(), amount: YOCTO_PER_NEAR }]);
}

#[test]
fn withdraw_balance_owner_can_withdraw_near_successfully() {
    let env = get_context(owner(), 5 * YOCTO_PER_NEAR, None);
    let vault = Vault::new(owner(), 0, 1);
    let c = vault.withdraw_balance(None, YOCTO_PER_NEAR, None, &env).expect("withdrawal proceeds");
    assert_eq!(c.calls, vec![Call::Transfer { receiver: owner(), amount: YOCTO_PER_NEAR }]);
}

#[test]
fn withdraw_balance_owner_can_withdraw_nep141_with_one_yocto() {
    let env = get_context(owner(), 10 * YOCTO_PER_NEAR, Some(1));
    let vault = Vault::new(owner(), 0, 1);
    let fake_token = "usdc.mock.near".to_string();
    let c = vault.withdraw_balance(Some(fake_token.clone()), 100_000_000, None, &env).expect("withdrawal proceeds");
    assert_eq!(c.calls, vec![Call::FtTransfer { token: fake_token, receiver: owner(), amount: 100_000_000 }]);
}
