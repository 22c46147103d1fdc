use sudostake::fixtures::{alice, bob, create_valid_liquidity_request, get_context, get_context_with_timestamp, owner};
use sudostake::types::{ApplyCounterOfferMessage, LiquidityRequest, YOCTO_PER_NEAR};
use sudostake::vault::Vault;

fn apply_message(request: &LiquidityRequest) -> ApplyCounterOfferMessage {
    ApplyCounterOfferMessage {
        action: "ApplyCounterOffer".to_string(),
        token: request.token.clone(),
        amount: request.amount,
        interest: request.interest,
        collateral: request.collateral,
        duration: request.duration,
    }
}

#[test]
fn test_ft_on_transfer_refunds_on_invalid_message() {
    let token = "usdc.mock.near".to_string();
    let env = get_context(token, 10 * YOCTO_PER_NEAR, None);
    let mut vault = Vault::new(owner(), 0, 1);
    let amount = 123_456;
    // A message that does not parse reaches the vault as `None`.
    let result = vault.ft_on_transfer(alice(), amount, None, &env).expect("answered");
    assert_eq!(result.refund, amount);
    assert!(result.promises.is_empty(), "Expected immediate refund for invalid message");
}

#[test]
fn test_ft_on_transfer_refunds_on_unknown_action() {
    let token = "usdc.mock.near".to_string();
    let env = get_context(token.clone(), 10 * YOCTO_PER_NEAR, None);
    let mut vault = Vault::new(owner(), 0, 1);
    let amount = 42;
    let msg = ApplyCounterOfferMessage {
        action: "DoNothing".to_string(),
        token,
        amount,
        interest: 1,
        collateral: YOCTO_PER_NEAR,
        duration: 1,
    };
    let result = vault.ft_on_transfer(alice(), amount, Some(msg), &env).expect("answered");
    assert_eq!(result.refund, amount);
    assert!(result.promises.is_empty(), "Expected refund for unknown message action");
}

#[test]
fn test_ft_on_transfer_accepts_request_when_amount_matches() {
    let token = "usdc.mock.near".to_string();
    let block_timestamp = 4242;
    let env = get_context_with_timestamp(token.clone(), 10 * YOCTO_PER_NEAR, None, Some(block_timestamp));
    let mut vault = Vault::new(owner(), 0, 1);
    let request = create_valid_liquidity_request(token);
    vault.liquidity_request = Some(request.clone());
    let lender = alice();
    let result = vault.ft_on_transfer(lender.clone(), request.amount, Some(apply_message(&request)), &env).expect("answered");
    assert_eq!(result.refund, 0);
    assert!(result.promises.is_empty(), "ft_on_transfer should not create promises");
    let accepted = vault.accepted_offer.expect("expected lender to be recorded as accepted");
    assert_eq!(accepted.lender, lender, "accepted lender should match sender");
    assert_eq!(accepted.accepted_at, block_timestamp, "accepted timestamp should match block timestamp");
    assert!(vault.counter_offers.is_none(), "counter offers should be cleared after acceptance");
}

#[test]
fn test_ft_on_transfer_records_counter_offer_when_amount_is_lower() {
    let token = "usdc.mock.near".to_string();
    let env = get_context(token.clone(), 10 * YOCTO_PER_NEAR, None);
    let mut vault = Vault::new(owner(), 0, 1);
    let request = create_valid_liquidity_request(token);
    vault.liquidity_request = Some(request.clone());
    let lender = bob();
    let offer_amount = request.amount - 100_000;
    let result = vault.ft_on_transfer(lender.clone(), offer_amount, Some(apply_message(&request)), &env).expect("answered");
    assert_eq!(result.refund, 0);
    assert!(result.promises.is_empty(), "ft_on_transfer should not create promises");
    assert!(vault.accepted_offer.is_none(), "lender should not be auto-accepted for partial amount");
    let offers = vault.counter_offers.as_ref().expect("counter offer map should exist");
    let offer = offers
        .iter()
        .find(|(k, _)| k == &lender)
        .map(|(_, o)| o.clone())
        .expect("counter offer should be recorded for lender");
    assert_eq!(offer.amount, offer_amount, "stored counter offer amount should match attached amount");
}

#[test]
fn ft_on_transfer_refunds_when_no_request_is_open() {
    let token = "usdc.mock.near".to_string();
    let env = get_context(token.clone(), 10 * YOCTO_PER_NEAR, None);
    let mut vault = Vault::new(owner(), 0, 1);
    let request = create_valid_liquidity_request(token);
    let result = vault.ft_on_transfer(bob(), 500_000, Some(apply_message(&request)), &env).expect("answered");
    assert_eq!(result.refund, 500_000);
    assert!(vault.counter_offers.is_none());
}

#[test]
fn ft_on_transfer_refuses_offer_not_above_best() {
    let token = "usdc.mock.near".to_string();
    let env = get_context(token.clone(), 10 * YOCTO_PER_NEAR, None);
    let mut vault = Vault::new(owner(), 0, 1);
    let request = create_valid_liquidity_request(token);
    vault.liquidity_request = Some(request.clone());
    vault.ft_on_transfer(bob(), 900_000, Some(apply_message(&request)), &env).expect("recorded");
    let before = vault.clone();
    let r = vault.ft_on_transfer(alice(), 900_000, Some(apply_message(&request)), &env);
    assert_eq!(r, Err(sudostake::error::VaultError::OfferNotBest));
    assert_eq!(vault, before);
}
