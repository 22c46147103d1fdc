use sudostake::error::AcceptError;
use sudostake::fixtures::{
    alice, apply_counter_offer_message_from, bob, create_valid_liquidity_request, get_context, owner,
};
use sudostake::types::{AcceptedOffer, CounterOffer};
use sudostake::vault::Vault;

const ONE_NEAR: u128 = 1_000_000_000_000_000_000_000_000;

fn token() -> String {
    "usdc.token.near".to_string()
}

fn vault_with_request() -> Vault {
    let mut vault = Vault::new(owner(), 0, 1);
    vault.liquidity_request = Some(create_valid_liquidity_request(token()));
    vault
}

#[test]
fn test_try_accept_liquidity_request_success() {
    let env = get_context(owner(), 10 * ONE_NEAR, None);
    let mut contract = vault_with_request();
    let request = contract.liquidity_request.clone().unwrap();
    let msg = apply_counter_offer_message_from(&request);
    let result = contract.try_accept_liquidity_request(alice(), request.amount, &msg, &token(), &env);
    assert!(result.is_ok(), "Expected success, got: {:?}", result);
    let accepted = contract.accepted_offer.expect("Expected accepted_offer to be set");
    assert_eq!(accepted.lender, alice());
}

#[test]
fn test_try_accept_liquidity_request_clears_counter_offers() {
    let env = get_context(owner(), 10 * ONE_NEAR, None);
    let mut contract = vault_with_request();
    contract.counter_offers = Some(vec![(
        alice(),
        CounterOffer { proposer: alice(), amount: 900_000, timestamp: 42 },
    )]);
    let request = contract.liquidity_request.clone().unwrap();
    let msg = apply_counter_offer_message_from(&request);
    let result = contract.try_accept_liquidity_request(bob(), request.amount, &msg, &token(), &env);
    assert!(result.is_ok(), "Expected success, got: {:?}", result);
    assert!(contract.counter_offers.is_none(), "Counter offers were not cleared");
}

#[test]
fn test_try_accept_liquidity_request_clears_underlying_storage() {
    let env = get_context(owner(), 10 * ONE_NEAR, None);
    let mut contract = vault_with_request();
    contract.counter_offers = Some(vec![(
        alice(),
        CounterOffer { proposer: alice(), amount: 900_000, timestamp: 42 },
    )]);
    let request = contract.liquidity_request.clone().unwrap();
    let msg = apply_counter_offer_message_from(&request);
    let result = contract.try_accept_liquidity_request(bob(), request.amount, &msg, &token(), &env);
    assert!(result.is_ok(), "Expected success, got: {:?}", result);
    // The displaced offer is refunded and nothing of the offer map remains.
    let refunds = result.unwrap();
    assert_eq!(refunds.len(), 1);
    assert_eq!(contract.get_counter_offers(), None);
}

#[test]
fn test_try_accept_liquidity_request_fails_if_no_request() {
    let env = get_context(owner(), 10 * ONE_NEAR, None);
    let mut contract = Vault::new(owner(), 0, 1);
    let request = create_valid_liquidity_request(token());
    let msg = apply_counter_offer_message_from(&request);
    let result = contract.try_accept_liquidity_request(alice(), 1_000_000, &msg, &token(), &env);
    assert!(result.is_err(), "Expected failure but got success");
    assert_eq!(result.unwrap_err().message(), "No liquidity request available");
}

#[test]
fn test_try_accept_liquidity_request_fails_if_already_accepted() {
    let env = get_context(owner(), 10 * ONE_NEAR, None);
    let mut contract = vault_with_request();
    contract.accepted_offer = Some(AcceptedOffer { lender: alice(), accepted_at: 12345678 });
    let request = contract.liquidity_request.clone().unwrap();
    let msg = apply_counter_offer_message_from(&request);
    let result = contract.try_accept_liquidity_request(alice(), request.amount, &msg, &token(), &env);
    assert!(result.is_err(), "Expected failure but got success");
    assert_eq!(result.unwrap_err().message(), "Liquidity request already fulfilled");
}

#[test]
fn test_try_accept_liquidity_request_fails_if_lender_is_owner() {
    let env = get_context(owner(), 10 * ONE_NEAR, None);
    let mut contract = vault_with_request();
    let request = contract.liquidity_request.clone().unwrap();
    let msg = apply_counter_offer_message_from(&request);
    let result = contract.try_accept_liquidity_request(owner(), request.amount, &msg, &token(), &env);
    assert!(result.is_err(), "Expected failure but got success");
    assert_eq!(result.unwrap_err().message(), "Vault owner cannot fulfill their own request");
}

#[test]
fn test_try_accept_liquidity_request_fails_if_token_contract_mismatch() {
    let env = get_context(owner(), 10 * ONE_NEAR, None);
    let mut contract = vault_with_request();
    let request = contract.liquidity_request.clone().unwrap();
    let msg = apply_counter_offer_message_from(&request);
    let wrong_token_contract = "fake.token.near".to_string();
    let result =
        contract.try_accept_liquidity_request(alice(), request.amount, &msg, &wrong_token_contract, &env);
    assert!(result.is_err(), "Expected failure but got success");
    assert_eq!(result.unwrap_err().message(), "Token mismatch");
}

#[test]
fn test_try_accept_liquidity_request_fails_if_msg_token_mismatch() {
    let env = get_context(owner(), 10 * ONE_NEAR, None);
    let mut contract = vault_with_request();
    let request = contract.liquidity_request.clone().unwrap();
    let mut msg = apply_counter_offer_message_from(&request);
    msg.token = "wrong.token.near".to_string();
    let result = contract.try_accept_liquidity_request(alice(), request.amount, &msg, &token(), &env);
    assert!(result.is_err(), "Expected failure but got success");
    assert_eq!(result.unwrap_err().message(), "Token mismatch");
}

#[test]
fn test_try_accept_liquidity_request_fails_if_msg_amount_mismatch() {
    let env = get_context(owner(), 10 * ONE_NEAR, None);
    let mut contract = vault_with_request();
    let request = contract.liquidity_request.clone().unwrap();
    let mut msg = apply_counter_offer_message_from(&request);
    msg.amount = 2_000_000;
    let result = contract.try_accept_liquidity_request(alice(), request.amount, &msg, &token(), &env);
    assert!(result.is_err(), "Expected failure but got success");
    assert_eq!(result.unwrap_err().message(), "Amount mismatch");
}

#[test]
fn test_try_accept_liquidity_request_fails_if_attached_amount_mismatch() {
    let env = get_context(owner(), 10 * ONE_NEAR, None);
    let mut contract = vault_with_request();
    let request = contract.liquidity_request.clone().unwrap();
    let msg = apply_counter_offer_message_from(&request);
    let wrong_attached_amount = request.amount - 1;
    let result = contract.try_accept_liquidity_request(alice(), wrong_attached_amount, &msg, &token(), &env);
    assert!(result.is_err(), "Expected failure but got success");
    assert_eq!(result.unwrap_err().message(), "Amount mismatch");
}

#[test]
fn test_try_accept_liquidity_request_fails_if_interest_mismatch() {
    let env = get_context(owner(), 10 * ONE_NEAR, None);
    let mut contract = vault_with_request();
    let request = contract.liquidity_request.clone().unwrap();
    let mut msg = apply_counter_offer_message_from(&request);
    msg.interest = request.interest + 1;
    let result = contract.try_accept_liquidity_request(alice(), request.amount, &msg, &token(), &env);
    assert!(result.is_err(), "Expected failure but got success");
    assert_eq!(result.unwrap_err().message(), "Interest mismatch");
}

#[test]
fn test_try_accept_liquidity_request_fails_if_collateral_mismatch() {
    let env = get_context(owner(), 10 * ONE_NEAR, None);
    let mut contract = vault_with_request();
    let request = contract.liquidity_request.clone().unwrap();
    let mut msg = apply_counter_offer_message_from(&request);
    msg.collateral = 6 * ONE_NEAR;
    let result = contract.try_accept_liquidity_request(alice(), request.amount, &msg, &token(), &env);
    assert!(result.is_err(), "Expected failure but got success");
    assert_eq!(result.unwrap_err().message(), "Collateral mismatch");
}

#[test]
fn test_try_accept_liquidity_request_fails_if_duration_mismatch() {
    let env = get_context(owner(), 10 * ONE_NEAR, None);
    let mut contract = vault_with_request();
    let request = contract.liquidity_request.clone().unwrap();
    let mut msg = apply_counter_offer_message_from(&request);
    msg.duration = request.duration + 1;
    let result = contract.try_accept_liquidity_request(alice(), request.amount, &msg, &token(), &env);
    assert!(result.is_err(), "Expected failure but got success");
    assert_eq!(result.unwrap_err().message(), "Duration mismatch");
}

#[test]
fn accept_error_variant_for_owner_is_reported() {
    let env = get_context(owner(), 10 * ONE_NEAR, None);
    let mut contract = vault_with_request();
    let before = contract.clone();
    let request = contract.liquidity_request.clone().unwrap();
    let msg = apply_counter_offer_message_from(&request);
    let result = contract.try_accept_liquidity_request(owner(), request.amount, &msg, &token(), &env);
    assert_eq!(result, Err(AcceptError::OwnerCannotFulfill));
    assert_eq!(contract, before, "a refused acceptance changes nothing");
}
