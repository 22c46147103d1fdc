use sudostake::env::Env;
use sudostake::error::VaultError;
use sudostake::fixtures::{
    alice, bob, create_valid_liquidity_request, get_context, get_context_with_timestamp, owner,
};
use sudostake::env::CallResult;
use sudostake::promise::{Call, Callback};
use sudostake::types::{AcceptedOffer, ApplyCounterOfferMessage, LiquidityRequest, YOCTO_PER_NEAR};
use sudostake::vault::Vault;

fn env_for(predecessor: String, deposit: Option<u128>) -> Env {
    get_context(predecessor, 10 * YOCTO_PER_NEAR, deposit)
}

fn new_vault_with_request(token: &str) -> (Vault, LiquidityRequest) {
    let mut vault = Vault::new(owner(), 0, 1);
    let request = create_valid_liquidity_request(token.to_string());
    vault.liquidity_request = Some(request.clone());
    (vault, request)
}

fn counter_offer_message_from(request: &LiquidityRequest) -> ApplyCounterOfferMessage {
    ApplyCounterOfferMessage {
        action: "NewCounterOffer".to_string(),
        token: request.token.clone(),
        amount: request.amount,
        interest: request.interest,
        collateral: request.collateral,
        duration: request.duration,
    }
}

fn add_counter_offer(vault: &mut Vault, proposer: String, amount: u128, request: &LiquidityRequest, env: &Env) {
    let msg = counter_offer_message_from(request);
    vault
        .try_add_counter_offer(proposer, amount, &msg, &request.token, env)
        .expect("counter offer should be recorded");
}

#[test]
fn accept_counter_offer_updates_request_and_clears_storage() {
    let timestamp = 42_424_u64;
    let env = get_context_with_timestamp(owner(), 10 * YOCTO_PER_NEAR, Some(1), Some(timestamp));
    let (mut vault, request) = new_vault_with_request("usdc.test.near");
    add_counter_offer(&mut vault, bob(), 850_000, &request, &env);
    add_counter_offer(&mut vault, alice(), 900_000, &request, &env);
    vault.accept_counter_offer(&alice(), 900_000, &env).expect("accepted");
    let accepted = vault.accepted_offer.as_ref().expect("expected accepted offer to be recorded");
    assert_eq!(accepted.lender, alice(), "should store the lender account");
    assert_eq!(accepted.accepted_at, timestamp, "accepted timestamp should use current block timestamp");
    let updated_request = vault.liquidity_request.as_ref().expect("liquidity request should remain for active loan");
    assert_eq!(updated_request.amount, 900_000, "principal should match the accepted counter offer");
    assert_eq!(updated_request.token, request.token, "token contract must stay unchanged");
    assert_eq!(updated_request.interest, request.interest, "interest terms should remain intact");
    assert_eq!(updated_request.collateral, request.collateral, "collateral should not be altered");
    assert_eq!(updated_request.duration, request.duration, "duration should remain intact");
    assert!(vault.counter_offers.is_none(), "counter offers should be cleared from state");
    assert_eq!(vault.get_counter_offers(), None, "nothing of the offer map remains after acceptance");
}

#[test]
fn accept_counter_offer_with_single_entry_clears_option() {
    let env = env_for(owner(), Some(1));
    let (mut vault, request) = new_vault_with_request("usdc.test.near");
    add_counter_offer(&mut vault, alice(), 900_000, &request, &env);
    vault.accept_counter_offer(&alice(), 900_000, &env).expect("accepted");
    assert!(vault.counter_offers.is_none(), "counter offers option should be None after acceptance");
    assert_eq!(vault.get_counter_offers(), None);
}

#[test]
fn accept_counter_offer_with_no_other_offers_does_not_queue_refunds() {
    let env = env_for(owner(), Some(1));
    let (mut vault, request) = new_vault_with_request("usdc.test.near");
    add_counter_offer(&mut vault, alice(), 900_000, &request, &env);
    let refunds = vault.accept_counter_offer(&alice(), 900_000, &env).expect("accepted");
    assert_eq!(vault.refund_list.len(), 0, "No refund entries should be recorded when there are no competing offers");
    assert!(refunds.is_empty());
}

#[test]
fn accept_counter_offer_records_refunds_for_remaining_offers() {
    let token = "usdc.test.near".to_string();
    let env = env_for(owner(), Some(1));
    let (mut vault, request) = new_vault_with_request(&token);
    add_counter_offer(&mut vault, bob(), 800_000, &request, &env);
    let carol = "carol.near".to_string();
    add_counter_offer(&mut vault, carol.clone(), 850_000, &request, &env);
    add_counter_offer(&mut vault, alice(), 900_000, &request, &env);
    vault.accept_counter_offer(&alice(), 900_000, &env).expect("accepted");
    let mut refunds: Vec<(String, u128, Option<String>)> = vault
        .refund_list
        .iter()
        .map(|(_, entry)| (entry.proposer.clone(), entry.amount, entry.token.clone()))
        .collect();
    refunds.sort_by(|a, b| a.0.cmp(&b.0));
    assert_eq!(
        refunds,
        vec![(bob(), 800_000, Some(token.clone())), (carol.clone(), 850_000, Some(token.clone()))],
        "refund_list should retain entries for every non-accepted offer"
    );
}

#[test]
fn accept_counter_offer_single_refund_clears_after_callback() {
    let env = env_for(owner(), Some(1));
    let (mut vault, request) = new_vault_with_request("usdc.test.near");
    add_counter_offer(&mut vault, bob(), 800_000, &request, &env);
    add_counter_offer(&mut vault, alice(), 900_000, &request, &env);
    vault.accept_counter_offer(&alice(), 900_000, &env).expect("accepted");
    let entries = vault.refund_list.clone();
    assert_eq!(entries.len(), 1, "Accepting should schedule exactly one refund for the remaining offer");
    let (refund_id, entry) = &entries[0];
    let callback_env = env_for(owner(), None);
    vault.on_refund_complete(
        Some(*refund_id),
        entry.proposer.clone(),
        entry.amount,
        entry.token.clone().expect("Refund entry should retain the token address"),
        true,
        &callback_env,
    );
    assert!(
        vault.refund_list.iter().all(|(id, _)| id != refund_id),
        "Successful callback should clear the single refund entry"
    );
}

#[test]
fn accept_counter_offer_batch_refunds_requeues_failures() {
    let token = "usdc.test.near".to_string();
    let env = env_for(owner(), Some(1));
    let (mut vault, request) = new_vault_with_request(&token);
    add_counter_offer(&mut vault, bob(), 800_000, &request, &env);
    let carol = "carol.near".to_string();
    add_counter_offer(&mut vault, carol.clone(), 850_000, &request, &env);
    add_counter_offer(&mut vault, alice(), 900_000, &request, &env);
    vault.accept_counter_offer(&alice(), 900_000, &env).expect("accepted");
    let mut metadata: Vec<(u64, String, u128)> = vault
        .refund_list
        .iter()
        .map(|(id, entry)| (*id, entry.proposer.clone(), entry.amount))
        .collect();
    metadata.sort_by(|a, b| a.0.cmp(&b.0));
    assert_eq!(metadata.len(), 2, "Two competing offers should produce two refund metadata entries");
    let failed_entry = metadata[1].clone();
    vault.on_batch_refunds_complete(&metadata, &vec![CallResult::Successful(vec![]), CallResult::Failed]);
    let mut remaining: Vec<(String, u128, Option<String>)> = vault
        .refund_list
        .iter()
        .map(|(_, entry)| (entry.proposer.clone(), entry.amount, entry.token.clone()))
        .collect();
    remaining.sort_by(|a, b| a.0.cmp(&b.0));
    assert_eq!(
        remaining,
        vec![(failed_entry.1.clone(), failed_entry.2, Some(token.clone()))],
        "Only the failed refund should remain queued after the batch callback runs"
    );
}

#[test]
fn accept_counter_offer_refunds_remaining_offers() {
    let env = env_for(owner(), Some(1));
    let (mut vault, request) = new_vault_with_request("usdc.test.near");
    add_counter_offer(&mut vault, bob(), 800_000, &request, &env);
    add_counter_offer(&mut vault, "carol.near".to_string(), 850_000, &request, &env);
    add_counter_offer(&mut vault, alice(), 900_000, &request, &env);
    let nonce = vault.refund_nonce;
    let refunds = vault.accept_counter_offer(&alice(), 900_000, &env).expect("accepted");
    assert_eq!(refunds.len(), 2, "each other offer is refunded by a promise of its own");
    let mut sent: Vec<(u64, String, u128)> = refunds
        .iter()
        .map(|c| {
            assert_eq!(c.calls.len(), 1);
            let (receiver, amount) = match &c.calls[0] {
                Call::FtTransfer { token, receiver, amount } => {
                    assert_eq!(token, "usdc.test.near");
                    (receiver.clone(), *amount)
                },
                other => panic!("unexpected call {:?}", other),
            };
            match &c.callback {
                Some(Callback::OnRefundComplete { refund_id: Some(id), proposer, amount: a, token }) => {
                    assert_eq!((proposer, *a, token.as_str()), (&receiver, amount, "usdc.test.near"));
                    (*id, receiver, amount)
                },
                other => panic!("unexpected callback {:?}", other),
            }
        })
        .collect();
    sent.sort_by(|a, b| a.1.cmp(&b.1));
    let mut ids: Vec<u64> = sent.iter().map(|x| x.0).collect();
    ids.sort();
    assert_eq!(ids, vec![nonce, nonce + 1]);
    let payees: Vec<(String, u128)> = sent.into_iter().map(|x| (x.1, x.2)).collect();
    assert_eq!(payees, vec![(bob(), 800_000), ("carol.near".to_string(), 850_000)]);
    assert_eq!(vault.refund_nonce, nonce + 2);
}

#[test]
fn accept_counter_offer_single_refund_uses_its_id() {
    let env = env_for(owner(), Some(1));
    let (mut vault, request) = new_vault_with_request("usdc.test.near");
    add_counter_offer(&mut vault, bob(), 800_000, &request, &env);
    add_counter_offer(&mut vault, alice(), 900_000, &request, &env);
    let refunds = vault.accept_counter_offer(&alice(), 900_000, &env).expect("accepted");
    assert_eq!(refunds.len(), 1);
    assert_eq!(
        refunds[0].calls,
        vec![Call::FtTransfer { token: "usdc.test.near".to_string(), receiver: bob(), amount: 800_000 }]
    );
    assert_eq!(
        refunds[0].callback,
        Some(Callback::OnRefundComplete {
            refund_id: Some(0),
            proposer: bob(),
            amount: 800_000,
            token: "usdc.test.near".to_string(),
        })
    );
    let failed_env = env_for(owner(), None);
    vault.on_refund_complete(Some(0), bob(), 800_000, "usdc.test.near".to_string(), false, &failed_env);
    assert_eq!(vault.refund_list.len(), 1, "a failed refund stays recorded for a retry");
}

#[test]
fn accept_counter_offer_requires_exact_deposit() {
    let env = env_for(owner(), None);
    let (mut vault, request) = new_vault_with_request("usdc.test.near");
    add_counter_offer(&mut vault, alice(), 900_000, &request, &env);
    assert_eq!(vault.accept_counter_offer(&alice(), 900_000, &env), Err(VaultError::RequiresOneYocto));
}

#[test]
fn accept_counter_offer_rejects_non_owner() {
    let env = env_for(alice(), Some(1));
    let (mut vault, request) = new_vault_with_request("usdc.test.near");
    add_counter_offer(&mut vault, alice(), 900_000, &request, &env);
    assert_eq!(vault.accept_counter_offer(&alice(), 900_000, &env), Err(VaultError::NotOwner));
}

#[test]
fn accept_counter_offer_requires_liquidity_request() {
    let env = env_for(owner(), Some(1));
    let mut vault = Vault::new(owner(), 0, 1);
    assert_eq!(vault.accept_counter_offer(&alice(), 900_000, &env), Err(VaultError::NoLiquidityRequest));
}

#[test]
fn accept_counter_offer_rejects_when_already_matched() {
    let env = env_for(owner(), Some(1));
    let (mut vault, request) = new_vault_with_request("usdc.test.near");
    add_counter_offer(&mut vault, alice(), 900_000, &request, &env);
    vault.accepted_offer = Some(AcceptedOffer { lender: bob(), accepted_at: 99 });
    assert_eq!(vault.accept_counter_offer(&alice(), 900_000, &env), Err(VaultError::AlreadyAccepted));
}

#[test]
fn accept_counter_offer_requires_active_offers() {
    let env = env_for(owner(), Some(1));
    let (mut vault, _) = new_vault_with_request("usdc.test.near");
    assert_eq!(vault.accept_counter_offer(&alice(), 900_000, &env), Err(VaultError::NoCounterOffers));
}

#[test]
fn accept_counter_offer_requires_existing_proposer_entry() {
    let env = env_for(owner(), Some(1));
    let (mut vault, request) = new_vault_with_request("usdc.test.near");
    add_counter_offer(&mut vault, bob(), 850_000, &request, &env);
    assert_eq!(vault.accept_counter_offer(&alice(), 900_000, &env), Err(VaultError::CounterOfferNotFound));
}

#[test]
fn accept_counter_offer_rejects_amount_mismatch() {
    let env = env_for(owner(), Some(1));
    let (mut vault, request) = new_vault_with_request("usdc.test.near");
    add_counter_offer(&mut vault, alice(), 900_000, &request, &env);
    let before = vault.clone();
    assert_eq!(vault.accept_counter_offer(&alice(), 800_000, &env), Err(VaultError::OfferAmountMismatch));
    assert_eq!(vault, before, "nothing is accepted");
    assert_eq!(vault.on_accept_counter_offer_mismatch_fail(), Err(VaultError::OfferAmountMismatch));
}
