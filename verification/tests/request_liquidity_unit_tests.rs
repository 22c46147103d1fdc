use sudostake::env::CallResult;
use sudostake::error::VaultError;
use sudostake::fixtures::{alice, get_context, get_context_with_timestamp, owner};
use sudostake::promise::{Call, Callback};
use sudostake::types::{
    AcceptedOffer, CounterOffer, LiquidityRequest, PendingLiquidityRequest, ProcessingState, MAX_LOAN_DURATION,
    YOCTO_PER_NEAR,
};
use sudostake::vault::Vault;

const DAY: u64 = 60 * 60 * 24;

fn vault_with_validator() -> Vault {
    let mut vault = Vault::new(owner(), 0, 1);
    vault.active_validators.push("validator1.near".to_string());
    vault
}

fn request(vault: &mut Vault, amount: u128, collateral: u128, duration: u64) -> Result<sudostake::promise::Chain, VaultError> {
    let env = get_context(owner(), 10 * YOCTO_PER_NEAR, Some(1));
    vault.request_liquidity("usdc.token.near".to_string(), amount, 100_000, collateral, duration, &env)
}

fn stake_answer(amount: u128) -> CallResult {
    CallResult::Successful(format!("\"{}\"", amount).into_bytes())
}

#[test]
fn test_request_liquidity_success() {
    let mut vault = vault_with_validator();
    let chain = request(&mut vault, 1_000_000, 5 * YOCTO_PER_NEAR, DAY).expect("request starts");
    assert!(vault.pending_liquidity_request.is_some());
    assert!(vault.liquidity_request.is_none());
    assert!(vault.counter_offers.is_none());
    assert_eq!(chain.calls, vec![Call::GetAccountStakedBalance { validator: "validator1.near".to_string() }]);
    assert_eq!(
        chain.callback,
        Some(Callback::OnCheckTotalStaked { validators: vec!["validator1.near".to_string()] })
    );
    assert_eq!(vault.processing_state, ProcessingState::RequestLiquidity);
}

#[test]
fn test_request_liquidity_fails_if_not_owner() {
    let env = get_context(alice(), 10 * YOCTO_PER_NEAR, Some(1));
    let mut vault = vault_with_validator();
    assert_eq!(
        vault.request_liquidity("usdc.token.near".to_string(), 1_000_000, 100_000, 5 * YOCTO_PER_NEAR, DAY, &env),
        Err(VaultError::NotOwner)
    );
}

#[test]
fn test_request_liquidity_fails_if_deposit_not_1_yocto() {
    let env = get_context(owner(), 10 * YOCTO_PER_NEAR, Some(2));
    let mut vault = vault_with_validator();
    assert_eq!(
        vault.request_liquidity("usdc.token.near".to_string(), 1_000_000, 100_000, 5 * YOCTO_PER_NEAR, DAY, &env),
        Err(VaultError::RequiresOneYocto)
    );
}

#[test]
fn test_request_liquidity_fails_if_pending_request_exists() {
    let mut vault = vault_with_validator();
    vault.pending_liquidity_request = Some(PendingLiquidityRequest {
        token: "usdc.token.near".to_string(),
        amount: 1_000_000,
        interest: 100_000,
        collateral: 5 * YOCTO_PER_NEAR,
        duration: DAY,
    });
    assert_eq!(request(&mut vault, 1_000_000, 5 * YOCTO_PER_NEAR, DAY), Err(VaultError::RequestInProgress));
}

#[test]
fn test_request_liquidity_fails_if_liquidity_request_exists() {
    let mut vault = vault_with_validator();
    vault.liquidity_request = Some(LiquidityRequest {
        token: "usdc.token.near".to_string(),
        amount: 1_000_000,
        interest: 100_000,
        collateral: 5 * YOCTO_PER_NEAR,
        duration: DAY,
        created_at: 0,
    });
    assert_eq!(request(&mut vault, 1_000_000, 5 * YOCTO_PER_NEAR, DAY), Err(VaultError::RequestAlreadyOpen));
}

#[test]
fn test_request_liquidity_fails_if_accepted_offer_exists() {
    let mut vault = vault_with_validator();
    vault.accepted_offer = Some(AcceptedOffer { lender: "lender.near".to_string(), accepted_at: 0 });
    assert_eq!(request(&mut vault, 1_000_000, 5 * YOCTO_PER_NEAR, DAY), Err(VaultError::AlreadyMatched));
}

#[test]
fn test_request_liquidity_fails_if_counter_offers_exists() {
    let mut vault = vault_with_validator();
    vault.counter_offers = Some(vec![(
        "lender.near".to_string(),
        CounterOffer { proposer: "lender.near".to_string(), amount: 900_000, timestamp: 0 },
    )]);
    assert_eq!(request(&mut vault, 1_000_000, 5 * YOCTO_PER_NEAR, DAY), Err(VaultError::CounterOffersNotCleared));
}

#[test]
fn test_request_liquidity_fails_if_collateral_is_zero() {
    let mut vault = vault_with_validator();
    assert_eq!(request(&mut vault, 1_000_000, 0, DAY), Err(VaultError::ZeroCollateral));
}

#[test]
fn test_request_liquidity_fails_if_amount_is_zero() {
    let mut vault = vault_with_validator();
    assert_eq!(request(&mut vault, 0, 5 * YOCTO_PER_NEAR, DAY), Err(VaultError::ZeroRequestedAmount));
}

#[test]
fn test_request_liquidity_fails_if_duration_is_zero() {
    let mut vault = vault_with_validator();
    assert_eq!(request(&mut vault, 1_000_000, 5 * YOCTO_PER_NEAR, 0), Err(VaultError::ZeroDuration));
}

#[test]
fn test_on_check_total_staked_fails_if_no_pending_request() {
    let env = get_context(owner(), 10 * YOCTO_PER_NEAR, Some(1));
    let mut vault = Vault::new(owner(), 0, 1);
    assert_eq!(vault.on_check_total_staked(vec![], &vec![], &env), Err(VaultError::NoPendingRequest));
}

#[test]
fn test_request_liquidity_fails_if_vault_already_locked() {
    let locked_at = 1_000_000_000_000_000_000;
    let now = locked_at + 10_000_000_000;
    let env = get_context_with_timestamp(owner(), 10 * YOCTO_PER_NEAR, Some(1), Some(now));
    let mut vault = vault_with_validator();
    vault.processing_state = ProcessingState::RequestLiquidity;
    vault.processing_since = locked_at;
    assert_eq!(
        vault.request_liquidity("usdc.token.near".to_string(), 1_000_000, 100_000, 5 * YOCTO_PER_NEAR, DAY, &env),
        Err(VaultError::Busy(ProcessingState::RequestLiquidity))
    );
}

#[test]
fn request_liquidity_refuses_too_long_duration() {
    let mut vault = vault_with_validator();
    assert_eq!(
        request(&mut vault, 1_000_000, 5 * YOCTO_PER_NEAR, MAX_LOAN_DURATION + 1),
        Err(VaultError::DurationTooLong)
    );
    assert!(request(&mut vault, 1_000_000, 5 * YOCTO_PER_NEAR, MAX_LOAN_DURATION).is_ok());
}

#[test]
fn request_liquidity_without_validators_is_refused() {
    let mut vault = Vault::new(owner(), 0, 1);
    let before = vault.clone();
    assert_eq!(request(&mut vault, 1_000_000, 5 * YOCTO_PER_NEAR, DAY), Err(VaultError::NoActiveValidators));
    assert_eq!(vault, before);
}

#[test]
fn request_opens_when_stake_covers_collateral() {
    let mut vault = vault_with_validator();
    vault.active_validators.push("validator2.near".to_string());
    let chain = request(&mut vault, 1_000_000, 5 * YOCTO_PER_NEAR, DAY).expect("request starts");
    let ids = match chain.callback {
        Some(Callback::OnCheckTotalStaked { validators }) => validators,
        other => panic!("unexpected callback {:?}", other),
    };
    let env = get_context_with_timestamp(owner(), 10 * YOCTO_PER_NEAR, None, Some(777));
    let results = vec![stake_answer(3 * YOCTO_PER_NEAR), stake_answer(2 * YOCTO_PER_NEAR)];
    assert_eq!(vault.on_check_total_staked(ids, &results, &env), Ok(true));
    let opened = vault.liquidity_request.clone().expect("request opened");
    assert_eq!(opened.created_at, 777);
    assert_eq!(opened.amount, 1_000_000);
    assert!(vault.pending_liquidity_request.is_none());
    assert_eq!(vault.processing_state, ProcessingState::Idle);
}

#[test]
fn request_not_opened_when_stake_is_short_and_empty_validators_pruned() {
    let mut vault = vault_with_validator();
    vault.active_validators.push("validator2.near".to_string());
    let chain = request(&mut vault, 1_000_000, 5 * YOCTO_PER_NEAR, DAY).expect("request starts");
    let ids = match chain.callback {
        Some(Callback::OnCheckTotalStaked { validators }) => validators,
        other => panic!("unexpected callback {:?}", other),
    };
    let env = get_context(owner(), 10 * YOCTO_PER_NEAR, None);
    let results = vec![stake_answer(4 * YOCTO_PER_NEAR), stake_answer(0)];
    assert_eq!(vault.on_check_total_staked(ids, &results, &env), Ok(false));
    assert!(vault.liquidity_request.is_none());
    assert!(vault.pending_liquidity_request.is_none());
    assert_eq!(vault.active_validators, vec!["validator1.near".to_string()]);
    assert_eq!(vault.processing_state, ProcessingState::Idle);
}
