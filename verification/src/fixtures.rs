//! Environments and timestamps that examples and tests of the vault share.

use vstd::prelude::*;
use crate::collections::{put_by_id, put_id};
use crate::env::Env;
use crate::types::{
    ApplyCounterOfferMessage, LiquidityRequest, RefundEntry, APPLY_COUNTER_OFFER_ACTION, NANOS_PER_SECOND,
    YOCTO_PER_NEAR,
};
use crate::vault::Vault;

verus! {

/// Default account balance of a test environment: 10 NEAR.
pub const TEN_NEAR: u128 = 10_000_000_000_000_000_000_000_000;

/// Storage usage of a test environment, in bytes: none, so only the reserve is held back.
pub const DEFAULT_STORAGE_USAGE: u64 = 0;

/// Default price of a byte of storage, in yoctoNEAR.
pub const DEFAULT_STORAGE_BYTE_COST: u128 = 10_000_000_000_000_000_000;

/// Duration in seconds of the standard example request.
pub const EXAMPLE_DURATION: u64 = 86_400;

/// The first timestamp at which the standard example loan, accepted at time 0,
/// may be liquidated.
pub fn expiry_timestamp() -> (t: u64)
    ensures
        t == EXAMPLE_DURATION * NANOS_PER_SECOND + 1,
{
    EXAMPLE_DURATION * NANOS_PER_SECOND + 1
}

/// An environment in which `owner.near` calls with `deposit_yocto` attached and
/// the vault holds 10 NEAR.
pub fn with_owner_context(deposit_yocto: u128) -> (e: Env)
    ensures
        e.predecessor@ == "owner.near"@,
        e.attached_deposit == deposit_yocto,
        e.account_balance == TEN_NEAR,
        e.storage_usage == DEFAULT_STORAGE_USAGE,
        e.storage_byte_cost == DEFAULT_STORAGE_BYTE_COST,
        e.block_timestamp == 0,
        e.epoch_height == 0,
        e.wf(),
{
    let e = Env {
        current_account: String::from_str("vault-0.factory.near"),
        predecessor: String::from_str("owner.near"),
        attached_deposit: deposit_yocto,
        block_timestamp: 0,
        epoch_height: 0,
        account_balance: TEN_NEAR,
        storage_usage: DEFAULT_STORAGE_USAGE,
        storage_byte_cost: DEFAULT_STORAGE_BYTE_COST,
    };
    e
}

/// The account `alice.near`.
pub fn alice() -> (r: String)
    ensures
        r@ == "alice.near"@,
{
    String::from_str("alice.near")
}

/// The account `bob.near`.
pub fn bob() -> (r: String)
    ensures
        r@ == "bob.near"@,
{
    String::from_str("bob.near")
}

/// The account `owner.near`.
pub fn owner() -> (r: String)
    ensures
        r@ == "owner.near"@,
{
    String::from_str("owner.near")
}

/// A call by `predecessor` on a vault holding `account_balance`, with
/// `attached_deposit` attached (none when `None`), at time 0 and epoch 0.
pub fn get_context(predecessor: String, account_balance: u128, attached_deposit: Option<u128>) -> (e: Env)
    ensures
        e.predecessor == predecessor,
        e.account_balance == account_balance,
        e.attached_deposit == match attached_deposit {
            Some(d) => d,
            None => 0,
        },
        e.block_timestamp == 0,
        e.epoch_height == 0,
        e.storage_usage == DEFAULT_STORAGE_USAGE,
        e.storage_byte_cost == DEFAULT_STORAGE_BYTE_COST,
        e.current_account@ == "alice.near"@,
        e.wf(),
{
    Env {
        current_account: String::from_str("alice.near"),
        predecessor,
        attached_deposit: match attached_deposit {
            Some(d) => d,
            None => 0,
        },
        block_timestamp: 0,
        epoch_height: 0,
        account_balance,
        storage_usage: DEFAULT_STORAGE_USAGE,
        storage_byte_cost: DEFAULT_STORAGE_BYTE_COST,
    }
}

/// As `get_context`, at epoch 100 and at `block_timestamp` (0 when `None`).
pub fn get_context_with_timestamp(
    predecessor: String,
    account_balance: u128,
    attached_deposit: Option<u128>,
    block_timestamp: Option<u64>,
) -> (e: Env)
    ensures
        e.predecessor == predecessor,
        e.account_balance == account_balance,
        e.attached_deposit == match attached_deposit {
            Some(d) => d,
            None => 0,
        },
        e.block_timestamp == match block_timestamp {
            Some(t) => t,
            None => 0,
        },
        e.epoch_height == 100,
        e.storage_usage == DEFAULT_STORAGE_USAGE,
        e.storage_byte_cost == DEFAULT_STORAGE_BYTE_COST,
        e.wf(),
{
    let mut e = get_context(predecessor, account_balance, attached_deposit);
    e.epoch_height = 100;
    e.block_timestamp = match block_timestamp {
        Some(t) => t,
        None => 0,
    };
    e
}

/// The standard example request: 1,000,000 of `token` for a day at 100,000
/// interest, against 5 NEAR of collateral.
pub fn create_valid_liquidity_request(token: String) -> (r: LiquidityRequest)
    ensures
        r == (LiquidityRequest {
            token,
            amount: 1_000_000,
            interest: 100_000,
            collateral: (5 * YOCTO_PER_NEAR) as u128,
            duration: EXAMPLE_DURATION,
            created_at: 0,
        }),
{
    LiquidityRequest {
        token,
        amount: 1_000_000,
        interest: 100_000,
        collateral: 5 * YOCTO_PER_NEAR,
        duration: EXAMPLE_DURATION,
        created_at: 0,
    }
}

/// An apply message carrying the terms of `request`.
pub fn apply_counter_offer_message_from(request: &LiquidityRequest) -> (m: ApplyCounterOfferMessage)
    ensures
        m.action@ == APPLY_COUNTER_OFFER_ACTION@,
        m.token == request.token,
        m.amount == request.amount,
        m.interest == request.interest,
        m.collateral == request.collateral,
        m.duration == request.duration,
{
    ApplyCounterOfferMessage {
        action: String::from_str(APPLY_COUNTER_OFFER_ACTION),
        token: request.token.clone(),
        amount: request.amount,
        interest: request.interest,
        collateral: request.collateral,
        duration: request.duration,
    }
}

/// Records `entry` under `id` in the vault's refund list.
pub fn insert_refund_entry(vault: &mut Vault, id: u64, entry: RefundEntry)
    requires
        old(vault).wf(),
    ensures
        final(vault).wf(),
        final(vault).refund_list@ == put_id(old(vault).refund_list@, id, entry),
        *final(vault) == (Vault { refund_list: final(vault).refund_list, ..*old(vault) }),
{
    put_by_id(&mut vault.refund_list, id, entry);
}

} // verus!
