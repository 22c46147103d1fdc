//! Shared constants and data types of the vault.

use vstd::prelude::*;

verus! {

/// Amount of NEAR (yocto) reserved in the vault to keep it from being deleted.
pub const STORAGE_BUFFER: u128 = 10_000_000_000_000_000_000_000;

/// Number of yoctoNEAR in one NEAR.
pub const YOCTO_PER_NEAR: u128 = 1_000_000_000_000_000_000_000_000;

/// Number of epochs before unstaked NEAR becomes withdrawable.
pub const NUM_EPOCHS_TO_UNLOCK: u64 = 4;

/// Epochs after which a failed refund expires.
pub const REFUND_EXPIRY_EPOCHS: u64 = 4;

/// Maximum number of counter offers kept per liquidity request.
pub const MAX_COUNTER_OFFERS: u64 = 10;

/// Maximum number of validators a vault stakes with at a time.
pub const MAX_ACTIVE_VALIDATORS: u64 = 2;

/// Number of nanoseconds in one second.
pub const NANOS_PER_SECOND: u64 = 1_000_000_000;

/// Time in nanoseconds after which a processing lock is stale.
pub const LOCK_TIMEOUT: u64 = 1_800_000_000_000;

/// Longest loan duration in seconds, so that `duration * 1e9` fits in a `u64`.
pub const MAX_LOAN_DURATION: u64 = 18_446_744_072;

/// Action literal of a lender's message that applies funds to a request.
pub const APPLY_COUNTER_OFFER_ACTION: &'static str = "ApplyCounterOffer";

/// The long-running operation that currently holds the vault's lock.
#[derive(PartialEq, Eq, Structural, Copy, Clone, Debug)]
pub enum ProcessingState {
    Idle,
    Delegate,
    ClaimUnstaked,
    RequestLiquidity,
    Undelegate,
    RepayLoan,
    ProcessClaims,
    ClaimVault,
}

/// NEAR unstaked from one validator and the epoch of the latest unstake.
#[derive(PartialEq, Eq, Structural, Copy, Clone, Debug)]
pub struct UnstakeEntry {
    pub amount: u128,
    pub epoch_height: u64,
}

/// A liquidity request waiting for the validators' stake to be confirmed.
#[derive(PartialEq, Eq, Clone, Debug)]
pub struct PendingLiquidityRequest {
    pub token: String,
    pub amount: u128,
    pub interest: u128,
    pub collateral: u128,
    pub duration: u64,
}

/// An open liquidity request of the vault owner.
#[derive(PartialEq, Eq, Clone, Debug)]
pub struct LiquidityRequest {
    pub token: String,
    pub amount: u128,
    pub interest: u128,
    pub collateral: u128,
    pub duration: u64,
    pub created_at: u64,
}

/// The lender whose funds were accepted, and when.
#[derive(PartialEq, Eq, Clone, Debug)]
pub struct AcceptedOffer {
    pub lender: String,
    pub accepted_at: u64,
}

/// A lender's offer of less than the requested amount.
#[derive(PartialEq, Eq, Clone, Debug)]
pub struct CounterOffer {
    pub proposer: String,
    pub amount: u128,
    pub timestamp: u64,
}

/// NEAR paid to the lender so far during liquidation.
#[derive(PartialEq, Eq, Structural, Copy, Clone, Debug)]
pub struct Liquidation {
    pub liquidated: u128,
}

/// A refund whose transfer failed and that can be retried.
/// `token == None` refunds NEAR.
#[derive(PartialEq, Eq, Clone, Debug)]
pub struct RefundEntry {
    pub token: Option<String>,
    pub proposer: String,
    pub amount: u128,
    pub added_at_epoch: u64,
}

/// Terms a lender sends along with tokens.
#[derive(PartialEq, Eq, Clone, Debug)]
pub struct ApplyCounterOfferMessage {
    pub action: String,
    pub token: String,
    pub amount: u128,
    pub interest: u128,
    pub collateral: u128,
    pub duration: u64,
}

/// A counter offer message has the same fields as an apply message.
pub type CounterOfferMessage = ApplyCounterOfferMessage;

/// Snapshot returned by `get_vault_state`.
#[derive(PartialEq, Eq, Clone, Debug)]
pub struct VaultViewState {
    pub owner: String,
    pub index: u64,
    pub version: u64,
    pub liquidity_request: Option<LiquidityRequest>,
    pub accepted_offer: Option<AcceptedOffer>,
    pub is_listed_for_takeover: bool,
    pub active_validators: Vec<String>,
    pub unstake_entries: Vec<(String, UnstakeEntry)>,
    pub liquidation: Option<Liquidation>,
    pub current_epoch: u64,
}

/// Prefixes of the vault's persistent collections.
#[derive(PartialEq, Eq, Structural, Copy, Clone, Debug)]
pub enum StorageKey {
    ActiveValidators,
    CounterOffers,
    UnstakeEntries,
    RefundList,
}

/// The single byte that Borsh writes for a variant of a fieldless enum: its index.
pub open spec fn storage_key_index(k: StorageKey) -> u8 {
    match k {
        StorageKey::ActiveValidators => 0,
        StorageKey::CounterOffers => 1,
        StorageKey::UnstakeEntries => 2,
        StorageKey::RefundList => 3,
    }
}

impl StorageKey {
    /// The storage prefix of a collection: the Borsh encoding of the key.
    pub fn into_storage_key(self) -> (r: Vec<u8>)
        ensures
            r@ == seq![storage_key_index(self)],
    {
        let b: u8 = match self {
            StorageKey::ActiveValidators => 0,
            StorageKey::CounterOffers => 1,
            StorageKey::UnstakeEntries => 2,
            StorageKey::RefundList => 3,
        };
        let mut v: Vec<u8> = Vec::new();
        v.push(b);
        v
    }
}

impl LiquidityRequest {
    /// A copy of the request.
    pub fn duplicate(&self) -> (r: Self)
        ensures
            r == *self,
    {
        LiquidityRequest {
            token: self.token.clone(),
            amount: self.amount,
            interest: self.interest,
            collateral: self.collateral,
            duration: self.duration,
            created_at: self.created_at,
        }
    }
}

impl PendingLiquidityRequest {
    /// A copy of the pending request.
    pub fn duplicate(&self) -> (r: Self)
        ensures
            r == *self,
    {
        PendingLiquidityRequest {
            token: self.token.clone(),
            amount: self.amount,
            interest: self.interest,
            collateral: self.collateral,
            duration: self.duration,
        }
    }
}

impl AcceptedOffer {
    /// A copy of the accepted offer.
    pub fn duplicate(&self) -> (r: Self)
        ensures
            r == *self,
    {
        AcceptedOffer { lender: self.lender.clone(), accepted_at: self.accepted_at }
    }
}

impl CounterOffer {
    /// A copy of the counter offer.
    pub fn duplicate(&self) -> (r: Self)
        ensures
            r == *self,
    {
        CounterOffer { proposer: self.proposer.clone(), amount: self.amount, timestamp: self.timestamp }
    }
}

impl RefundEntry {
    /// A copy of the refund entry.
    pub fn duplicate(&self) -> (r: Self)
        ensures
            r == *self,
    {
        let token = match &self.token {
            Some(t) => Some(t.clone()),
            None => None,
        };
        RefundEntry {
            token,
            proposer: self.proposer.clone(),
            amount: self.amount,
            added_at_epoch: self.added_at_epoch,
        }
    }
}

} // verus!
