//! Why a vault method refuses a call. A refused call changes nothing.

use vstd::prelude::*;
use crate::types::ProcessingState;

verus! {

#[derive(PartialEq, Eq, Clone, Debug)]
pub enum VaultError {
    /// Exactly one yoctoNEAR must be attached.
    RequiresOneYocto,
    /// Another operation holds the processing lock.
    Busy(ProcessingState),
    /// The caller is not the vault owner.
    NotOwner,
    /// No liquidity request is open (accepting, adding offers).
    NoLiquidityRequest,
    /// No liquidity request is open (cancelling a counter offer).
    NoLiquidityRequestOpen,
    /// No liquidity request is open (cancelling the request).
    NoActiveLiquidityRequest,
    /// The request has already been accepted.
    AlreadyAccepted,
    /// The request was accepted, so counter offers cannot be cancelled.
    CannotCancelAfterAccepted,
    /// The request was accepted, so it cannot be cancelled.
    CannotCancelRequestAfterAccepted,
    /// There are no counter offers (accepting).
    NoCounterOffers,
    /// There are no counter offers (cancelling).
    NoCounterOffersFound,
    /// The named proposer has no counter offer.
    CounterOfferNotFound,
    /// The caller has no counter offer to cancel.
    NoActiveOfferToCancel,
    /// The token contract or the message's token differs from the request's.
    TokenMismatch,
    /// The message's terms differ from the request's.
    MessageMismatch,
    /// A counter offer must be positive.
    ZeroOffer,
    /// A counter offer must be below the requested amount.
    OfferNotBelowRequest,
    /// The proposer already has a counter offer.
    DuplicateProposer,
    /// A new counter offer must beat the best one.
    OfferNotBest,
    /// No unstake entry is recorded for the validator.
    NoUnstakeEntry,
    /// The unstaked funds unlock at `required` epoch; it is `current`.
    NotYetClaimable { current: u64, required: u128 },
    /// Unstaked NEAR cannot be claimed during liquidation.
    ClaimDuringLiquidation,
    /// The vault is not listed for takeover.
    NotListed,
    /// The vault is already listed for takeover.
    AlreadyListed,
    /// The owner cannot buy their own vault.
    OwnerCannotClaim,
    /// The attached deposit must equal the price.
    WrongPurchasePrice { price: u128 },
    /// The amount must be positive.
    ZeroAmount,
    /// The amount exceeds the available balance.
    ExceedsAvailable { requested: u128, available: u128 },
    /// The vault already stakes with the maximum number of validators.
    TooManyValidators,
    /// Refunds are pending (delegating).
    PendingRefundsDelegate,
    /// Liquidation is in progress (delegating).
    DelegateDuringLiquidation,
    /// No lender's offer has been accepted.
    NoAcceptedOffer,
    /// The loan cannot be liquidated before `expiration`; it is `now`.
    LiquidationNotAllowed { expiration: u64, now: u64 },
    /// The vault stakes with no validator to query.
    NoActiveValidators,
    /// There is no loan to repay.
    NoActiveLoan,
    /// The loan is already being liquidated.
    LoanInLiquidation,
    /// A liquidity request is being verified.
    RequestInProgress,
    /// A liquidity request is already open.
    RequestAlreadyOpen,
    /// The vault is already matched with a lender.
    AlreadyMatched,
    /// Counter offers of an earlier request remain.
    CounterOffersNotCleared,
    /// Collateral must be positive.
    ZeroCollateral,
    /// The requested amount must be positive.
    ZeroRequestedAmount,
    /// The duration must be positive.
    ZeroDuration,
    /// The duration exceeds the maximum.
    DurationTooLong,
    /// No liquidity request is waiting for verification.
    NoPendingRequest,
    /// The amount the owner stated differs from the counter offer.
    OfferAmountMismatch,
    /// The validators reported more stake in total than a `u128` holds.
    StakeOverflow,
    /// No refund entry can be retried by the caller.
    NoRefundableEntries,
    /// The validator is not active.
    ValidatorNotActive,
    /// A liquidity request is open, so stake cannot be withdrawn.
    UndelegateWithRequestOpen,
    /// The new owner equals the current owner.
    SameOwner,
    /// Refunds are pending (withdrawing).
    PendingRefundsWithdraw,
    /// The NEAR withdrawal exceeds the available balance.
    NotEnoughBalance { available: u128, requested: u128 },
    /// NEAR cannot be withdrawn during liquidation.
    WithdrawNearDuringLiquidation,
    /// The requested token cannot be withdrawn while counter offers may be pending.
    WithdrawTokenWithOffersPending,
}

/// Why a direct acceptance of a liquidity request is refused.
#[derive(PartialEq, Eq, Clone, Debug)]
pub enum AcceptError {
    NoLiquidityRequest,
    AlreadyFulfilled,
    OwnerCannotFulfill,
    TokenMismatch,
    AmountMismatch,
    InterestMismatch,
    CollateralMismatch,
    DurationMismatch,
}

/// The text with which a refused direct acceptance is answered.
pub open spec fn accept_error_text(e: AcceptError) -> Seq<char> {
    match e {
        AcceptError::NoLiquidityRequest => "No liquidity request available"@,
        AcceptError::AlreadyFulfilled => "Liquidity request already fulfilled"@,
        AcceptError::OwnerCannotFulfill => "Vault owner cannot fulfill their own request"@,
        AcceptError::TokenMismatch => "Token mismatch"@,
        AcceptError::AmountMismatch => "Amount mismatch"@,
        AcceptError::InterestMismatch => "Interest mismatch"@,
        AcceptError::CollateralMismatch => "Collateral mismatch"@,
        AcceptError::DurationMismatch => "Duration mismatch"@,
    }
}

impl AcceptError {
    /// The text of the refusal.
    pub fn message(&self) -> (r: String)
        ensures
            r@ == accept_error_text(*self),
    {
        match self {
            AcceptError::NoLiquidityRequest => String::from_str("No liquidity request available"),
            AcceptError::AlreadyFulfilled => String::from_str("Liquidity request already fulfilled"),
            AcceptError::OwnerCannotFulfill => String::from_str("Vault owner cannot fulfill their own request"),
            AcceptError::TokenMismatch => String::from_str("Token mismatch"),
            AcceptError::AmountMismatch => String::from_str("Amount mismatch"),
            AcceptError::InterestMismatch => String::from_str("Interest mismatch"),
            AcceptError::CollateralMismatch => String::from_str("Collateral mismatch"),
            AcceptError::DurationMismatch => String::from_str("Duration mismatch"),
        }
    }
}

} // verus!
