//! The closed error taxonomy.  Every error aborts its call with no state
//! mutation; the variants carry structured fields so a caller can branch
//! on the kind programmatically.

use vstd::prelude::*;

verus! {

/// Why a call was rejected.
#[derive(Debug, PartialEq, Eq)]
pub enum ContractError {
    /// A non-admin called an admin-only operation.
    Unauthorized {},
    /// Identifier derivation collided with an existing record.
    SwapAlreadyExists { swap_id: String },
    /// No record under this identifier.
    SwapNotFound { swap_id: String },
    /// The swap already reached the completed state.
    SwapAlreadyCompleted {},
    /// The swap already reached the refunded state.
    SwapAlreadyRefunded {},
    /// Refund attempted before the timelock elapsed.
    SwapNotExpired { current_time: u64, expiry: u64 },
    /// Completion attempted at or after the timelock.
    SwapExpired { current_time: u64, expiry: u64 },
    /// The revealed secret does not hash to the stored hashlock; carries
    /// both hashes so the caller can diagnose the mismatch.
    InvalidSecret { expected: String, actual: String },
    /// The requested timelock is not within the configured bounds,
    /// exclusive on both ends, relative to the current time.
    InvalidTimelock { min: u64, max: u64 },
    /// Kept for callers that map transfer failures onto the taxonomy; the
    /// engine itself never raises it.
    InsufficientFunds { required: String, available: String },
    /// Only the swap's initiator may perform this action.
    OnlyInitiator {},
    /// Only the swap's participant may perform this action.
    OnlyParticipant {},
    /// The principal amount must be greater than zero.
    InvalidAmount {},
    /// The attached safety deposit is below the configured minimum.
    SafetyDepositTooLow { minimum: u128 },
    /// The contract is paused; only admin actions are permitted.
    ContractPaused {},
    /// The hashlock is not a 64-character hex string.
    InvalidHashlock {},
}

/// The mathematical value of an error.
#[verifier::ext_equal]
pub enum ErrorView {
    Unauthorized,
    SwapAlreadyExists { swap_id: Seq<char> },
    SwapNotFound { swap_id: Seq<char> },
    SwapAlreadyCompleted,
    SwapAlreadyRefunded,
    SwapNotExpired { current_time: u64, expiry: u64 },
    SwapExpired { current_time: u64, expiry: u64 },
    InvalidSecret { expected: Seq<char>, actual: Seq<char> },
    InvalidTimelock { min: u64, max: u64 },
    InsufficientFunds { required: Seq<char>, available: Seq<char> },
    OnlyInitiator,
    OnlyParticipant,
    InvalidAmount,
    SafetyDepositTooLow { minimum: u128 },
    ContractPaused,
    InvalidHashlock,
}

impl View for ContractError {
    type V = ErrorView;

    open spec fn view(&self) -> ErrorView {
        match self {
            ContractError::Unauthorized {} => ErrorView::Unauthorized,
            ContractError::SwapAlreadyExists { swap_id } => ErrorView::SwapAlreadyExists {
                swap_id: swap_id@,
            },
            ContractError::SwapNotFound { swap_id } => ErrorView::SwapNotFound {
                swap_id: swap_id@,
            },
            ContractError::SwapAlreadyCompleted {} => ErrorView::SwapAlreadyCompleted,
            ContractError::SwapAlreadyRefunded {} => ErrorView::SwapAlreadyRefunded,
            ContractError::SwapNotExpired { current_time, expiry } => ErrorView::SwapNotExpired {
                current_time: *current_time,
                expiry: *expiry,
            },
            ContractError::SwapExpired { current_time, expiry } => ErrorView::SwapExpired {
                current_time: *current_time,
                expiry: *expiry,
            },
            ContractError::InvalidSecret { expected, actual } => ErrorView::InvalidSecret {
                expected: expected@,
                actual: actual@,
            },
            ContractError::InvalidTimelock { min, max } => ErrorView::InvalidTimelock {
                min: *min,
                max: *max,
            },
            ContractError::InsufficientFunds { required, available } => ErrorView::InsufficientFunds {
                required: required@,
                available: available@,
            },
            ContractError::OnlyInitiator {} => ErrorView::OnlyInitiator,
            ContractError::OnlyParticipant {} => ErrorView::OnlyParticipant,
            ContractError::InvalidAmount {} => ErrorView::InvalidAmount,
            ContractError::SafetyDepositTooLow { minimum } => ErrorView::SafetyDepositTooLow {
                minimum: *minimum,
            },
            ContractError::ContractPaused {} => ErrorView::ContractPaused,
            ContractError::InvalidHashlock {} => ErrorView::InvalidHashlock,
        }
    }
}

} // verus!
