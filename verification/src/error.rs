//! Typed failures of the four operations.

use vstd::prelude::*;

verus! {

/// Every way an operation can fail.  A failed operation mutates nothing:
/// the error is the whole observable outcome.
#[derive(Clone, Copy, PartialEq, Eq, Structural, Debug)]
pub enum ErrorCode {
    /// Registry creation attempted twice.
    AlreadyInitialized,
    /// Create called with a deadline not strictly in the future.
    DeadlineMustBeInFuture,
    /// Create called with a campaign address already in use.
    DuplicateCampaign,
    /// Registry already holds the maximum number of campaigns.
    RegistryFull,
    /// Contribute called at or after the campaign's deadline.
    CampaignExpired,
    /// Contributor's balance is below the requested amount.
    InsufficientFunds,
    /// An accumulator or balance addition would exceed `u64::MAX`.
    Overflow,
    /// Withdraw caller is not the campaign owner.
    Unauthorized,
    /// Withdraw called before the campaign's deadline.
    DeadlineNotReached,
    /// Registry and records disagree: a defect, never a user error.
    InternalInconsistency,
}

/// The human-readable text of each failure.
pub open spec fn spec_message(e: ErrorCode) -> Seq<char> {
    match e {
        ErrorCode::AlreadyInitialized => "Registry has already been initialized"@,
        ErrorCode::DeadlineMustBeInFuture => "Deadline must be in the future"@,
        ErrorCode::DuplicateCampaign => "A campaign with this owner and title already exists"@,
        ErrorCode::RegistryFull => "Registry is at capacity"@,
        ErrorCode::CampaignExpired => "Campaign has already expired"@,
        ErrorCode::InsufficientFunds => "Insufficient funds to contribute"@,
        ErrorCode::Overflow => "Overflow detected"@,
        ErrorCode::Unauthorized => "Only the campaign owner may withdraw"@,
        ErrorCode::DeadlineNotReached => "Deadline has not been reached"@,
        ErrorCode::InternalInconsistency => "Registry and campaign records disagree"@,
    }
}

impl ErrorCode {
    /// The failure's message text.
    pub fn message(&self) -> (r: &'static str)
        ensures
            r@ == spec_message(*self),
    {
        match self {
            ErrorCode::AlreadyInitialized => "Registry has already been initialized",
            ErrorCode::DeadlineMustBeInFuture => "Deadline must be in the future",
            ErrorCode::DuplicateCampaign => "A campaign with this owner and title already exists",
            ErrorCode::RegistryFull => "Registry is at capacity",
            ErrorCode::CampaignExpired => "Campaign has already expired",
            ErrorCode::InsufficientFunds => "Insufficient funds to contribute",
            ErrorCode::Overflow => "Overflow detected",
            ErrorCode::Unauthorized => "Only the campaign owner may withdraw",
            ErrorCode::DeadlineNotReached => "Deadline has not been reached",
            ErrorCode::InternalInconsistency => "Registry and campaign records disagree",
        }
    }
}

} // verus!
