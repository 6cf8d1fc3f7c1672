//! State-transition logic of a crowdfunding ledger.
//!
//! Campaigns are created with a fixed deadline, receive contributions while
//! the deadline lies in the future, and are settled by their owner once it
//! has passed.  A bounded registry indexes all live campaigns.  The whole
//! deployment (registry, campaign records and account balances) is modelled
//! as one value, and every operation is a verified transition on it.

pub mod balances;
pub mod campaign;
pub mod error;
pub mod keys;
pub mod laws;
pub mod ops;
pub mod registry;
pub mod state;

pub use balances::AccountBalance;
pub use campaign::Campaign;
pub use error::ErrorCode;
pub use keys::Pubkey;
pub use registry::CampaignState;
pub use state::Crowdfunding;

use vstd::prelude::*;

verus! {

/// Capacity bound of the campaign registry.
pub const MAX_CAMPAIGNS: usize = 100;

/// Longest admissible campaign title, in characters.
pub const MAX_TITLE_LEN: usize = 200;

/// Longest admissible campaign description, in characters.
pub const MAX_DESCRIPTION_LEN: usize = 1000;

} // verus!
