//! Reputation-facing traits, for structs that carry a reputation score, a
//! credibility rating, or an owning account.

use vstd::prelude::*;
use crate::types::AccountId;
use crate::profiles::{CredibilityUnit, Profile, ReputationUnit};

verus! {

/// Carried by structs that hold a reputation score.
pub trait HasReputation {
    /// Return the reputation for a given struct.
    fn get_reputation(&self) -> ReputationUnit;
}

/// Carried by structs that hold a credibility rating, used to weigh an
/// account's votes.
pub trait HasCredibility {
    /// Return the credibility for a given struct.
    fn get_credibility(&self) -> CredibilityUnit;
}

/// Carried by structs that belong to an account.
pub trait HasAccountId {
    fn get_account_id(&self) -> AccountId;
}

impl HasReputation for Profile {
    fn get_reputation(&self) -> ReputationUnit {
        self.reputation
    }
}

impl HasCredibility for Profile {
    fn get_credibility(&self) -> CredibilityUnit {
        self.credibility
    }
}

impl HasAccountId for Profile {
    fn get_account_id(&self) -> AccountId {
        self.account
    }
}

} // verus!
