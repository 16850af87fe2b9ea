//! Data model of the rewards contract.

use vstd::prelude::*;

verus! {

/// What a reward was earned for.
#[derive(Clone, Copy, Debug, PartialEq, Eq, Structural)]
pub enum RewardType {
    SpendingLimit,
    SavingsGoal,
    Streak,
    Referral,
    ManualGrant,
}

/// Where a reward stands in its life cycle.
#[derive(Clone, Copy, Debug, PartialEq, Eq, Structural)]
pub enum RewardStatus {
    Pending,
    Confirmed,
    Claimed,
    Cancelled,
}

/// A participant's reward account. Amounts are in stroops; times are
/// ledger sequence numbers.
#[derive(Debug)]
pub struct RewardAccount {
    pub owner: String,
    pub balance: i128,
    pub lifetime_earned: i128,
    pub lifetime_claimed: i128,
    pub created_at: u64,
    pub last_updated: u64,
}

impl Clone for RewardAccount {
    fn clone(&self) -> (r: Self)
        ensures
            r == *self,
    {
        RewardAccount {
            owner: self.owner.clone(),
            balance: self.balance,
            lifetime_earned: self.lifetime_earned,
            lifetime_claimed: self.lifetime_claimed,
            created_at: self.created_at,
            last_updated: self.last_updated,
        }
    }
}

/// One reward granted to a recipient.
#[derive(Debug)]
pub struct RewardTransaction {
    pub id: u64,
    pub recipient: String,
    pub amount: i128,
    pub reward_type: RewardType,
    pub status: RewardStatus,
    pub created_at: u64,
    pub updated_at: u64,
}

impl Clone for RewardTransaction {
    fn clone(&self) -> (r: Self)
        ensures
            r == *self,
    {
        RewardTransaction {
            id: self.id,
            recipient: self.recipient.clone(),
            amount: self.amount,
            reward_type: self.reward_type,
            status: self.status,
            created_at: self.created_at,
            updated_at: self.updated_at,
        }
    }
}

/// Why a rewards operation was refused.
#[derive(Clone, Copy, Debug, PartialEq, Eq, Structural)]
pub enum RewardsError {
    /// The contract was already initialised.
    AlreadyInitialized,
    /// The contract has not been initialised.
    NotInitialized,
    /// The participant already has a reward account.
    AccountAlreadyRegistered,
}

} // verus!
