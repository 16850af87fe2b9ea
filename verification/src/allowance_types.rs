//! Data model of the allowances contract.

use vstd::prelude::*;

verus! {

/// Seconds in one day, the unit of every recurring schedule.
pub const SECONDS_PER_DAY: u64 = 86_400;

/// How often an allowance pays out.
#[derive(Clone, Copy, Debug, PartialEq, Eq, Structural)]
pub enum Frequency {
    /// A single payment; the allowance ends after it.
    Once,
    /// Every 24 hours.
    Daily,
    /// Every 7 days.
    Weekly,
    /// Every 30 days.
    Monthly,
}

impl Frequency {
    /// The distance in seconds between two payments, `None` for a one-off.
    pub open spec fn spec_interval(self) -> Option<u64> {
        match self {
            Frequency::Once => None,
            Frequency::Daily => Some(SECONDS_PER_DAY),
            Frequency::Weekly => Some((7 * SECONDS_PER_DAY) as u64),
            Frequency::Monthly => Some((30 * SECONDS_PER_DAY) as u64),
        }
    }

    /// The distance in seconds between two payments, `None` for a one-off.
    pub fn interval_seconds(&self) -> (r: Option<u64>)
        ensures
            r == self.spec_interval(),
            r matches Some(i) ==> i >= SECONDS_PER_DAY,
    {
        match self {
            Frequency::Once => None,
            Frequency::Daily => Some(SECONDS_PER_DAY),
            Frequency::Weekly => Some(7 * SECONDS_PER_DAY),
            Frequency::Monthly => Some(30 * SECONDS_PER_DAY),
        }
    }
}

/// A recurring payment from `owner` to `recipient` in `token`.
/// Addresses are held in their textual (strkey) form.
#[derive(Debug)]
pub struct Allowance {
    pub owner: String,
    pub recipient: String,
    pub token: String,
    pub amount: i128,
    pub frequency: Frequency,
    pub next_distribution: u64,
    pub distribution_count: u32,
    pub active: bool,
    pub paused: bool,
    /// Cap on the cumulative amount ever paid; `0` means unlimited.
    pub spending_limit: i128,
    /// Time from which no more payments are made; `0` means never.
    pub end_date: u64,
}

impl Clone for Allowance {
    fn clone(&self) -> (r: Self)
        ensures
            r == *self,
    {
        Allowance {
            owner: self.owner.clone(),
            recipient: self.recipient.clone(),
            token: self.token.clone(),
            amount: self.amount,
            frequency: self.frequency,
            next_distribution: self.next_distribution,
            distribution_count: self.distribution_count,
            active: self.active,
            paused: self.paused,
            spending_limit: self.spending_limit,
            end_date: self.end_date,
        }
    }
}

/// One payment made by an allowance.
#[derive(Debug)]
pub struct PaymentRecord {
    pub amount: i128,
    pub timestamp: u64,
    /// The recipient at the time of this payment.
    pub recipient: String,
}

impl Clone for PaymentRecord {
    fn clone(&self) -> (r: Self)
        ensures
            r == *self,
    {
        PaymentRecord { amount: self.amount, timestamp: self.timestamp, recipient: self.recipient.clone() }
    }
}

/// Why an allowance operation was refused.
#[derive(Clone, Copy, Debug, PartialEq, Eq, Structural)]
pub enum AllowanceError {
    NotFound,
    InvalidAmount,
    AlreadyInactive,
    Paused,
    AlreadyPaused,
    NotPaused,
    TooEarlyToDistribute,
    InsufficientBalance,
    SpendingLimitExceeded,
    InvalidLimit,
    Expired,
    InvalidExpiration,
}

} // verus!
