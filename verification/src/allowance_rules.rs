//! The rules that govern a single allowance: creation, payment and the
//! owner's management operations. Each operation is a function from the
//! allowance before to the allowance after, or the error that refuses it.

use vstd::prelude::*;
use vstd::arithmetic::div_mod::{lemma_fundamental_div_mod, lemma_fundamental_div_mod_converse};

use crate::allowance_types::{Allowance, AllowanceError, Frequency, PaymentRecord};

verus! {

/// The first payment slot after `now` on the grid `next + k * interval`
/// (`k >= 1`), for a schedule whose slot `next` is due (`next <= now`).
/// Missed slots are skipped rather than paid later.
pub open spec fn next_due(next: u64, interval: u64, now: u64) -> int {
    next + interval * ((now - next) / (interval as int) + 1)
}

/// The allowance has an end date that `now` has reached.
pub open spec fn spec_is_expired(a: Allowance, now: u64) -> bool {
    a.end_date != 0 && now >= a.end_date
}

/// Paying once more would take the cumulative amount over a set cap.
pub open spec fn exceeds_limit(a: Allowance) -> bool {
    a.spending_limit > 0 && {
        let projected = a.amount * (a.distribution_count + 1);
        projected > a.spending_limit || projected < i128::MIN
    }
}

/// The first reason, in the order they are checked, that a payment at `now`
/// is refused without consulting the owner's balance.
pub open spec fn schedule_error(a: Allowance, now: u64) -> Option<AllowanceError> {
    if !a.active {
        Some(AllowanceError::AlreadyInactive)
    } else if a.paused {
        Some(AllowanceError::Paused)
    } else if spec_is_expired(a, now) {
        Some(AllowanceError::Expired)
    } else if now < a.next_distribution {
        Some(AllowanceError::TooEarlyToDistribute)
    } else if exceeds_limit(a) {
        Some(AllowanceError::SpendingLimitExceeded)
    } else {
        None
    }
}

/// The first reason, in the order they are checked, that a payment at
/// `now` is refused when the owner holds `owner_balance` of the token.
pub open spec fn distribution_error(a: Allowance, now: u64, owner_balance: i128) -> Option<AllowanceError> {
    if !a.active {
        Some(AllowanceError::AlreadyInactive)
    } else if a.paused {
        Some(AllowanceError::Paused)
    } else if spec_is_expired(a, now) {
        Some(AllowanceError::Expired)
    } else if now < a.next_distribution {
        Some(AllowanceError::TooEarlyToDistribute)
    } else if exceeds_limit(a) {
        Some(AllowanceError::SpendingLimitExceeded)
    } else if owner_balance < a.amount {
        Some(AllowanceError::InsufficientBalance)
    } else {
        None
    }
}

/// The allowance after a payment at `now`: one more payment counted, a
/// one-off allowance closed, a recurring one moved to its next slot.
pub open spec fn after_distribution(a: Allowance, now: u64) -> Allowance {
    match a.frequency.spec_interval() {
        None => Allowance {
            distribution_count: (a.distribution_count + 1) as u32,
            active: false,
            next_distribution: 0,
            ..a
        },
        Some(interval) => Allowance {
            distribution_count: (a.distribution_count + 1) as u32,
            next_distribution: next_due(a.next_distribution, interval, now) as u64,
            ..a
        },
    }
}

/// The record of a payment made by `a` at `now`.
pub open spec fn payment_of(a: Allowance, now: u64) -> PaymentRecord {
    PaymentRecord { amount: a.amount, timestamp: now, recipient: a.recipient }
}

/// The outcome of asking `a` to pay at `now`.
pub open spec fn spec_distribution(a: Allowance, now: u64, owner_balance: i128) -> Result<(Allowance, PaymentRecord), AllowanceError> {
    match distribution_error(a, now, owner_balance) {
        Some(e) => Err(e),
        None => Ok((after_distribution(a, now), payment_of(a, now))),
    }
}

/// The payment counter is full when the cap check consults it.
pub open spec fn cap_check_overflows(a: Allowance, now: u64) -> bool {
    &&& a.active && !a.paused && !spec_is_expired(a, now) && now >= a.next_distribution
    &&& a.spending_limit > 0 && a.distribution_count == u32::MAX
}

/// The inputs on which a payment overflows a counter or the clock: the
/// payment counter is full when it is consulted, or the next slot lies
/// beyond the largest time.
pub open spec fn distribution_overflows(a: Allowance, now: u64, owner_balance: i128) -> bool {
    let reaches_cap_check = a.active && !a.paused && !spec_is_expired(a, now) && now >= a.next_distribution;
    reaches_cap_check && (
        (a.spending_limit > 0 && a.distribution_count == u32::MAX)
        || (distribution_error(a, now, owner_balance) is None && (
            a.distribution_count == u32::MAX
            || (a.frequency.spec_interval() matches Some(i) && next_due(a.next_distribution, i, now) > u64::MAX)
        ))
    )
}

/// A new allowance as created from the owner's request, or the refusal.
pub open spec fn spec_create(
    owner: String,
    recipient: String,
    token: String,
    amount: i128,
    frequency: Frequency,
    start_time: u64,
) -> Result<Allowance, AllowanceError> {
    if amount <= 0 {
        Err(AllowanceError::InvalidAmount)
    } else {
        Ok(Allowance {
            owner,
            recipient,
            token,
            amount,
            frequency,
            next_distribution: start_time,
            distribution_count: 0,
            active: true,
            paused: false,
            spending_limit: 0,
            end_date: 0,
        })
    }
}

/// Pausing: only an active allowance that is not yet paused.
pub open spec fn spec_pause(a: Allowance) -> Result<Allowance, AllowanceError> {
    if !a.active {
        Err(AllowanceError::AlreadyInactive)
    } else if a.paused {
        Err(AllowanceError::AlreadyPaused)
    } else {
        Ok(Allowance { paused: true, ..a })
    }
}

/// Resuming: only an active allowance that is paused.
pub open spec fn spec_resume(a: Allowance) -> Result<Allowance, AllowanceError> {
    if !a.active {
        Err(AllowanceError::AlreadyInactive)
    } else if !a.paused {
        Err(AllowanceError::NotPaused)
    } else {
        Ok(Allowance { paused: false, ..a })
    }
}

/// Cancelling: only an active allowance; it stays inactive for good.
pub open spec fn spec_cancel(a: Allowance) -> Result<Allowance, AllowanceError> {
    if !a.active {
        Err(AllowanceError::AlreadyInactive)
    } else {
        Ok(Allowance { active: false, ..a })
    }
}

/// Redirecting future payments of an active allowance to `new_recipient`.
pub open spec fn spec_update_beneficiary(a: Allowance, new_recipient: String) -> Result<Allowance, AllowanceError> {
    if !a.active {
        Err(AllowanceError::AlreadyInactive)
    } else {
        Ok(Allowance { recipient: new_recipient, ..a })
    }
}

/// Setting the cumulative cap; a negative cap is refused first, `0` lifts it.
pub open spec fn spec_set_spending_limit(a: Allowance, limit: i128) -> Result<Allowance, AllowanceError> {
    if limit < 0 {
        Err(AllowanceError::InvalidLimit)
    } else if !a.active {
        Err(AllowanceError::AlreadyInactive)
    } else {
        Ok(Allowance { spending_limit: limit, ..a })
    }
}

/// Setting the end date at time `now`: `0` clears it, any other value must
/// lie in the future.
pub open spec fn spec_set_expiration(a: Allowance, end_date: u64, now: u64) -> Result<Allowance, AllowanceError> {
    if !a.active {
        Err(AllowanceError::AlreadyInactive)
    } else if end_date != 0 && end_date <= now {
        Err(AllowanceError::InvalidExpiration)
    } else {
        Ok(Allowance { end_date, ..a })
    }
}

/// Facts about `next_due` on which the schedule computation rests.
pub(crate) proof fn lemma_next_due(next: u64, interval: u64, now: u64)
    requires
        interval > 0,
        next <= now,
    ensures
        next + interval <= next_due(next, interval, now),
        now < next_due(next, interval, now),
        next_due(next, interval, now) - interval <= now,
        now < next + interval ==> next_due(next, interval, now) == next + interval,
        next + interval <= now ==> {
            let missed = (now - (next + interval)) / (interval as int);
            &&& 0 <= (missed + 1) * interval <= now - next
            &&& next + interval + (missed + 1) * interval == next_due(next, interval, now)
        },
{
    let d: int = now - next;
    let i: int = interval as int;
    let q: int = d / i;
    let r: int = d % i;
    lemma_fundamental_div_mod(d, i);
    assert(d == i * q + r);
    assert(0 <= r < i);
    assert(q >= 0) by (nonlinear_arith)
        requires d >= 0, i > 0, d == i * q + r, r < i;
    assert(i * (q + 1) == i * q + i) by (nonlinear_arith);
    assert(i * q >= 0) by (nonlinear_arith) requires i > 0, q >= 0;
    if next + interval <= now {
        let d2: int = d - i;
        assert(d2 == (q - 1) * i + r) by (nonlinear_arith) requires d2 == d - i, d == i * q + r;
        lemma_fundamental_div_mod_converse(d2, i, q - 1, r);
        assert((q - 1 + 1) * i == i * q) by (nonlinear_arith);
    } else {
        lemma_fundamental_div_mod_converse(d, i, 0, d);
    }
}

/// The slot that follows `next` once a payment is made at `now`.
fn advance_schedule(next: u64, interval: u64, now: u64) -> (r: u64)
    requires
        interval > 0,
        next <= now,
        next_due(next, interval, now) <= u64::MAX,
    ensures
        r == next_due(next, interval, now),
{
    proof {
        lemma_next_due(next, interval, now);
    }
    let mut due = next + interval;
    if due <= now {
        let missed = (now - due) / interval;
        due = due + (missed + 1) * interval;
    }
    due
}

impl Allowance {
    /// Builds a new allowance from the owner's request: active, unpaused,
    /// first payment due at `start_time`, no cap and no end date.
    pub fn create(
        owner: String,
        recipient: String,
        token: String,
        amount: i128,
        frequency: Frequency,
        start_time: u64,
    ) -> (r: Result<Allowance, AllowanceError>)
        ensures
            r == spec_create(owner, recipient, token, amount, frequency, start_time),
    {
        if amount <= 0 {
            return Err(AllowanceError::InvalidAmount);
        }
        Ok(Allowance {
            owner,
            recipient,
            token,
            amount,
            frequency,
            next_distribution: start_time,
            distribution_count: 0,
            active: true,
            paused: false,
            spending_limit: 0,
            end_date: 0,
        })
    }

    /// Whether the end date has been reached at `now`.
    pub fn is_expired_at(&self, now: u64) -> (r: bool)
        ensures
            r == spec_is_expired(*self, now),
    {
        self.end_date != 0 && now >= self.end_date
    }

    /// The allowance paused, or the refusal.
    pub fn try_pause(&self) -> (r: Result<Allowance, AllowanceError>)
        ensures
            r == spec_pause(*self),
    {
        if !self.active {
            return Err(AllowanceError::AlreadyInactive);
        }
        if self.paused {
            return Err(AllowanceError::AlreadyPaused);
        }
        let mut next = self.clone();
        next.paused = true;
        Ok(next)
    }

    /// The allowance resumed, or the refusal.
    pub fn try_resume(&self) -> (r: Result<Allowance, AllowanceError>)
        ensures
            r == spec_resume(*self),
    {
        if !self.active {
            return Err(AllowanceError::AlreadyInactive);
        }
        if !self.paused {
            return Err(AllowanceError::NotPaused);
        }
        let mut next = self.clone();
        next.paused = false;
        Ok(next)
    }

    /// The allowance cancelled, or the refusal.
    pub fn try_cancel(&self) -> (r: Result<Allowance, AllowanceError>)
        ensures
            r == spec_cancel(*self),
    {
        if !self.active {
            return Err(AllowanceError::AlreadyInactive);
        }
        let mut next = self.clone();
        next.active = false;
        Ok(next)
    }

    /// The allowance paying `new_recipient` from now on, or the refusal.
    pub fn try_update_beneficiary(&self, new_recipient: String) -> (r: Result<Allowance, AllowanceError>)
        ensures
            r == spec_update_beneficiary(*self, new_recipient),
    {
        if !self.active {
            return Err(AllowanceError::AlreadyInactive);
        }
        let mut next = self.clone();
        next.recipient = new_recipient;
        Ok(next)
    }

    /// The allowance with cap `limit`, or the refusal.
    pub fn try_set_spending_limit(&self, limit: i128) -> (r: Result<Allowance, AllowanceError>)
        ensures
            r == spec_set_spending_limit(*self, limit),
    {
        if limit < 0 {
            return Err(AllowanceError::InvalidLimit);
        }
        if !self.active {
            return Err(AllowanceError::AlreadyInactive);
        }
        let mut next = self.clone();
        next.spending_limit = limit;
        Ok(next)
    }

    /// The allowance ending at `end_date`, set at time `now`, or the refusal.
    pub fn try_set_expiration(&self, end_date: u64, now: u64) -> (r: Result<Allowance, AllowanceError>)
        ensures
            r == spec_set_expiration(*self, end_date, now),
    {
        if !self.active {
            return Err(AllowanceError::AlreadyInactive);
        }
        if end_date != 0 && end_date <= now {
            return Err(AllowanceError::InvalidExpiration);
        }
        let mut next = self.clone();
        next.end_date = end_date;
        Ok(next)
    }

    /// The first reason, among the checks made before the owner's balance
    /// is consulted, that a payment at `now` is refused, if any. A payment
    /// is refused for some balance exactly when it is refused here or the
    /// balance is below the amount.
    pub fn schedule_check(&self, now: u64) -> (r: Option<AllowanceError>)
        requires
            !cap_check_overflows(*self, now),
        ensures
            r == schedule_error(*self, now),
            forall|owner_balance: i128| #[trigger] distribution_error(*self, now, owner_balance) == match r {
                Some(e) => Some(e),
                None => if owner_balance < self.amount {
                    Some(AllowanceError::InsufficientBalance)
                } else {
                    None
                },
            },
    {
        if !self.active {
            return Some(AllowanceError::AlreadyInactive);
        }
        if self.paused {
            return Some(AllowanceError::Paused);
        }
        if self.end_date != 0 && now >= self.end_date {
            return Some(AllowanceError::Expired);
        }
        if now < self.next_distribution {
            return Some(AllowanceError::TooEarlyToDistribute);
        }
        if self.spending_limit > 0 {
            let next_count = (self.distribution_count + 1) as i128;
            match self.amount.checked_mul(next_count) {
                None => return Some(AllowanceError::SpendingLimitExceeded),
                Some(projected) => {
                    if projected > self.spending_limit {
                        return Some(AllowanceError::SpendingLimitExceeded);
                    }
                },
            }
        }
        None
    }

    /// Whether consulting the payment counter in the cap check at `now`
    /// would overflow it.
    pub fn cap_check_overflows_at(&self, now: u64) -> (r: bool)
        ensures
            r == cap_check_overflows(*self, now),
    {
        self.active && !self.paused && !self.is_expired_at(now) && now >= self.next_distribution
            && self.spending_limit > 0 && self.distribution_count == u32::MAX
    }

    /// The first reason a payment at `now` is refused, if any.
    pub fn distribution_check(&self, now: u64, owner_balance: i128) -> (r: Option<AllowanceError>)
        requires
            !cap_check_overflows(*self, now),
        ensures
            r == distribution_error(*self, now, owner_balance),
    {
        match self.schedule_check(now) {
            Some(e) => Some(e),
            None => {
                if owner_balance < self.amount {
                    Some(AllowanceError::InsufficientBalance)
                } else {
                    None
                }
            },
        }
    }

    /// Whether a payment at `now` would overflow the payment counter or the
    /// clock, the inputs on which paying is not defined.
    pub fn distribution_overflows_at(&self, now: u64, owner_balance: i128) -> (r: bool)
        ensures
            r == distribution_overflows(*self, now, owner_balance),
    {
        let reaches = self.active && !self.paused && !self.is_expired_at(now) && now >= self.next_distribution;
        if !reaches {
            return false;
        }
        if self.spending_limit > 0 && self.distribution_count == u32::MAX {
            return true;
        }
        if self.distribution_check(now, owner_balance).is_some() {
            return false;
        }
        if self.distribution_count == u32::MAX {
            return true;
        }
        match self.frequency.interval_seconds() {
            None => false,
            Some(interval) => {
                let slots = ((now - self.next_distribution) / interval) as u128;
                let step = interval as u128;
                assert(step * (slots + 1) <= 0xffff_ffff_ffff_ffff * 0x1_0000_0000_0000_0000) by (nonlinear_arith)
                    requires
                        step <= 0xffff_ffff_ffff_ffff,
                        slots <= 0xffff_ffff_ffff_ffff,
                ;
                let due = (self.next_distribution as u128) + step * (slots + 1);
                due > 0xffff_ffff_ffff_ffff
            },
        }
    }

    /// Asks the allowance to pay at `now`: on success, the allowance after
    /// the payment and the record of the payment, else the refusal.
    pub fn plan_distribution(&self, now: u64, owner_balance: i128) -> (r: Result<(Allowance, PaymentRecord), AllowanceError>)
        requires
            !distribution_overflows(*self, now, owner_balance),
        ensures
            r == spec_distribution(*self, now, owner_balance),
    {
        if let Some(e) = self.distribution_check(now, owner_balance) {
            return Err(e);
        }
        let record = PaymentRecord { amount: self.amount, timestamp: now, recipient: self.recipient.clone() };
        let mut next = self.clone();
        next.distribution_count = self.distribution_count + 1;
        match self.frequency.interval_seconds() {
            None => {
                next.active = false;
                next.next_distribution = 0;
            },
            Some(interval) => {
                next.next_distribution = advance_schedule(self.next_distribution, interval, now);
            },
        }
        Ok((next, record))
    }
}

} // verus!
