use stellarspend::allowance_types::{AllowanceError, Frequency, SECONDS_PER_DAY};
use stellarspend::allowances::AllowancesContract;

const DAY: u64 = 86_400;

fn address(seed: u32) -> String {
    format!("GC{:054}", seed)
}

fn owner() -> String {
    address(1)
}

fn alice() -> String {
    address(2)
}

fn bob() -> String {
    address(3)
}

fn token() -> String {
    format!("CT{:054}", 9)
}

fn contract_with(frequency: Frequency, amount: i128, start: u64) -> (AllowancesContract, u64) {
    let mut c = AllowancesContract::new();
    let id = c.create_allowance(owner(), alice(), token(), amount, frequency, start).unwrap();
    (c, id)
}

#[test]
fn intervals_match_the_frequencies() {
    assert_eq!(SECONDS_PER_DAY, DAY);
    assert_eq!(Frequency::Once.interval_seconds(), None);
    assert_eq!(Frequency::Daily.interval_seconds(), Some(DAY));
    assert_eq!(Frequency::Weekly.interval_seconds(), Some(7 * DAY));
    assert_eq!(Frequency::Monthly.interval_seconds(), Some(30 * DAY));
}

#[test]
fn create_assigns_sequential_ids_and_defaults() {
    let mut c = AllowancesContract::new();
    assert_eq!(c.allowance_count(), 0);
    let id1 = c.create_allowance(owner(), alice(), token(), 100, Frequency::Daily, 1_000).unwrap();
    let id2 = c.create_allowance(owner(), bob(), token(), 50, Frequency::Weekly, 2_000).unwrap();
    assert_eq!((id1, id2), (1, 2));
    assert_eq!(c.allowance_count(), 2);

    let a = c.get_allowance(1).unwrap();
    assert_eq!(a.owner, owner());
    assert_eq!(a.recipient, alice());
    assert_eq!(a.token, token());
    assert_eq!(a.amount, 100);
    assert_eq!(a.frequency, Frequency::Daily);
    assert_eq!(a.next_distribution, 1_000);
    assert_eq!(a.distribution_count, 0);
    assert!(a.active);
    assert!(!a.paused);
    assert_eq!(a.spending_limit, 0);
    assert_eq!(a.end_date, 0);

    assert_eq!(c.get_owner_allowances(&owner()), vec![1, 2]);
    assert_eq!(c.get_recipient_allowances(&alice()), vec![1]);
    assert_eq!(c.get_recipient_allowances(&bob()), vec![2]);
    assert!(c.get_allowance_history(1).is_empty());
}

#[test]
fn create_rejects_non_positive_amounts() {
    let mut c = AllowancesContract::new();
    assert_eq!(c.create_allowance(owner(), alice(), token(), 0, Frequency::Daily, 0), Err(AllowanceError::InvalidAmount));
    assert_eq!(c.create_allowance(owner(), alice(), token(), -5, Frequency::Daily, 0), Err(AllowanceError::InvalidAmount));
    assert_eq!(c.allowance_count(), 0);
    assert!(c.get_owner_allowances(&owner()).is_empty());
}

#[test]
fn unknown_allowance_is_not_found() {
    let (mut c, _) = contract_with(Frequency::Daily, 10, 0);
    assert_eq!(c.get_allowance(0).err(), Some(AllowanceError::NotFound));
    assert_eq!(c.get_allowance(2).err(), Some(AllowanceError::NotFound));
    assert_eq!(c.distribute(7, 0, 1_000).err(), Some(AllowanceError::NotFound));
    assert_eq!(c.pause_allowance(7), Err(AllowanceError::NotFound));
    assert_eq!(c.is_expired(7, 0), Err(AllowanceError::NotFound));
    assert!(c.get_allowance_history(7).is_empty());
}

#[test]
fn daily_distribution_pays_and_advances_one_day() {
    let (mut c, id) = contract_with(Frequency::Daily, 100, 1_000);
    let after = c.distribute(id, 1_000, 500).unwrap();
    assert_eq!(after.distribution_count, 1);
    assert_eq!(after.next_distribution, 1_000 + DAY);
    assert!(after.active);
    let history = c.get_allowance_history(id);
    assert_eq!(history.len(), 1);
    assert_eq!(history[0].amount, 100);
    assert_eq!(history[0].timestamp, 1_000);
    assert_eq!(history[0].recipient, alice());
}

#[test]
fn distribution_before_due_time_is_refused() {
    let (mut c, id) = contract_with(Frequency::Weekly, 100, 1_000);
    assert_eq!(c.distribute(id, 999, 500).err(), Some(AllowanceError::TooEarlyToDistribute));
    c.distribute(id, 1_000, 500).unwrap();
    assert_eq!(c.distribute(id, 1_000 + 7 * DAY - 1, 500).err(), Some(AllowanceError::TooEarlyToDistribute));
    assert!(c.distribute(id, 1_000 + 7 * DAY, 500).is_ok());
}

#[test]
fn missed_slots_are_skipped_not_paid() {
    let (mut c, id) = contract_with(Frequency::Daily, 100, 0);
    // Paid 3.5 days late: one payment, next slot the 4th day.
    let after = c.distribute(id, 3 * DAY + DAY / 2, 1_000).unwrap();
    assert_eq!(after.next_distribution, 4 * DAY);
    assert_eq!(after.distribution_count, 1);
    assert_eq!(c.get_allowance_history(id).len(), 1);
    // Paid exactly on a later slot: the next slot follows it.
    let after = c.distribute(id, 6 * DAY, 1_000).unwrap();
    assert_eq!(after.next_distribution, 7 * DAY);
}

#[test]
fn one_off_allowance_closes_after_paying() {
    let (mut c, id) = contract_with(Frequency::Once, 40, 10);
    let after = c.distribute(id, 20, 40).unwrap();
    assert!(!after.active);
    assert_eq!(after.next_distribution, 0);
    assert_eq!(c.distribute(id, 30, 40).err(), Some(AllowanceError::AlreadyInactive));
}

#[test]
fn insufficient_balance_is_refused_without_change() {
    let (mut c, id) = contract_with(Frequency::Daily, 100, 0);
    assert_eq!(c.distribute(id, 0, 99).err(), Some(AllowanceError::InsufficientBalance));
    assert_eq!(c.get_allowance(id).unwrap().distribution_count, 0);
    assert!(c.get_allowance_history(id).is_empty());
}

#[test]
fn paused_allowance_does_not_pay_until_resumed() {
    let (mut c, id) = contract_with(Frequency::Daily, 100, 0);
    assert_eq!(c.pause_allowance(id), Ok(()));
    assert_eq!(c.pause_allowance(id), Err(AllowanceError::AlreadyPaused));
    assert_eq!(c.distribute(id, 0, 1_000).err(), Some(AllowanceError::Paused));
    assert_eq!(c.resume_allowance(id), Ok(()));
    assert_eq!(c.resume_allowance(id), Err(AllowanceError::NotPaused));
    assert!(c.distribute(id, 0, 1_000).is_ok());
}

#[test]
fn cancelled_allowance_refuses_everything() {
    let (mut c, id) = contract_with(Frequency::Daily, 100, 0);
    assert_eq!(c.cancel_allowance(id), Ok(()));
    assert!(!c.get_allowance(id).unwrap().active);
    assert_eq!(c.cancel_allowance(id), Err(AllowanceError::AlreadyInactive));
    assert_eq!(c.pause_allowance(id), Err(AllowanceError::AlreadyInactive));
    assert_eq!(c.resume_allowance(id), Err(AllowanceError::AlreadyInactive));
    assert_eq!(c.update_beneficiary(id, bob()), Err(AllowanceError::AlreadyInactive));
    assert_eq!(c.set_spending_limit(id, 10), Err(AllowanceError::AlreadyInactive));
    assert_eq!(c.set_spending_limit(id, -1), Err(AllowanceError::InvalidLimit));
    assert_eq!(c.set_expiration(id, 100, 0), Err(AllowanceError::AlreadyInactive));
    assert_eq!(c.distribute(id, 0, 1_000).err(), Some(AllowanceError::AlreadyInactive));
}

#[test]
fn beneficiary_update_redirects_future_payments_and_keeps_history() {
    let (mut c, id) = contract_with(Frequency::Daily, 100, 0);
    c.distribute(id, 0, 1_000).unwrap();
    assert_eq!(c.update_beneficiary(id, bob()), Ok(alice()));
    let after = c.distribute(id, DAY, 1_000).unwrap();
    assert_eq!(after.recipient, bob());
    let history = c.get_allowance_history(id);
    assert_eq!(history.len(), 2);
    assert_eq!(history[0].recipient, alice());
    assert_eq!(history[1].recipient, bob());
    assert_eq!(c.get_recipient_allowances(&bob()), vec![id]);
    assert_eq!(c.get_recipient_allowances(&alice()), vec![id]);
}

#[test]
fn spending_limit_caps_cumulative_payments() {
    let (mut c, id) = contract_with(Frequency::Daily, 100, 0);
    assert_eq!(c.set_spending_limit(id, -1), Err(AllowanceError::InvalidLimit));
    assert_eq!(c.set_spending_limit(id, 250), Ok(()));
    assert!(c.distribute(id, 0, 1_000).is_ok());
    assert!(c.distribute(id, DAY, 1_000).is_ok());
    assert_eq!(c.distribute(id, 2 * DAY, 1_000).err(), Some(AllowanceError::SpendingLimitExceeded));
    assert_eq!(c.set_spending_limit(id, 0), Ok(()));
    assert!(c.distribute(id, 2 * DAY, 1_000).is_ok());
    assert_eq!(c.get_allowance(id).unwrap().distribution_count, 3);
}

#[test]
fn spending_limit_overflow_counts_as_exceeded() {
    let (mut c, id) = contract_with(Frequency::Daily, i128::MAX, 0);
    c.set_spending_limit(id, i128::MAX).unwrap();
    assert!(c.distribute(id, 0, i128::MAX).is_ok());
    assert_eq!(c.distribute(id, DAY, i128::MAX).err(), Some(AllowanceError::SpendingLimitExceeded));
}

#[test]
fn expiration_stops_payments() {
    let (mut c, id) = contract_with(Frequency::Daily, 100, 0);
    assert_eq!(c.set_expiration(id, 50, 50), Err(AllowanceError::InvalidExpiration));
    assert_eq!(c.set_expiration(id, 2 * DAY, 10), Ok(()));
    assert_eq!(c.is_expired(id, 2 * DAY - 1), Ok(false));
    assert_eq!(c.is_expired(id, 2 * DAY), Ok(true));
    assert!(c.distribute(id, 0, 1_000).is_ok());
    assert_eq!(c.distribute(id, 2 * DAY, 1_000).err(), Some(AllowanceError::Expired));
    assert_eq!(c.set_expiration(id, 0, 3 * DAY), Ok(()));
    assert_eq!(c.is_expired(id, 3 * DAY), Ok(false));
    assert!(c.distribute(id, 3 * DAY, 1_000).is_ok());
}

#[test]
fn check_order_inactive_before_paused_before_expired() {
    let (mut c, id) = contract_with(Frequency::Daily, 100, 1_000);
    c.set_expiration(id, 500, 0).unwrap();
    c.pause_allowance(id).unwrap();
    assert_eq!(c.distribute(id, 600, 0).err(), Some(AllowanceError::Paused));
    c.resume_allowance(id).unwrap();
    assert_eq!(c.distribute(id, 600, 0).err(), Some(AllowanceError::Expired));
    assert_eq!(c.distribute(id, 400, 0).err(), Some(AllowanceError::TooEarlyToDistribute));
}

#[test]
fn owner_lists_keep_only_their_allowances() {
    let mut c = AllowancesContract::new();
    c.create_allowance(owner(), alice(), token(), 1, Frequency::Daily, 0).unwrap();
    c.create_allowance(bob(), alice(), token(), 1, Frequency::Daily, 0).unwrap();
    c.create_allowance(owner(), bob(), token(), 1, Frequency::Monthly, 0).unwrap();
    assert_eq!(c.get_owner_allowances(&owner()), vec![1, 3]);
    assert_eq!(c.get_owner_allowances(&bob()), vec![2]);
    assert_eq!(c.get_recipient_allowances(&alice()), vec![1, 2]);
    assert!(c.get_owner_allowances(&alice()).is_empty());
}

#[test]
fn schedule_check_ignores_the_balance() {
    let (c, id) = contract_with(Frequency::Daily, 100, 1_000);
    let a = c.get_allowance(id).unwrap();
    assert_eq!(a.schedule_check(999), Some(AllowanceError::TooEarlyToDistribute));
    assert_eq!(a.schedule_check(1_000), None);
    assert_eq!(a.distribution_check(1_000, 50), Some(AllowanceError::InsufficientBalance));
    assert!(!a.cap_check_overflows_at(1_000));
}

#[test]
fn history_timestamps_increase_and_amounts_match() {
    let (mut c, id) = contract_with(Frequency::Daily, 70, 0);
    for day in [0u64, 1, 5, 6] {
        c.distribute(id, day * DAY, 1_000).unwrap();
    }
    let history = c.get_allowance_history(id);
    assert_eq!(history.len() as u32, c.get_allowance(id).unwrap().distribution_count);
    for w in history.windows(2) {
        assert!(w[0].timestamp < w[1].timestamp);
    }
    assert!(history.iter().all(|r| r.amount == 70));
}
