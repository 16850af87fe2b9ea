use stellarspend::reward_storage::{
    get_lifetime_claimed, get_lifetime_earned, get_reward_account, get_reward_balance,
    has_reward_account, initialization_check, set_lifetime_claimed, set_lifetime_earned, set_reward_account,
    set_reward_balance, RewardsContract,
};
use stellarspend::reward_types::{
    RewardAccount, RewardStatus, RewardTransaction, RewardType, RewardsError,
};
use stellarspend::reward_validation::{validate_account_not_registered, validate_contract_initialized};
use stellarspend::rewards::register_reward_account;

/// A distinct account address for each seed, in strkey form.
fn generate_address(seed: u32) -> String {
    format!("GB{:054}", seed)
}

fn setup() -> (String, RewardsContract) {
    let admin = generate_address(1);
    (admin, RewardsContract::new())
}

const LEDGER_SEQUENCE: u32 = 42;

// ── Contract entry points ─────────────────────────────────────────────────

#[test]
fn test_initialize_sets_admin() {
    let (admin, mut client) = setup();
    client.initialize(admin.clone()).unwrap();
    assert_eq!(client.get_admin(), Ok(admin));
}

#[test]
fn test_is_initialized_returns_true_after_init() {
    let (admin, mut client) = setup();
    assert!(!client.is_initialized());
    client.initialize(admin).unwrap();
    assert!(client.is_initialized());
}

#[test]
#[should_panic]
fn test_double_initialize_panics() {
    let (admin, mut client) = setup();
    client.initialize(admin.clone()).unwrap();
    client.initialize(admin).unwrap();
}

#[test]
#[should_panic]
fn test_get_admin_before_init_panics() {
    let (_admin, client) = setup();
    client.get_admin().unwrap();
}

#[test]
fn double_initialize_is_refused_and_keeps_admin() {
    let (admin, mut client) = setup();
    client.initialize(admin.clone()).unwrap();
    assert_eq!(client.initialize(generate_address(9)), Err(RewardsError::AlreadyInitialized));
    assert_eq!(client.get_admin(), Ok(admin));
}

#[test]
fn get_admin_before_init_is_refused() {
    let (_admin, client) = setup();
    assert_eq!(client.get_admin(), Err(RewardsError::NotInitialized));
}

// ── Storage helpers ───────────────────────────────────────────────────────

#[test]
fn test_reward_balance_defaults_to_zero() {
    let (_admin, contract) = setup();
    let user = generate_address(2);
    assert_eq!(get_reward_balance(&contract, &user), 0);
}

#[test]
fn test_set_and_get_reward_balance() {
    let (_admin, mut contract) = setup();
    let user = generate_address(2);
    set_reward_balance(&mut contract, &user, 5_000_000);
    assert_eq!(get_reward_balance(&contract, &user), 5_000_000);
}

#[test]
fn test_reward_balance_overwrite() {
    let (_admin, mut contract) = setup();
    let user = generate_address(2);
    set_reward_balance(&mut contract, &user, 1_000);
    set_reward_balance(&mut contract, &user, 9_999);
    assert_eq!(get_reward_balance(&contract, &user), 9_999);
}

#[test]
fn test_lifetime_earned_defaults_to_zero() {
    let (_admin, contract) = setup();
    let user = generate_address(2);
    assert_eq!(get_lifetime_earned(&contract, &user), 0);
}

#[test]
fn test_set_and_get_lifetime_earned() {
    let (_admin, mut contract) = setup();
    let user = generate_address(2);
    set_lifetime_earned(&mut contract, &user, 100_000_000);
    assert_eq!(get_lifetime_earned(&contract, &user), 100_000_000);
}

#[test]
fn test_lifetime_claimed_defaults_to_zero() {
    let (_admin, contract) = setup();
    let user = generate_address(2);
    assert_eq!(get_lifetime_claimed(&contract, &user), 0);
}

#[test]
fn test_set_and_get_lifetime_claimed() {
    let (_admin, mut contract) = setup();
    let user = generate_address(2);
    set_lifetime_claimed(&mut contract, &user, 50_000_000);
    assert_eq!(get_lifetime_claimed(&contract, &user), 50_000_000);
}

#[test]
fn test_has_reward_account_false_before_creation() {
    let (_admin, contract) = setup();
    let user = generate_address(2);
    assert!(!has_reward_account(&contract, &user));
}

#[test]
fn test_set_and_get_reward_account() {
    let (_admin, mut contract) = setup();
    let user = generate_address(2);
    let record = RewardAccount {
        owner: user.clone(),
        balance: 2_000_000,
        lifetime_earned: 10_000_000,
        lifetime_claimed: 8_000_000,
        created_at: 100,
        last_updated: 200,
    };

    set_reward_account(&mut contract, &user, &record);
    assert!(has_reward_account(&contract, &user));

    let fetched = get_reward_account(&contract, &user).expect("account should exist");
    assert_eq!(fetched.owner, user);
    assert_eq!(fetched.balance, 2_000_000);
    assert_eq!(fetched.lifetime_earned, 10_000_000);
    assert_eq!(fetched.lifetime_claimed, 8_000_000);
    assert_eq!(fetched.created_at, 100);
    assert_eq!(fetched.last_updated, 200);
}

#[test]
fn test_reward_account_returns_none_when_absent() {
    let (_admin, contract) = setup();
    let user = generate_address(2);
    assert!(get_reward_account(&contract, &user).is_none());
}

#[test]
fn test_balances_are_independent_per_user() {
    let (_admin, mut contract) = setup();
    let user_a = generate_address(2);
    let user_b = generate_address(3);
    set_reward_balance(&mut contract, &user_a, 1_000);
    set_reward_balance(&mut contract, &user_b, 2_000);
    assert_eq!(get_reward_balance(&contract, &user_a), 1_000);
    assert_eq!(get_reward_balance(&contract, &user_b), 2_000);
}

#[test]
fn overwriting_one_balance_keeps_the_others() {
    let (_admin, mut contract) = setup();
    let user_a = generate_address(2);
    let user_b = generate_address(3);
    set_reward_balance(&mut contract, &user_a, 1_000);
    set_reward_balance(&mut contract, &user_b, 2_000);
    set_reward_balance(&mut contract, &user_a, 7);
    assert_eq!(get_reward_balance(&contract, &user_a), 7);
    assert_eq!(get_reward_balance(&contract, &user_b), 2_000);
    assert_eq!(get_lifetime_earned(&contract, &user_a), 0);
}

// ── Registration ──────────────────────────────────────────────────────────

#[test]
fn test_register_account_succeeds() {
    let (admin, mut client) = setup();
    client.initialize(admin).unwrap();
    let user = generate_address(2);
    client.register_account(&user, LEDGER_SEQUENCE).unwrap();
    assert!(client.get_account(&user).is_some());
}

#[test]
fn test_register_account_stores_correct_defaults() {
    let (admin, mut client) = setup();
    client.initialize(admin).unwrap();
    let user = generate_address(2);
    client.register_account(&user, LEDGER_SEQUENCE).unwrap();

    let account = client.get_account(&user).expect("account should exist");
    assert_eq!(account.owner, user);
    assert_eq!(account.balance, 0);
    assert_eq!(account.lifetime_earned, 0);
    assert_eq!(account.lifetime_claimed, 0);
}

#[test]
fn test_register_account_sets_timestamps() {
    let (admin, mut client) = setup();
    client.initialize(admin).unwrap();
    let user = generate_address(2);
    client.register_account(&user, LEDGER_SEQUENCE).unwrap();

    let account = client.get_account(&user).expect("account should exist");
    assert_eq!(account.created_at, account.last_updated);
    assert_eq!(account.created_at, 42);
}

#[test]
#[should_panic]
fn test_duplicate_registration_panics() {
    let (admin, mut client) = setup();
    client.initialize(admin).unwrap();
    let user = generate_address(2);
    client.register_account(&user, LEDGER_SEQUENCE).unwrap();
    client.register_account(&user, LEDGER_SEQUENCE).unwrap();
}

#[test]
#[should_panic]
fn test_register_account_before_init_panics() {
    let (_admin, mut client) = setup();
    let user = generate_address(2);
    client.register_account(&user, LEDGER_SEQUENCE).unwrap();
}

#[test]
fn duplicate_registration_is_refused() {
    let (admin, mut client) = setup();
    client.initialize(admin).unwrap();
    let user = generate_address(2);
    assert_eq!(register_reward_account(&mut client, &user, 1), Ok(()));
    assert_eq!(register_reward_account(&mut client, &user, 2), Err(RewardsError::AccountAlreadyRegistered));
    assert_eq!(client.get_account(&user).expect("account should exist").created_at, 1);
}

#[test]
fn registration_before_init_is_refused() {
    let (_admin, mut client) = setup();
    let user = generate_address(2);
    assert_eq!(register_reward_account(&mut client, &user, 1), Err(RewardsError::NotInitialized));
    assert!(!has_reward_account(&client, &user));
}

#[test]
fn registration_zeroes_the_amounts() {
    let (admin, mut client) = setup();
    client.initialize(admin).unwrap();
    let user = generate_address(2);
    set_reward_balance(&mut client, &user, 77);
    client.register_account(&user, 5).unwrap();
    assert_eq!(get_reward_balance(&client, &user), 0);
    assert_eq!(get_lifetime_earned(&client, &user), 0);
    assert_eq!(get_lifetime_claimed(&client, &user), 0);
}

#[test]
fn validators_report_their_errors() {
    let (admin, mut client) = setup();
    let user = generate_address(2);
    assert_eq!(validate_contract_initialized(&client), Err(RewardsError::NotInitialized));
    client.initialize(admin).unwrap();
    assert_eq!(validate_contract_initialized(&client), Ok(()));
    assert_eq!(validate_account_not_registered(&client, &user), Ok(()));
    client.register_account(&user, 3).unwrap();
    assert_eq!(validate_account_not_registered(&client, &user), Err(RewardsError::AccountAlreadyRegistered));
}

#[test]
fn test_get_account_returns_none_for_unregistered() {
    let (admin, mut client) = setup();
    client.initialize(admin).unwrap();
    let user = generate_address(2);
    assert!(client.get_account(&user).is_none());
}

#[test]
fn test_multiple_accounts_are_independent() {
    let (admin, mut client) = setup();
    client.initialize(admin).unwrap();
    let user_a = generate_address(2);
    let user_b = generate_address(3);

    client.register_account(&user_a, LEDGER_SEQUENCE).unwrap();
    client.register_account(&user_b, LEDGER_SEQUENCE).unwrap();

    let a = client.get_account(&user_a).expect("user_a should exist");
    let b = client.get_account(&user_b).expect("user_b should exist");
    assert_eq!(a.owner, user_a);
    assert_eq!(b.owner, user_b);
    assert_ne!(a.owner, b.owner);
}

// ── Data model ────────────────────────────────────────────────────────────

#[test]
fn test_reward_type_variants_are_distinct() {
    assert_ne!(RewardType::SpendingLimit, RewardType::SavingsGoal);
    assert_ne!(RewardType::SavingsGoal, RewardType::Streak);
    assert_ne!(RewardType::Streak, RewardType::Referral);
    assert_ne!(RewardType::Referral, RewardType::ManualGrant);
}

#[test]
fn test_reward_type_clone() {
    let rt = RewardType::SavingsGoal;
    let cloned = rt.clone();
    assert_eq!(rt, cloned);
}

#[test]
fn test_reward_status_variants_are_distinct() {
    assert_ne!(RewardStatus::Pending, RewardStatus::Confirmed);
    assert_ne!(RewardStatus::Confirmed, RewardStatus::Claimed);
    assert_ne!(RewardStatus::Claimed, RewardStatus::Cancelled);
    assert_ne!(RewardStatus::Pending, RewardStatus::Cancelled);
}

#[test]
fn test_reward_status_clone() {
    let s = RewardStatus::Confirmed;
    assert_eq!(s.clone(), RewardStatus::Confirmed);
}

#[test]
fn test_reward_status_pending_is_not_claimed() {
    let status = RewardStatus::Pending;
    assert_ne!(status, RewardStatus::Claimed);
}

#[test]
fn test_reward_transaction_fields_are_correct() {
    let recipient = generate_address(4);

    let tx = RewardTransaction {
        id: 42,
        recipient: recipient.clone(),
        amount: 1_000_000,
        reward_type: RewardType::Streak,
        status: RewardStatus::Confirmed,
        created_at: 500,
        updated_at: 600,
    };

    assert_eq!(tx.id, 42);
    assert_eq!(tx.recipient, recipient);
    assert_eq!(tx.amount, 1_000_000);
    assert_eq!(tx.reward_type, RewardType::Streak);
    assert_eq!(tx.status, RewardStatus::Confirmed);
    assert_eq!(tx.created_at, 500);
    assert_eq!(tx.updated_at, 600);
}

#[test]
fn test_reward_transaction_clone() {
    let recipient = generate_address(4);

    let tx = RewardTransaction {
        id: 1,
        recipient: recipient.clone(),
        amount: 500_000,
        reward_type: RewardType::Referral,
        status: RewardStatus::Pending,
        created_at: 100,
        updated_at: 0,
    };

    let cloned = tx.clone();
    assert_eq!(cloned.id, tx.id);
    assert_eq!(cloned.amount, tx.amount);
    assert_eq!(cloned.reward_type, RewardType::Referral);
    assert_eq!(cloned.status, RewardStatus::Pending);
    assert_eq!(cloned.updated_at, 0);
}

#[test]
fn test_reward_transaction_status_transition() {
    let recipient = generate_address(4);

    let mut tx = RewardTransaction {
        id: 10,
        recipient: recipient.clone(),
        amount: 250_000,
        reward_type: RewardType::ManualGrant,
        status: RewardStatus::Pending,
        created_at: 200,
        updated_at: 0,
    };

    assert_eq!(tx.status, RewardStatus::Pending);
    tx.status = RewardStatus::Confirmed;
    assert_eq!(tx.status, RewardStatus::Confirmed);
    tx.status = RewardStatus::Claimed;
    assert_eq!(tx.status, RewardStatus::Claimed);
}

#[test]
fn test_all_reward_types_can_be_used_in_transaction() {
    let recipient = generate_address(4);

    let types = [
        RewardType::SpendingLimit,
        RewardType::SavingsGoal,
        RewardType::Streak,
        RewardType::Referral,
        RewardType::ManualGrant,
    ];

    for reward_type in types {
        let tx = RewardTransaction {
            id: 1,
            recipient: recipient.clone(),
            amount: 100,
            reward_type: reward_type.clone(),
            status: RewardStatus::Pending,
            created_at: 1,
            updated_at: 0,
        };
        assert_eq!(tx.reward_type, reward_type);
    }
}

#[test]
fn balance_survives_writes_to_other_accounts_and_amounts() {
    let (admin, mut contract) = setup();
    contract.initialize(admin).unwrap();
    let a = generate_address(2);
    let b = generate_address(3);
    set_reward_balance(&mut contract, &a, 1_000);
    set_reward_balance(&mut contract, &b, 2_000);
    set_lifetime_earned(&mut contract, &a, 5);
    set_lifetime_claimed(&mut contract, &a, 6);
    contract.register_account(&b, 1).unwrap();
    assert_eq!(get_reward_balance(&contract, &a), 1_000);
    assert_eq!(get_reward_balance(&contract, &b), 0);
}

#[test]
fn initialization_check_refuses_a_second_time() {
    assert_eq!(initialization_check(false), Ok(()));
    assert_eq!(initialization_check(true), Err(RewardsError::AlreadyInitialized));
}
