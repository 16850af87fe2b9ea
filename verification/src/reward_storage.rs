//! Storage of the rewards contract: the admin, and per participant the
//! account record, the claimable balance and the lifetime totals.
//! Amounts that were never stored read as `0`.

use vstd::prelude::*;

use crate::address_book::AddressBook;
use crate::reward_types::{RewardAccount, RewardsError};
use crate::rewards::registered;

verus! {

/// The abstract state of the rewards contract.
#[verifier::ext_equal]
pub struct RewardsModel {
    /// Set once, by initialisation.
    pub admin: Option<String>,
    pub accounts: Map<Seq<char>, RewardAccount>,
    pub balances: Map<Seq<char>, i128>,
    pub earned: Map<Seq<char>, i128>,
    pub claimed: Map<Seq<char>, i128>,
}

/// A call that writes the rewards contract's state.
#[derive(Debug)]
pub enum RewardsOp {
    Initialize { admin: String },
    SetBalance { account: String, amount: i128 },
    SetEarned { account: String, amount: i128 },
    SetClaimed { account: String, amount: i128 },
    SetAccount { account: String, record: RewardAccount },
    Register { participant: String, ledger_sequence: u32 },
}

impl RewardsModel {
    /// The state after the call `op`; a refused call changes nothing.
    pub open spec fn apply(self, op: RewardsOp) -> RewardsModel {
        match op {
            RewardsOp::Initialize { admin } => if self.admin is None {
                RewardsModel { admin: Some(admin), ..self }
            } else {
                self
            },
            RewardsOp::SetBalance { account, amount } => RewardsModel { balances: self.balances.insert(account@, amount), ..self },
            RewardsOp::SetEarned { account, amount } => RewardsModel { earned: self.earned.insert(account@, amount), ..self },
            RewardsOp::SetClaimed { account, amount } => RewardsModel { claimed: self.claimed.insert(account@, amount), ..self },
            RewardsOp::SetAccount { account, record } => RewardsModel { accounts: self.accounts.insert(account@, record), ..self },
            RewardsOp::Register { participant, ledger_sequence } => if self.admin is None || self.accounts.contains_key(
                participant@,
            ) {
                self
            } else {
                registered(self, participant, ledger_sequence)
            },
        }
    }
}

/// Initialisation is allowed once: refused with `AlreadyInitialized` when
/// the contract is already initialised.
pub fn initialization_check(already_initialized: bool) -> (r: Result<(), RewardsError>)
    ensures
        r == (if already_initialized {
            Err::<(), RewardsError>(RewardsError::AlreadyInitialized)
        } else {
            Ok(())
        }),
{
    if already_initialized {
        Err(RewardsError::AlreadyInitialized)
    } else {
        Ok(())
    }
}

/// The amount stored for `account`, `0` when none is.
pub open spec fn amount_of(amounts: Map<Seq<char>, i128>, account: Seq<char>) -> i128 {
    if amounts.contains_key(account) {
        amounts[account]
    } else {
        0
    }
}

/// The rewards contract.
pub struct RewardsContract {
    admin: Option<String>,
    accounts: AddressBook<RewardAccount>,
    balances: AddressBook<i128>,
    earned: AddressBook<i128>,
    claimed: AddressBook<i128>,
}

impl View for RewardsContract {
    type V = RewardsModel;

    closed spec fn view(&self) -> RewardsModel {
        RewardsModel {
            admin: self.admin,
            accounts: self.accounts@,
            balances: self.balances@,
            earned: self.earned@,
            claimed: self.claimed@,
        }
    }
}

impl RewardsContract {
    /// A contract that is not initialised and holds no accounts.
    pub fn new() -> (r: RewardsContract)
        ensures
            r@.admin is None,
            r@.accounts == Map::<Seq<char>, RewardAccount>::empty(),
            r@.balances == Map::<Seq<char>, i128>::empty(),
            r@.earned == Map::<Seq<char>, i128>::empty(),
            r@.claimed == Map::<Seq<char>, i128>::empty(),
    {
        RewardsContract {
            admin: None,
            accounts: AddressBook::new(),
            balances: AddressBook::new(),
            earned: AddressBook::new(),
            claimed: AddressBook::new(),
        }
    }

    /// Initialises the contract with its admin, once.
    pub fn initialize(&mut self, admin: String) -> (r: Result<(), RewardsError>)
        ensures
            final(self)@ == old(self)@.apply(RewardsOp::Initialize { admin }),
            old(self)@.admin is Some ==> r == Err::<(), RewardsError>(RewardsError::AlreadyInitialized)
                && final(self)@ == old(self)@,
            old(self)@.admin is None ==> r == Ok::<(), RewardsError>(())
                && final(self)@ == (RewardsModel { admin: Some(admin), ..old(self)@ }),
    {
        match initialization_check(self.admin.is_some()) {
            Err(e) => Err(e),
            Ok(()) => {
                self.admin = Some(admin);
                Ok(())
            },
        }
    }

    /// Whether the contract has been initialised.
    pub fn is_initialized(&self) -> (r: bool)
        ensures
            r == self@.admin is Some,
    {
        self.admin.is_some()
    }

    /// The admin, or `NotInitialized`.
    pub fn get_admin(&self) -> (r: Result<String, RewardsError>)
        ensures
            match self@.admin {
                Some(a) => r == Ok::<String, RewardsError>(a),
                None => r == Err::<String, RewardsError>(RewardsError::NotInitialized),
            },
    {
        match &self.admin {
            Some(a) => Ok(a.clone()),
            None => Err(RewardsError::NotInitialized),
        }
    }
}

/// The claimable reward balance of `account`, `0` if none was stored.
pub fn get_reward_balance(contract: &RewardsContract, account: &String) -> (r: i128)
    ensures
        r == amount_of(contract@.balances, account@),
{
    match contract.balances.get(account) {
        Some(v) => *v,
        None => 0,
    }
}

/// Overwrites the claimable reward balance of `account`.
pub fn set_reward_balance(contract: &mut RewardsContract, account: &String, balance: i128)
    ensures
        final(contract)@ == old(contract)@.apply(RewardsOp::SetBalance { account: *account, amount: balance }),
        final(contract)@ == (RewardsModel { balances: old(contract)@.balances.insert(account@, balance), ..old(contract)@ }),
{
    contract.balances.set(account.clone(), balance);
}

/// The total rewards ever earned by `account`, `0` if none was stored.
pub fn get_lifetime_earned(contract: &RewardsContract, account: &String) -> (r: i128)
    ensures
        r == amount_of(contract@.earned, account@),
{
    match contract.earned.get(account) {
        Some(v) => *v,
        None => 0,
    }
}

/// Overwrites the lifetime-earned total of `account`.
pub fn set_lifetime_earned(contract: &mut RewardsContract, account: &String, amount: i128)
    ensures
        final(contract)@ == old(contract)@.apply(RewardsOp::SetEarned { account: *account, amount }),
        final(contract)@ == (RewardsModel { earned: old(contract)@.earned.insert(account@, amount), ..old(contract)@ }),
{
    contract.earned.set(account.clone(), amount);
}

/// The total rewards ever claimed by `account`, `0` if none was stored.
pub fn get_lifetime_claimed(contract: &RewardsContract, account: &String) -> (r: i128)
    ensures
        r == amount_of(contract@.claimed, account@),
{
    match contract.claimed.get(account) {
        Some(v) => *v,
        None => 0,
    }
}

/// Overwrites the lifetime-claimed total of `account`.
pub fn set_lifetime_claimed(contract: &mut RewardsContract, account: &String, amount: i128)
    ensures
        final(contract)@ == old(contract)@.apply(RewardsOp::SetClaimed { account: *account, amount }),
        final(contract)@ == (RewardsModel { claimed: old(contract)@.claimed.insert(account@, amount), ..old(contract)@ }),
{
    contract.claimed.set(account.clone(), amount);
}

/// The account record of `account`, if it exists.
pub fn get_reward_account(contract: &RewardsContract, account: &String) -> (r: Option<RewardAccount>)
    ensures
        r == (if contract@.accounts.contains_key(account@) {
            Some(contract@.accounts[account@])
        } else {
            None::<RewardAccount>
        }),
{
    match contract.accounts.get(account) {
        Some(record) => Some(record.clone()),
        None => None,
    }
}

/// Stores the account record of `account`.
pub fn set_reward_account(contract: &mut RewardsContract, account: &String, record: &RewardAccount)
    ensures
        final(contract)@ == old(contract)@.apply(RewardsOp::SetAccount { account: *account, record: *record }),
        final(contract)@ == (RewardsModel { accounts: old(contract)@.accounts.insert(account@, *record), ..old(contract)@ }),
{
    contract.accounts.set(account.clone(), record.clone());
}

/// Whether an account record exists for `account`.
pub fn has_reward_account(contract: &RewardsContract, account: &String) -> (r: bool)
    ensures
        r == contract@.accounts.contains_key(account@),
{
    contract.accounts.contains(account)
}

} // verus!
