//! Reward account life cycle and the entry points of the rewards contract.

use vstd::prelude::*;

use crate::reward_storage::{
    get_reward_account, set_lifetime_claimed, set_lifetime_earned, set_reward_account,
    set_reward_balance, RewardsContract, RewardsModel, RewardsOp,
};
use crate::reward_types::{RewardAccount, RewardsError};
use crate::reward_validation::{validate_account_not_registered, validate_contract_initialized};

verus! {

/// A fresh account of `owner` opened at ledger sequence `sequence`.
pub open spec fn fresh_account(owner: String, sequence: u32) -> RewardAccount {
    RewardAccount {
        owner,
        balance: 0,
        lifetime_earned: 0,
        lifetime_claimed: 0,
        created_at: sequence as u64,
        last_updated: sequence as u64,
    }
}

/// The state after registering `participant` at ledger sequence `sequence`:
/// a fresh account record and zero balance and totals.
pub open spec fn registered(m: RewardsModel, participant: String, sequence: u32) -> RewardsModel {
    RewardsModel {
        accounts: m.accounts.insert(participant@, fresh_account(participant, sequence)),
        balances: m.balances.insert(participant@, 0),
        earned: m.earned.insert(participant@, 0),
        claimed: m.claimed.insert(participant@, 0),
        ..m
    }
}

/// The outcome of registering `participant`: refused before initialisation
/// and for an existing account, else the account is opened.
pub open spec fn registration(m: RewardsModel, after: RewardsModel, participant: String, sequence: u32, r: Result<(), RewardsError>) -> bool {
    if m.admin is None {
        r == Err::<(), RewardsError>(RewardsError::NotInitialized) && after == m
    } else if m.accounts.contains_key(participant@) {
        r == Err::<(), RewardsError>(RewardsError::AccountAlreadyRegistered) && after == m
    } else {
        r == Ok::<(), RewardsError>(()) && after == registered(m, participant, sequence)
    }
}

/// The account to open for `participant` at ledger sequence
/// `ledger_sequence`, given whether the contract is initialised and whether
/// the participant already has an account; or the refusal.
pub fn new_reward_account(initialized: bool, already_registered: bool, participant: &String, ledger_sequence: u32) -> (r: Result<RewardAccount, RewardsError>)
    ensures
        r == (if !initialized {
            Err::<RewardAccount, RewardsError>(RewardsError::NotInitialized)
        } else if already_registered {
            Err::<RewardAccount, RewardsError>(RewardsError::AccountAlreadyRegistered)
        } else {
            Ok::<RewardAccount, RewardsError>(fresh_account(*participant, ledger_sequence))
        }),
{
    if !initialized {
        return Err(RewardsError::NotInitialized);
    }
    if already_registered {
        return Err(RewardsError::AccountAlreadyRegistered);
    }
    let now = ledger_sequence as u64;
    Ok(RewardAccount {
        owner: participant.clone(),
        balance: 0,
        lifetime_earned: 0,
        lifetime_claimed: 0,
        created_at: now,
        last_updated: now,
    })
}

/// Registers a new reward account for `participant` at ledger sequence
/// `ledger_sequence`, with zeroed balance and totals and both timestamps
/// set to the sequence.
pub fn register_reward_account(contract: &mut RewardsContract, participant: &String, ledger_sequence: u32) -> (r: Result<(), RewardsError>)
    ensures
        registration(old(contract)@, final(contract)@, *participant, ledger_sequence, r),
        final(contract)@ == old(contract)@.apply(RewardsOp::Register { participant: *participant, ledger_sequence }),
{
    let initialized = validate_contract_initialized(contract).is_ok();
    let already_registered = initialized && validate_account_not_registered(contract, participant).is_err();
    let account = match new_reward_account(initialized, already_registered, participant, ledger_sequence) {
        Err(e) => return Err(e),
        Ok(account) => account,
    };
    let ghost before = contract@;
    set_reward_account(contract, participant, &account);
    set_reward_balance(contract, participant, 0);
    set_lifetime_earned(contract, participant, 0);
    set_lifetime_claimed(contract, participant, 0);
    proof {
        assert(contract@ =~= registered(before, *participant, ledger_sequence));
    }
    Ok(())
}

impl RewardsContract {
    /// Registers the calling participant at ledger sequence `ledger_sequence`.
    pub fn register_account(&mut self, participant: &String, ledger_sequence: u32) -> (r: Result<(), RewardsError>)
        ensures
            registration(old(self)@, final(self)@, *participant, ledger_sequence, r),
            final(self)@ == old(self)@.apply(RewardsOp::Register { participant: *participant, ledger_sequence }),
    {
        register_reward_account(self, participant, ledger_sequence)
    }

    /// The reward account of `participant`, if registered.
    pub fn get_account(&self, participant: &String) -> (r: Option<RewardAccount>)
        ensures
            r == (if self@.accounts.contains_key(participant@) {
                Some(self@.accounts[participant@])
            } else {
                None::<RewardAccount>
            }),
    {
        get_reward_account(self, participant)
    }
}

} // verus!
