//! Pre-conditions checked before the rewards contract changes its state.

use vstd::prelude::*;

use crate::reward_storage::{has_reward_account, RewardsContract};
use crate::reward_types::RewardsError;

verus! {

/// Refuses with `AccountAlreadyRegistered` when `account` already has a
/// reward account.
pub fn validate_account_not_registered(contract: &RewardsContract, account: &String) -> (r: Result<(), RewardsError>)
    ensures
        r == (if contract@.accounts.contains_key(account@) {
            Err::<(), RewardsError>(RewardsError::AccountAlreadyRegistered)
        } else {
            Ok(())
        }),
{
    if has_reward_account(contract, account) {
        return Err(RewardsError::AccountAlreadyRegistered);
    }
    Ok(())
}

/// Refuses with `NotInitialized` when the contract has not been initialised.
pub fn validate_contract_initialized(contract: &RewardsContract) -> (r: Result<(), RewardsError>)
    ensures
        r == (if contract@.admin is None {
            Err::<(), RewardsError>(RewardsError::NotInitialized)
        } else {
            Ok(())
        }),
{
    if !contract.is_initialized() {
        return Err(RewardsError::NotInitialized);
    }
    Ok(())
}

} // verus!
