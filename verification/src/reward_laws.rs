//! Laws of the rewards contract.

use vstd::prelude::*;

use crate::reward_storage::{amount_of, RewardsModel, RewardsOp};
use crate::reward_types::RewardsError;
use crate::rewards::{fresh_account, registered, registration};

verus! {

/// A stored amount reads back as written, amounts of other accounts are
/// untouched, and an account never written reads as `0`.
pub proof fn law_amount_read_after_write(amounts: Map<Seq<char>, i128>, account: Seq<char>, other: Seq<char>, value: i128)
    ensures
        amount_of(amounts.insert(account, value), account) == value,
        other != account ==> amount_of(amounts.insert(account, value), other) == amount_of(amounts, other),
        !amounts.contains_key(other) ==> amount_of(amounts, other) == 0,
{
}

/// A registration opens a fresh account (zero balance and totals, created
/// and last updated at the same sequence) whose amounts all read `0`.
pub proof fn law_registration_opens_fresh_account(m: RewardsModel, participant: String, sequence: u32)
    ensures
        ({
            let after = registered(m, participant, sequence);
            &&& after.accounts.contains_key(participant@)
            &&& after.accounts[participant@] == fresh_account(participant, sequence)
            &&& after.accounts[participant@].created_at == after.accounts[participant@].last_updated
            &&& after.accounts[participant@].created_at == sequence
            &&& after.accounts[participant@].owner == participant
            &&& after.accounts[participant@].balance == 0
            &&& after.accounts[participant@].lifetime_earned == 0
            &&& after.accounts[participant@].lifetime_claimed == 0
            &&& amount_of(after.balances, participant@) == 0
            &&& amount_of(after.earned, participant@) == 0
            &&& amount_of(after.claimed, participant@) == 0
        }),
{
}

/// A participant can register only once: a second registration is refused
/// and changes nothing.
pub proof fn law_register_only_once(
    m: RewardsModel,
    mid: RewardsModel,
    after: RewardsModel,
    participant: String,
    s1: u32,
    s2: u32,
    r1: Result<(), RewardsError>,
    r2: Result<(), RewardsError>,
)
    requires
        registration(m, mid, participant, s1, r1),
        r1 is Ok,
        registration(mid, after, participant, s2, r2),
    ensures
        r2 == Err::<(), RewardsError>(RewardsError::AccountAlreadyRegistered),
        after == mid,
{
}

/// Registering one participant leaves every other participant's records
/// and amounts unchanged.
pub proof fn law_registration_independent(m: RewardsModel, participant: String, other: Seq<char>, sequence: u32)
    requires
        other != participant@,
    ensures
        ({
            let after = registered(m, participant, sequence);
            &&& after.accounts.contains_key(other) == m.accounts.contains_key(other)
            &&& after.accounts.contains_key(other) ==> after.accounts[other] == m.accounts[other]
            &&& amount_of(after.balances, other) == amount_of(m.balances, other)
            &&& amount_of(after.earned, other) == amount_of(m.earned, other)
            &&& amount_of(after.claimed, other) == amount_of(m.claimed, other)
        }),
{
}

/// Registration never changes the admin.
pub proof fn law_registration_keeps_admin(m: RewardsModel, participant: String, sequence: u32)
    ensures
        registered(m, participant, sequence).admin == m.admin,
{
}

/// The state after the calls `ops`, in order, from state `m`.
pub open spec fn rewards_run(m: RewardsModel, ops: Seq<RewardsOp>) -> RewardsModel
    decreases ops.len(),
{
    if ops.len() == 0 {
        m
    } else {
        rewards_run(m, ops.drop_last()).apply(ops.last())
    }
}

/// The call may write the claimable balance of `account`: a balance write
/// for it, or its registration.
pub open spec fn writes_balance(op: RewardsOp, account: Seq<char>) -> bool {
    match op {
        RewardsOp::SetBalance { account: a, .. } => a@ == account,
        RewardsOp::Register { participant, .. } => participant@ == account,
        _ => false,
    }
}

/// A call that does not write the balance of `account` leaves it as it was.
pub proof fn lemma_step_keeps_balance(m: RewardsModel, op: RewardsOp, account: Seq<char>)
    requires
        !writes_balance(op, account),
    ensures
        amount_of(m.apply(op).balances, account) == amount_of(m.balances, account),
{
}

/// Once the balance of `account` is set to `value`, it reads `value` after
/// any run of calls that neither writes its balance again nor registers it
/// (writes to other accounts and to other amounts included).
pub proof fn law_balance_read_after_writes(m: RewardsModel, account: String, value: i128, ops: Seq<RewardsOp>)
    requires
        forall|k: int| 0 <= k < ops.len() ==> !writes_balance(#[trigger] ops[k], account@),
    ensures
        amount_of(rewards_run(m.apply(RewardsOp::SetBalance { account, amount: value }), ops).balances, account@) == value,
    decreases ops.len(),
{
    if ops.len() > 0 {
        let p = ops.drop_last();
        assert forall|k: int| 0 <= k < p.len() implies !writes_balance(#[trigger] p[k], account@) by {
            assert(p[k] == ops[k]);
        }
        law_balance_read_after_writes(m, account, value, p);
        assert(!writes_balance(ops[ops.len() - 1], account@));
        lemma_step_keeps_balance(
            rewards_run(m.apply(RewardsOp::SetBalance { account, amount: value }), p),
            ops.last(),
            account@,
        );
    }
}

/// Registration is refused before initialisation, and for a participant
/// that already has an account; otherwise it opens the account.
pub proof fn law_registration_refusals(m: RewardsModel, after: RewardsModel, participant: String, sequence: u32, r: Result<(), RewardsError>)
    requires
        registration(m, after, participant, sequence, r),
    ensures
        m.admin is None ==> r == Err::<(), RewardsError>(RewardsError::NotInitialized) && after == m,
        m.admin is Some && m.accounts.contains_key(participant@) ==> r == Err::<(), RewardsError>(
            RewardsError::AccountAlreadyRegistered,
        ) && after == m,
        r is Ok <==> (m.admin is Some && !m.accounts.contains_key(participant@)),
        r is Ok ==> after.accounts.contains_key(participant@) && after.admin == m.admin,
{
}

} // verus!
