//! Laws of the allowances contract: properties that span operations or
//! hold of every state the contract can reach.

use vstd::prelude::*;
use vstd::arithmetic::div_mod::lemma_fundamental_div_mod;

use crate::allowance_rules::{
    distribution_overflows, next_due, spec_cancel, spec_distribution, spec_is_expired, spec_pause, spec_resume,
    spec_set_expiration, spec_set_spending_limit, spec_update_beneficiary,
};
use crate::allowance_types::{Allowance, AllowanceError};
use crate::allowance_rules::spec_create;
use crate::allowance_types::{Frequency, PaymentRecord};
use crate::allowances::{
    history_of, is_registered, lemma_created_wf, lemma_history_push, lemma_paid_wf,
    lemma_recipient_push, lemma_redirected_wf, lemma_replace_keeps_wf, owner_ids, recipient_ids,
    AllowanceOp, AllowancesModel, PaymentEntry, RecipientEntry,
};

verus! {

/// Pausing and then resuming an allowance gives back the same allowance.
pub proof fn law_pause_resume_round_trip(a: Allowance)
    requires
        spec_pause(a) is Ok,
    ensures
        spec_resume(spec_pause(a)->Ok_0) == Ok::<Allowance, AllowanceError>(a),
{
}

/// Cancellation is permanent: an inactive allowance refuses every payment
/// and every owner operation (a negative cap is refused as invalid first).
pub proof fn law_cancelled_is_final(a: Allowance, now: u64, owner_balance: i128, recipient: String, limit: i128, end_date: u64)
    requires
        !a.active,
    ensures
        spec_distribution(a, now, owner_balance) == Err::<(Allowance, crate::allowance_types::PaymentRecord), AllowanceError>(AllowanceError::AlreadyInactive),
        spec_pause(a) == Err::<Allowance, AllowanceError>(AllowanceError::AlreadyInactive),
        spec_resume(a) == Err::<Allowance, AllowanceError>(AllowanceError::AlreadyInactive),
        spec_cancel(a) == Err::<Allowance, AllowanceError>(AllowanceError::AlreadyInactive),
        spec_update_beneficiary(a, recipient) == Err::<Allowance, AllowanceError>(AllowanceError::AlreadyInactive),
        spec_set_expiration(a, end_date, now) == Err::<Allowance, AllowanceError>(AllowanceError::AlreadyInactive),
        spec_set_spending_limit(a, limit) is Err,
        limit >= 0 ==> spec_set_spending_limit(a, limit) == Err::<Allowance, AllowanceError>(AllowanceError::AlreadyInactive),
{
}

/// A cancelled allowance is inactive.
pub proof fn law_cancel_deactivates(a: Allowance)
    requires
        spec_cancel(a) is Ok,
    ensures
        !(spec_cancel(a)->Ok_0).active,
{
}

/// A paused allowance, an expired one, or one whose slot is not yet due
/// pays nothing.
pub proof fn law_blocked_allowance_pays_nothing(a: Allowance, now: u64, owner_balance: i128)
    requires
        a.paused || spec_is_expired(a, now) || now < a.next_distribution,
    ensures
        spec_distribution(a, now, owner_balance) is Err,
{
}

/// A payment pays the allowance's amount to its current recipient at the
/// payment time, and counts one more payment.
pub proof fn law_payment_record(a: Allowance, now: u64, owner_balance: i128)
    requires
        !distribution_overflows(a, now, owner_balance),
        spec_distribution(a, now, owner_balance) is Ok,
    ensures
        ({
            let (n, record) = spec_distribution(a, now, owner_balance)->Ok_0;
            &&& record.amount == a.amount
            &&& record.timestamp == now
            &&& record.recipient == a.recipient
            &&& n.distribution_count == a.distribution_count + 1
            &&& n.owner == a.owner && n.recipient == a.recipient && n.token == a.token && n.amount == a.amount
        }),
{
}

/// After a payment a one-off allowance is closed, and a recurring one is
/// next due at the first slot of its grid after the payment time: later
/// than `now`, no more than one interval later, and a whole number of
/// intervals after the slot that was paid.
pub proof fn law_schedule_advances(a: Allowance, now: u64, owner_balance: i128)
    requires
        !distribution_overflows(a, now, owner_balance),
        spec_distribution(a, now, owner_balance) is Ok,
    ensures
        ({
            let n = (spec_distribution(a, now, owner_balance)->Ok_0).0;
            match a.frequency.spec_interval() {
                None => !n.active && n.next_distribution == 0,
                Some(interval) => {
                    &&& n.active
                    &&& now < n.next_distribution <= now + interval
                    &&& a.next_distribution < n.next_distribution
                    &&& (n.next_distribution - a.next_distribution) % (interval as int) == 0
                },
            }
        }),
{
    if let Some(interval) = a.frequency.spec_interval() {
        let d: int = now - a.next_distribution;
        let i: int = interval as int;
        let q: int = d / i;
        lemma_fundamental_div_mod(d, i);
        assert(0 <= d % i < i);
        assert(q >= 0) by (nonlinear_arith)
            requires d >= 0, i > 0, d == i * q + d % i, d % i < i;
        let due = next_due(a.next_distribution, interval, now);
        assert(due - a.next_distribution == i * (q + 1));
        assert(i * (q + 1) == i * q + i) by (nonlinear_arith);
        assert(i * q >= 0) by (nonlinear_arith) requires i > 0, q >= 0;
        assert((i * (q + 1)) % i == 0) by (nonlinear_arith) requires i > 0;
    }
}

/// With a cap in force, the cumulative amount paid by an allowance after a
/// payment stays within the cap.
pub proof fn law_spending_cap_respected(a: Allowance, now: u64, owner_balance: i128)
    requires
        !distribution_overflows(a, now, owner_balance),
        spec_distribution(a, now, owner_balance) is Ok,
    ensures
        ({
            let n = (spec_distribution(a, now, owner_balance)->Ok_0).0;
            n.spending_limit > 0 ==> n.amount * n.distribution_count <= n.spending_limit
        }),
{
}

/// After a redirection the next payment goes to the new recipient.
pub proof fn law_redirect_pays_new_recipient(a: Allowance, new_recipient: String, now: u64, owner_balance: i128)
    requires
        spec_update_beneficiary(a, new_recipient) is Ok,
        spec_distribution(spec_update_beneficiary(a, new_recipient)->Ok_0, now, owner_balance) is Ok,
    ensures
        (spec_distribution(spec_update_beneficiary(a, new_recipient)->Ok_0, now, owner_balance)->Ok_0).1.recipient
            == new_recipient,
{
}

/// Redirecting an allowance leaves every payment history unchanged.
pub proof fn law_redirect_keeps_history(m: AllowancesModel, id: u64, a: Allowance, k: u64)
    ensures
        history_of(m.redirected(id, a).payments, k) == history_of(m.payments, k),
{
}

/// An allowance just created reads back as created, under the next id.
pub proof fn law_create_then_get(m: AllowancesModel, a: Allowance)
    requires
        m.well_formed(),
        m.allowances.len() < u64::MAX,
    ensures
        m.created(a).lookup((m.allowances.len() + 1) as u64) == Some(a),
        m.created(a).allowances.len() == m.allowances.len() + 1,
        forall|id: u64| #[trigger] m.lookup(id) is Some ==> m.created(a).lookup(id) == m.lookup(id),
{
}

/// In every reachable state an allowance's history holds exactly as many
/// payments as it has counted.
pub proof fn law_history_matches_count(m: AllowancesModel, id: u64)
    requires
        m.well_formed(),
        m.contains_id(id),
    ensures
        history_of(m.payments, id).len() == m.get(id).distribution_count,
{
    let k: int = id - 1;
    assert(history_of(m.payments, (k + 1) as u64).len() == m.allowances[k].distribution_count);
}

proof fn lemma_registered_listed(log: Seq<RecipientEntry>, id: u64, recipient: Seq<char>)
    requires
        is_registered(log, id, recipient),
    ensures
        recipient_ids(log, recipient).contains(id),
    decreases log.len(),
{
    let last = log.len() - 1;
    if log[last].allowance_id == id && log[last].recipient@ == recipient {
        assert(recipient_ids(log, recipient).last() == id);
    } else {
        let j = choose|j: int| 0 <= j < log.len() && #[trigger] log[j].allowance_id == id && log[j].recipient@ == recipient;
        let rest = log.drop_last();
        assert(rest[j] == log[j]);
        assert(rest[j].allowance_id == id);
        lemma_registered_listed(rest, id, recipient);
        let k = choose|k: int| 0 <= k < recipient_ids(rest, recipient).len() && recipient_ids(rest, recipient)[k] == id;
        assert(recipient_ids(log, recipient)[k] == id);
    }
}

/// In every reachable state an allowance is listed among the allowances of
/// its current recipient.
pub proof fn law_current_recipient_listed(m: AllowancesModel, id: u64)
    requires
        m.well_formed(),
        m.contains_id(id),
    ensures
        recipient_ids(m.recipient_log, m.get(id).recipient@).contains(id),
{
    let k: int = id - 1;
    assert(is_registered(m.recipient_log, (k + 1) as u64, m.allowances[k].recipient@));
    lemma_registered_listed(m.recipient_log, id, m.get(id).recipient@);
}

/// An owner's list holds exactly the ids of the allowances it created.
pub proof fn law_owner_list_exact(allowances: Seq<Allowance>, owner: Seq<char>, id: u64)
    requires
        allowances.len() <= u64::MAX,
    ensures
        owner_ids(allowances, owner).contains(id) <==> (1 <= id <= allowances.len() && allowances[id - 1].owner@ == owner),
    decreases allowances.len(),
{
    if allowances.len() > 0 {
        let rest = allowances.drop_last();
        law_owner_list_exact(rest, owner, id);
        let ids = owner_ids(allowances, owner);
        let rids = owner_ids(rest, owner);
        if allowances.last().owner@ == owner {
            assert(ids == rids.push(allowances.len() as u64));
            if rids.contains(id) {
                let k = choose|k: int| 0 <= k < rids.len() && rids[k] == id;
                assert(ids[k] == id);
            }
            if ids.contains(id) && id != allowances.len() {
                let k = choose|k: int| 0 <= k < ids.len() && ids[k] == id;
                assert(k < rids.len());
            }
            if id == allowances.len() {
                assert(ids[ids.len() - 1] == id);
            }
        } else {
            assert(ids == rids);
        }
        if 1 <= id <= rest.len() {
            assert(rest[id - 1] == allowances[id - 1]);
        }
    }
}

/// The state after the calls `ops`, in order, from state `m`.
pub open spec fn run(m: AllowancesModel, ops: Seq<AllowanceOp>) -> AllowancesModel
    decreases ops.len(),
{
    if ops.len() == 0 {
        m
    } else {
        run(m, ops.drop_last()).apply(ops.last())
    }
}

/// Every call of `ops`, made in order from `m`, is defined.
pub open spec fn run_defined(m: AllowancesModel, ops: Seq<AllowanceOp>) -> bool
    decreases ops.len(),
{
    ops.len() == 0 || (run_defined(m, ops.drop_last()) && run(m, ops.drop_last()).op_defined(ops.last()))
}

/// The call is a redirection of allowance `id`.
pub open spec fn redirects(op: AllowanceOp, id: u64) -> bool {
    match op {
        AllowanceOp::UpdateBeneficiary { id: i, .. } => i == id,
        _ => false,
    }
}

/// The allowance the call `op` creates on `m`, if it is a successful creation.
pub open spec fn step_created(m: AllowancesModel, op: AllowanceOp) -> Option<Allowance> {
    match op {
        AllowanceOp::Create { owner, recipient, token, amount, frequency, start_time } => match spec_create(
            owner,
            recipient,
            token,
            amount,
            frequency,
            start_time,
        ) {
            Ok(a) => Some(a),
            Err(_) => None,
        },
        _ => None,
    }
}

/// The payment record that the call `op` on `m` adds to allowance `id`'s
/// history: one record for a successful payment by `id`, else none.
pub open spec fn step_paid(m: AllowancesModel, op: AllowanceOp, id: u64) -> Seq<PaymentRecord> {
    match op {
        AllowanceOp::Distribute { id: i, now, owner_balance } => if i == id && m.lookup(id) is Some
            && spec_distribution(m.get(id), now, owner_balance) is Ok {
            seq![(spec_distribution(m.get(id), now, owner_balance)->Ok_0).1]
        } else {
            seq![]
        },
        _ => seq![],
    }
}

/// The ids that the call `op` on `m` registers for `recipient`: the new id
/// of a successful creation paying it, or the id of a successful
/// redirection to it.
pub open spec fn step_registered(m: AllowancesModel, op: AllowanceOp, recipient: Seq<char>) -> Seq<u64> {
    match op {
        AllowanceOp::Create { .. } => match step_created(m, op) {
            Some(a) => if a.recipient@ == recipient {
                seq![(m.allowances.len() + 1) as u64]
            } else {
                seq![]
            },
            None => seq![],
        },
        AllowanceOp::UpdateBeneficiary { id, new_recipient } => if m.lookup(id) is Some
            && spec_update_beneficiary(m.get(id), new_recipient) is Ok && new_recipient@ == recipient {
            seq![id]
        } else {
            seq![]
        },
        _ => seq![],
    }
}

/// The number of successful creations among the calls `ops` made from `m`.
pub open spec fn creations(m: AllowancesModel, ops: Seq<AllowanceOp>) -> nat
    decreases ops.len(),
{
    if ops.len() == 0 {
        0
    } else {
        creations(m, ops.drop_last()) + if step_created(run(m, ops.drop_last()), ops.last()) is Some {
            1nat
        } else {
            0nat
        }
    }
}

/// The records, in call order, of the successful payments by allowance
/// `id` among the calls `ops` made from `m`.
pub open spec fn paid_in_run(m: AllowancesModel, ops: Seq<AllowanceOp>, id: u64) -> Seq<PaymentRecord>
    decreases ops.len(),
{
    if ops.len() == 0 {
        seq![]
    } else {
        paid_in_run(m, ops.drop_last(), id) + step_paid(run(m, ops.drop_last()), ops.last(), id)
    }
}

/// The ids, in call order, registered for `recipient` by the calls `ops`
/// made from `m`: at each successful creation paying it and each
/// successful redirection to it.
pub open spec fn registered_in_run(m: AllowancesModel, ops: Seq<AllowanceOp>, recipient: Seq<char>) -> Seq<u64>
    decreases ops.len(),
{
    if ops.len() == 0 {
        seq![]
    } else {
        registered_in_run(m, ops.drop_last(), recipient) + step_registered(
            run(m, ops.drop_last()),
            ops.last(),
            recipient,
        )
    }
}

/// Every defined call keeps the state well formed.
pub proof fn law_call_keeps_well_formed(m: AllowancesModel, op: AllowanceOp)
    requires
        m.well_formed(),
        m.op_defined(op),
    ensures
        m.apply(op).well_formed(),
{
    match op {
        AllowanceOp::Create { owner, recipient, token, amount, frequency, start_time } => {
            if let Ok(a) = spec_create(owner, recipient, token, amount, frequency, start_time) {
                lemma_created_wf(m, a);
            }
        },
        AllowanceOp::Distribute { id, now, owner_balance } => {
            if m.lookup(id) is Some && spec_distribution(m.get(id), now, owner_balance) is Ok {
                lemma_paid_wf(m, id, now, owner_balance);
            }
        },
        AllowanceOp::UpdateBeneficiary { id, new_recipient } => {
            if m.lookup(id) is Some && spec_update_beneficiary(m.get(id), new_recipient) is Ok {
                lemma_redirected_wf(m, id, spec_update_beneficiary(m.get(id), new_recipient)->Ok_0);
            }
        },
        AllowanceOp::Pause { id } => {
            if m.lookup(id) is Some && spec_pause(m.get(id)) is Ok {
                lemma_replace_keeps_wf(m, id, spec_pause(m.get(id))->Ok_0);
            }
        },
        AllowanceOp::Resume { id } => {
            if m.lookup(id) is Some && spec_resume(m.get(id)) is Ok {
                lemma_replace_keeps_wf(m, id, spec_resume(m.get(id))->Ok_0);
            }
        },
        AllowanceOp::Cancel { id } => {
            if m.lookup(id) is Some && spec_cancel(m.get(id)) is Ok {
                lemma_replace_keeps_wf(m, id, spec_cancel(m.get(id))->Ok_0);
            }
        },
        AllowanceOp::SetSpendingLimit { id, limit } => {
            if m.lookup(id) is Some && spec_set_spending_limit(m.get(id), limit) is Ok {
                lemma_replace_keeps_wf(m, id, spec_set_spending_limit(m.get(id), limit)->Ok_0);
            }
        },
        AllowanceOp::SetExpiration { id, end_date, now } => {
            if m.lookup(id) is Some && spec_set_expiration(m.get(id), end_date, now) is Ok {
                lemma_replace_keeps_wf(m, id, spec_set_expiration(m.get(id), end_date, now)->Ok_0);
            }
        },
    }
}

/// Every state reached by defined calls from a well-formed state (such as
/// the empty contract) is well formed.
pub proof fn law_run_keeps_well_formed(m: AllowancesModel, ops: Seq<AllowanceOp>)
    requires
        m.well_formed(),
        run_defined(m, ops),
    ensures
        run(m, ops).well_formed(),
    decreases ops.len(),
{
    if ops.len() > 0 {
        law_run_keeps_well_formed(m, ops.drop_last());
        law_call_keeps_well_formed(run(m, ops.drop_last()), ops.last());
    }
}

/// The empty contract is well formed.
pub proof fn law_empty_well_formed()
    ensures
        AllowancesModel::empty().well_formed(),
{
}

/// One call adds an allowance exactly when it is a successful creation,
/// and never removes one.
pub proof fn lemma_step_count(m: AllowancesModel, op: AllowanceOp)
    ensures
        m.apply(op).allowances.len() == m.allowances.len() + if step_created(m, op) is Some {
            1nat
        } else {
            0nat
        },
{
}

/// The number of allowances after a run is the number before plus the
/// successful creations in the run; from the empty contract it is the
/// number of successful creations, and it never decreases along a run.
pub proof fn law_count_is_creations(m: AllowancesModel, ops: Seq<AllowanceOp>)
    ensures
        run(m, ops).allowances.len() == m.allowances.len() + creations(m, ops),
        m.allowances.len() <= run(m, ops).allowances.len(),
    decreases ops.len(),
{
    if ops.len() > 0 {
        law_count_is_creations(m, ops.drop_last());
        lemma_step_count(run(m, ops.drop_last()), ops.last());
    }
}

/// One call extends allowance `id`'s history by exactly its payment, if
/// it is a successful payment by `id`.
pub proof fn lemma_step_history(m: AllowancesModel, op: AllowanceOp, id: u64)
    ensures
        history_of(m.apply(op).payments, id) == history_of(m.payments, id) + step_paid(m, op, id),
{
    match op {
        AllowanceOp::Distribute { id: i, now, owner_balance } => {
            if m.lookup(i) is Some && spec_distribution(m.get(i), now, owner_balance) is Ok {
                let (n, record) = spec_distribution(m.get(i), now, owner_balance)->Ok_0;
                lemma_history_push(m.payments, PaymentEntry { allowance_id: i, record }, id);
            }
            assert(history_of(m.apply(op).payments, id) =~= history_of(m.payments, id) + step_paid(m, op, id));
        },
        _ => {
            assert(history_of(m.apply(op).payments, id) =~= history_of(m.payments, id) + step_paid(m, op, id));
        },
    }
}

/// A run extends each allowance's history by exactly the records of its
/// successful payments in the run, in call order: one record per payment,
/// oldest first, each with its payment's time, and earlier records kept.
pub proof fn law_history_over_run(m: AllowancesModel, ops: Seq<AllowanceOp>, id: u64)
    ensures
        history_of(run(m, ops).payments, id) == history_of(m.payments, id) + paid_in_run(m, ops, id),
    decreases ops.len(),
{
    if ops.len() == 0 {
        assert(history_of(m.payments, id) + paid_in_run(m, ops, id) =~= history_of(m.payments, id));
    } else {
        let p = ops.drop_last();
        law_history_over_run(m, p, id);
        lemma_step_history(run(m, p), ops.last(), id);
        assert(history_of(m.payments, id) + paid_in_run(m, ops, id) =~= history_of(m.payments, id)
            + paid_in_run(m, p, id) + step_paid(run(m, p), ops.last(), id));
    }
}

/// One call extends a recipient's list by exactly the ids it registers for
/// that recipient.
pub proof fn lemma_step_recipients(m: AllowancesModel, op: AllowanceOp, recipient: Seq<char>)
    ensures
        recipient_ids(m.apply(op).recipient_log, recipient) == recipient_ids(m.recipient_log, recipient)
            + step_registered(m, op, recipient),
{
    match op {
        AllowanceOp::Create { owner, recipient: r, token, amount, frequency, start_time } => {
            if let Ok(a) = spec_create(owner, r, token, amount, frequency, start_time) {
                lemma_recipient_push(
                    m.recipient_log,
                    RecipientEntry { recipient: a.recipient, allowance_id: (m.allowances.len() + 1) as u64 },
                    recipient,
                );
            }
        },
        AllowanceOp::UpdateBeneficiary { id, new_recipient } => {
            if m.lookup(id) is Some && spec_update_beneficiary(m.get(id), new_recipient) is Ok {
                let n = spec_update_beneficiary(m.get(id), new_recipient)->Ok_0;
                lemma_recipient_push(m.recipient_log, RecipientEntry { recipient: n.recipient, allowance_id: id }, recipient);
            }
        },
        _ => {},
    }
    assert(recipient_ids(m.apply(op).recipient_log, recipient) =~= recipient_ids(m.recipient_log, recipient)
        + step_registered(m, op, recipient));
}

/// A run extends each recipient's list by exactly the ids registered for it
/// in the run, in call order; the list only ever grows. From the empty
/// contract a recipient's list holds an id exactly when a successful
/// creation paying the recipient returned that id or a successful
/// redirection of that id to the recipient was made.
pub proof fn law_recipients_over_run(m: AllowancesModel, ops: Seq<AllowanceOp>, recipient: Seq<char>)
    ensures
        recipient_ids(run(m, ops).recipient_log, recipient) == recipient_ids(m.recipient_log, recipient)
            + registered_in_run(m, ops, recipient),
    decreases ops.len(),
{
    if ops.len() == 0 {
        assert(recipient_ids(m.recipient_log, recipient) + registered_in_run(m, ops, recipient)
            =~= recipient_ids(m.recipient_log, recipient));
    } else {
        let p = ops.drop_last();
        law_recipients_over_run(m, p, recipient);
        lemma_step_recipients(run(m, p), ops.last(), recipient);
        assert(recipient_ids(m.recipient_log, recipient) + registered_in_run(m, ops, recipient)
            =~= recipient_ids(m.recipient_log, recipient) + registered_in_run(m, p, recipient)
            + step_registered(run(m, p), ops.last(), recipient));
    }
}

/// A call that is not a redirection of allowance `id` keeps its payee, and
/// any payment it makes for `id` goes to that payee.
pub proof fn lemma_step_keeps_payee(m: AllowancesModel, op: AllowanceOp, id: u64)
    requires
        m.contains_id(id),
        !redirects(op, id),
    ensures
        m.apply(op).contains_id(id),
        m.apply(op).get(id).recipient == m.get(id).recipient,
        forall|k: int| 0 <= k < step_paid(m, op, id).len() ==> #[trigger] step_paid(m, op, id)[k].recipient
            == m.get(id).recipient,
{
    let i: int = id - 1;
    match op {
        AllowanceOp::Create { .. } => {
            if let Some(a) = step_created(m, op) {
                assert(m.apply(op).allowances[i] == m.allowances[i]);
            }
        },
        AllowanceOp::Distribute { id: j, now, owner_balance } => {
            if m.lookup(j) is Some && spec_distribution(m.get(j), now, owner_balance) is Ok && j != id {
                assert(m.apply(op).allowances[i] == m.allowances[i]);
            }
        },
        AllowanceOp::UpdateBeneficiary { id: j, new_recipient } => {
            if m.lookup(j) is Some && spec_update_beneficiary(m.get(j), new_recipient) is Ok {
                assert(m.apply(op).allowances[i] == m.allowances[i]);
            }
        },
        _ => {},
    }
}

/// After a successful redirection of allowance `id` to `new_recipient`,
/// and as long as no further redirection of `id` is made, every payment by
/// `id` goes to `new_recipient`, while the records made before the
/// redirection keep their recipients.
pub proof fn law_redirect_then_pay(m: AllowancesModel, id: u64, new_recipient: String, ops: Seq<AllowanceOp>)
    requires
        m.lookup(id) is Some,
        spec_update_beneficiary(m.get(id), new_recipient) is Ok,
        forall|k: int| 0 <= k < ops.len() ==> !redirects(#[trigger] ops[k], id),
    ensures
        ({
            let start = m.apply(AllowanceOp::UpdateBeneficiary { id, new_recipient });
            &&& run(start, ops).get(id).recipient == new_recipient
            &&& forall|k: int| 0 <= k < paid_in_run(start, ops, id).len() ==> #[trigger] paid_in_run(start, ops, id)[k].recipient
                == new_recipient
            &&& history_of(run(start, ops).payments, id) == history_of(m.payments, id) + paid_in_run(start, ops, id)
        }),
{
    let start = m.apply(AllowanceOp::UpdateBeneficiary { id, new_recipient });
    lemma_payee_stable(start, ops, id);
    law_history_over_run(start, ops, id);
}

/// Along a run with no redirection of allowance `id`, its payee stays as
/// it was, and every payment it makes goes to that payee.
pub proof fn lemma_payee_stable(m: AllowancesModel, ops: Seq<AllowanceOp>, id: u64)
    requires
        m.contains_id(id),
        forall|k: int| 0 <= k < ops.len() ==> !redirects(#[trigger] ops[k], id),
    ensures
        run(m, ops).contains_id(id),
        run(m, ops).get(id).recipient == m.get(id).recipient,
        forall|k: int| 0 <= k < paid_in_run(m, ops, id).len() ==> #[trigger] paid_in_run(m, ops, id)[k].recipient
            == m.get(id).recipient,
    decreases ops.len(),
{
    if ops.len() > 0 {
        let p = ops.drop_last();
        assert forall|k: int| 0 <= k < p.len() implies !redirects(#[trigger] p[k], id) by {
            assert(p[k] == ops[k]);
        }
        lemma_payee_stable(m, p, id);
        assert(!redirects(ops[ops.len() - 1], id));
        lemma_step_keeps_payee(run(m, p), ops.last(), id);
        let whole = paid_in_run(m, ops, id);
        let first = paid_in_run(m, p, id);
        let step = step_paid(run(m, p), ops.last(), id);
        assert forall|k: int| 0 <= k < whole.len() implies #[trigger] whole[k].recipient == m.get(id).recipient by {
            if k < first.len() {
                assert(whole[k] == first[k]);
            } else {
                assert(whole[k] == step[k - first.len()]);
            }
        }
    }
}

/// The history of an allowance whose payments all paid `amount` and were
/// made at strictly increasing times has the same properties.
proof fn lemma_history_sorted(payments: Seq<PaymentEntry>, id: u64, amount: i128)
    requires
        forall|j: int| 0 <= j < payments.len() && #[trigger] payments[j].allowance_id == id ==> payments[j].record.amount
            == amount,
        forall|i: int, j: int|
            #![trigger payments[i], payments[j]]
            0 <= i < j < payments.len() && payments[i].allowance_id == payments[j].allowance_id
                ==> payments[i].record.timestamp < payments[j].record.timestamp,
    ensures
        forall|k: int| 0 <= k < history_of(payments, id).len() ==> #[trigger] history_of(payments, id)[k].amount == amount,
        forall|a: int, b: int|
            0 <= a < b < history_of(payments, id).len() ==> #[trigger] history_of(payments, id)[a].timestamp
                < #[trigger] history_of(payments, id)[b].timestamp,
        forall|k: int|
            #![trigger history_of(payments, id)[k]]
            0 <= k < history_of(payments, id).len() ==> exists|j: int|
                0 <= j < payments.len() && payments[j].allowance_id == id && #[trigger] payments[j].record
                    == history_of(payments, id)[k],
    decreases payments.len(),
{
    if payments.len() > 0 {
        let p = payments.drop_last();
        let n = payments.len() - 1;
        assert forall|j: int| 0 <= j < p.len() && #[trigger] p[j].allowance_id == id implies p[j].record.amount == amount by {
            assert(p[j] == payments[j]);
        }
        assert forall|i: int, j: int|
            #![trigger p[i], p[j]]
            0 <= i < j < p.len() && p[i].allowance_id == p[j].allowance_id implies p[i].record.timestamp
                < p[j].record.timestamp by {
            assert(p[i] == payments[i] && p[j] == payments[j]);
        }
        lemma_history_sorted(p, id, amount);
        let h = history_of(payments, id);
        let hp = history_of(p, id);
        assert forall|k: int| #![trigger hp[k]] 0 <= k < hp.len() implies exists|j: int|
            0 <= j < payments.len() && payments[j].allowance_id == id && #[trigger] payments[j].record == hp[k] by {
            let j = choose|j: int| 0 <= j < p.len() && p[j].allowance_id == id && #[trigger] p[j].record == hp[k];
            assert(payments[j] == p[j]);
        }
        if payments[n].allowance_id == id {
            assert(h == hp.push(payments[n].record));
            assert forall|a: int| 0 <= a < hp.len() implies #[trigger] hp[a].timestamp < payments[n].record.timestamp by {
                let j = choose|j: int| 0 <= j < p.len() && p[j].allowance_id == id && #[trigger] p[j].record == hp[a];
                assert(payments[j] == p[j]);
                assert(payments[j].allowance_id == payments[n].allowance_id);
            }
            assert(payments[n].record == h[hp.len() as int]);
        } else {
            assert(h == hp);
        }
        assert forall|k: int| #![trigger h[k]] 0 <= k < h.len() implies exists|j: int|
            0 <= j < payments.len() && payments[j].allowance_id == id && #[trigger] payments[j].record == h[k] by {
            if k < hp.len() {
                assert(h[k] == hp[k]);
            } else {
                assert(payments[n].record == h[k]);
            }
        }
    }
}

/// In every reachable state an allowance's history holds one record per
/// payment counted, each paying the allowance's amount, at strictly
/// increasing times.
pub proof fn law_history_records(m: AllowancesModel, id: u64)
    requires
        m.well_formed(),
        m.contains_id(id),
    ensures
        history_of(m.payments, id).len() == m.get(id).distribution_count,
        forall|k: int| 0 <= k < history_of(m.payments, id).len() ==> #[trigger] history_of(m.payments, id)[k].amount
            == m.get(id).amount,
        forall|a: int, b: int|
            0 <= a < b < history_of(m.payments, id).len() ==> #[trigger] history_of(m.payments, id)[a].timestamp
                < #[trigger] history_of(m.payments, id)[b].timestamp,
{
    law_history_matches_count(m, id);
    assert forall|j: int| 0 <= j < m.payments.len() && #[trigger] m.payments[j].allowance_id == id implies m.payments[j].record.amount
        == m.get(id).amount by {
        assert(m.payment_fits(m.payments[j]));
    }
    lemma_history_sorted(m.payments, id, m.get(id).amount);
}

/// From a fresh contract: the number of allowances is the number of
/// successful creations, each history is exactly the records of the
/// allowance's successful payments in call order, and each recipient's
/// list is exactly the ids registered for it in call order.
pub proof fn law_fresh_contract(ops: Seq<AllowanceOp>, id: u64, recipient: Seq<char>)
    ensures
        run(AllowancesModel::empty(), ops).allowances.len() == creations(AllowancesModel::empty(), ops),
        history_of(run(AllowancesModel::empty(), ops).payments, id) == paid_in_run(AllowancesModel::empty(), ops, id),
        recipient_ids(run(AllowancesModel::empty(), ops).recipient_log, recipient) == registered_in_run(
            AllowancesModel::empty(),
            ops,
            recipient,
        ),
{
    let e = AllowancesModel::empty();
    law_count_is_creations(e, ops);
    law_history_over_run(e, ops, id);
    law_recipients_over_run(e, ops, recipient);
    assert(history_of(e.payments, id) + paid_in_run(e, ops, id) =~= paid_in_run(e, ops, id));
    assert(recipient_ids(e.recipient_log, recipient) + registered_in_run(e, ops, recipient) =~= registered_in_run(e, ops, recipient));
}

/// Cancelling is refused exactly for an inactive allowance: every active
/// allowance, paused or not, can be cancelled, and the result differs from
/// it only in being inactive. In particular a paused allowance can be
/// cancelled.
pub proof fn law_cancel_succeeds_on_active(a: Allowance)
    ensures
        spec_cancel(a) is Ok <==> a.active,
        !a.active ==> spec_cancel(a) == Err::<Allowance, AllowanceError>(AllowanceError::AlreadyInactive),
        spec_cancel(a) matches Ok(r) ==> {
            &&& !r.active
            &&& r.paused == a.paused
            &&& r.owner == a.owner && r.recipient == a.recipient && r.token == a.token
            &&& r.amount == a.amount && r.frequency == a.frequency
            &&& r.next_distribution == a.next_distribution && r.distribution_count == a.distribution_count
            &&& r.spending_limit == a.spending_limit && r.end_date == a.end_date
        },
        spec_pause(a) is Ok ==> spec_cancel(spec_pause(a)->Ok_0) is Ok,
{
}

/// Redirecting is refused exactly for an inactive allowance: every active
/// allowance, paused or not, can be redirected, and the result differs from
/// it only in paying the new recipient. In particular a paused allowance
/// can be redirected.
pub proof fn law_redirect_succeeds_on_active(a: Allowance, new_recipient: String)
    ensures
        spec_update_beneficiary(a, new_recipient) is Ok <==> a.active,
        !a.active ==> spec_update_beneficiary(a, new_recipient) == Err::<Allowance, AllowanceError>(
            AllowanceError::AlreadyInactive,
        ),
        spec_update_beneficiary(a, new_recipient) matches Ok(r) ==> {
            &&& r.recipient == new_recipient
            &&& r.active == a.active && r.paused == a.paused
            &&& r.owner == a.owner && r.token == a.token
            &&& r.amount == a.amount && r.frequency == a.frequency
            &&& r.next_distribution == a.next_distribution && r.distribution_count == a.distribution_count
            &&& r.spending_limit == a.spending_limit && r.end_date == a.end_date
        },
        spec_pause(a) is Ok ==> spec_update_beneficiary(spec_pause(a)->Ok_0, new_recipient) is Ok,
{
}

/// Setting an end date is refused exactly for an inactive allowance or a
/// non-zero date that is not after `now`: on every active allowance,
/// paused or not, a cleared date or a future one is set, and the result
/// differs from it only in its end date. In particular a paused allowance
/// can be given an end date.
pub proof fn law_set_expiration_succeeds_on_active(a: Allowance, end_date: u64, now: u64)
    ensures
        spec_set_expiration(a, end_date, now) is Ok <==> (a.active && (end_date == 0 || end_date > now)),
        !a.active ==> spec_set_expiration(a, end_date, now) == Err::<Allowance, AllowanceError>(
            AllowanceError::AlreadyInactive,
        ),
        a.active && end_date != 0 && end_date <= now ==> spec_set_expiration(a, end_date, now) == Err::<
            Allowance,
            AllowanceError,
        >(AllowanceError::InvalidExpiration),
        spec_set_expiration(a, end_date, now) matches Ok(r) ==> {
            &&& r.end_date == end_date
            &&& r.active == a.active && r.paused == a.paused
            &&& r.owner == a.owner && r.recipient == a.recipient && r.token == a.token
            &&& r.amount == a.amount && r.frequency == a.frequency
            &&& r.next_distribution == a.next_distribution && r.distribution_count == a.distribution_count
            &&& r.spending_limit == a.spending_limit
        },
        spec_pause(a) is Ok && (end_date == 0 || end_date > now) ==> spec_set_expiration(
            spec_pause(a)->Ok_0,
            end_date,
            now,
        ) is Ok,
{
}

/// The payment intervals: a day, a week and thirty days, in seconds; a
/// one-off allowance has none.
pub proof fn law_frequency_intervals()
    ensures
        Frequency::Once.spec_interval() is None,
        Frequency::Daily.spec_interval() == Some(86_400u64),
        Frequency::Weekly.spec_interval() == Some(604_800u64),
        Frequency::Monthly.spec_interval() == Some(2_592_000u64),
{
}

/// Creation succeeds exactly for a positive amount, and yields an active,
/// unpaused allowance with the requested parties, token, amount and
/// frequency, due first at the start time, with no payment made, no cap
/// and no end date.
pub proof fn law_create_defaults(owner: String, recipient: String, token: String, amount: i128, frequency: Frequency, start_time: u64)
    ensures
        spec_create(owner, recipient, token, amount, frequency, start_time) is Ok <==> amount > 0,
        amount <= 0 ==> spec_create(owner, recipient, token, amount, frequency, start_time) == Err::<Allowance, AllowanceError>(
            AllowanceError::InvalidAmount,
        ),
        spec_create(owner, recipient, token, amount, frequency, start_time) matches Ok(a) ==> {
            &&& a.owner == owner && a.recipient == recipient && a.token == token
            &&& a.amount == amount && a.frequency == frequency
            &&& a.next_distribution == start_time && a.distribution_count == 0
            &&& a.active && !a.paused && a.spending_limit == 0 && a.end_date == 0
        },
{
}

/// Pausing succeeds exactly on an active, unpaused allowance and changes
/// only the paused flag; resuming succeeds exactly on an active, paused one
/// and clears it.
pub proof fn law_pause_resume_conditions(a: Allowance)
    ensures
        spec_pause(a) is Ok <==> (a.active && !a.paused),
        a.active && a.paused ==> spec_pause(a) == Err::<Allowance, AllowanceError>(AllowanceError::AlreadyPaused),
        spec_pause(a) matches Ok(r) ==> {
            &&& r.paused && r.active
            &&& r.owner == a.owner && r.recipient == a.recipient && r.token == a.token
            &&& r.amount == a.amount && r.frequency == a.frequency
            &&& r.next_distribution == a.next_distribution && r.distribution_count == a.distribution_count
            &&& r.spending_limit == a.spending_limit && r.end_date == a.end_date
        },
        spec_resume(a) is Ok <==> (a.active && a.paused),
        a.active && !a.paused ==> spec_resume(a) == Err::<Allowance, AllowanceError>(AllowanceError::NotPaused),
        spec_resume(a) matches Ok(r) ==> {
            &&& !r.paused && r.active
            &&& r.owner == a.owner && r.recipient == a.recipient && r.token == a.token
            &&& r.amount == a.amount && r.frequency == a.frequency
            &&& r.next_distribution == a.next_distribution && r.distribution_count == a.distribution_count
            &&& r.spending_limit == a.spending_limit && r.end_date == a.end_date
        },
{
}

/// Setting a cap succeeds exactly for a non-negative cap on an active
/// allowance, paused or not; a negative cap is refused as invalid even on
/// an inactive allowance. Only the cap changes.
pub proof fn law_set_spending_limit_conditions(a: Allowance, limit: i128)
    ensures
        spec_set_spending_limit(a, limit) is Ok <==> (limit >= 0 && a.active),
        limit < 0 ==> spec_set_spending_limit(a, limit) == Err::<Allowance, AllowanceError>(AllowanceError::InvalidLimit),
        limit >= 0 && !a.active ==> spec_set_spending_limit(a, limit) == Err::<Allowance, AllowanceError>(
            AllowanceError::AlreadyInactive,
        ),
        spec_set_spending_limit(a, limit) matches Ok(r) ==> {
            &&& r.spending_limit == limit
            &&& r.active == a.active && r.paused == a.paused
            &&& r.owner == a.owner && r.recipient == a.recipient && r.token == a.token
            &&& r.amount == a.amount && r.frequency == a.frequency
            &&& r.next_distribution == a.next_distribution && r.distribution_count == a.distribution_count
            &&& r.end_date == a.end_date
        },
{
}

/// A payment at `now` with the owner holding `owner_balance` is refused, in
/// this order: an inactive allowance, a paused one, one whose non-zero end
/// date `now` has reached, one whose slot is not due, one whose cumulative
/// payments would pass a positive cap, an owner holding less than the
/// amount; it succeeds otherwise.
pub proof fn law_payment_refusals(a: Allowance, now: u64, owner_balance: i128)
    ensures
        !a.active ==> spec_distribution(a, now, owner_balance) == Err::<(Allowance, PaymentRecord), AllowanceError>(
            AllowanceError::AlreadyInactive,
        ),
        a.active && a.paused ==> spec_distribution(a, now, owner_balance) == Err::<(Allowance, PaymentRecord), AllowanceError>(
            AllowanceError::Paused,
        ),
        a.active && !a.paused && a.end_date != 0 && now >= a.end_date ==> spec_distribution(a, now, owner_balance)
            == Err::<(Allowance, PaymentRecord), AllowanceError>(AllowanceError::Expired),
        a.active && !a.paused && (a.end_date == 0 || now < a.end_date) && now < a.next_distribution
            ==> spec_distribution(a, now, owner_balance) == Err::<(Allowance, PaymentRecord), AllowanceError>(
            AllowanceError::TooEarlyToDistribute,
        ),
        a.active && !a.paused && (a.end_date == 0 || now < a.end_date) && now >= a.next_distribution
            && a.spending_limit > 0 && a.amount * (a.distribution_count + 1) > a.spending_limit
            ==> spec_distribution(a, now, owner_balance) == Err::<(Allowance, PaymentRecord), AllowanceError>(
            AllowanceError::SpendingLimitExceeded,
        ),
        a.active && !a.paused && (a.end_date == 0 || now < a.end_date) && now >= a.next_distribution
            && (a.spending_limit <= 0 || (i128::MIN <= a.amount * (a.distribution_count + 1) <= a.spending_limit))
            && owner_balance < a.amount ==> spec_distribution(a, now, owner_balance) == Err::<
            (Allowance, PaymentRecord),
            AllowanceError,
        >(AllowanceError::InsufficientBalance),
        a.active && !a.paused && (a.end_date == 0 || now < a.end_date) && now >= a.next_distribution
            && (a.spending_limit <= 0 || (i128::MIN <= a.amount * (a.distribution_count + 1) <= a.spending_limit))
            && owner_balance >= a.amount ==> spec_distribution(a, now, owner_balance) is Ok,
{
}

/// An allowance is expired at `now` exactly when it has a non-zero end
/// date that `now` has reached.
pub proof fn law_expiry(a: Allowance, now: u64)
    ensures
        spec_is_expired(a, now) <==> (a.end_date != 0 && now >= a.end_date),
{
}

} // verus!
