//! The allowances contract: every allowance ever created, who has been
//! registered as payee of each, and every payment made. Allowance `k`
//! (counting from 1) is the `k`-th one created.

use vstd::prelude::*;

use crate::allowance_rules::{
    lemma_next_due, distribution_overflows, spec_cancel, spec_create, spec_distribution, spec_is_expired,
    spec_pause, spec_resume, spec_set_expiration, spec_set_spending_limit,
    spec_update_beneficiary,
};
use crate::allowance_types::{Allowance, AllowanceError, Frequency, PaymentRecord};

verus! {

/// The registration of `recipient` as payee of allowance `allowance_id`.
#[derive(Debug)]
pub struct RecipientEntry {
    pub recipient: String,
    pub allowance_id: u64,
}

/// A payment made by allowance `allowance_id`.
#[derive(Debug)]
pub struct PaymentEntry {
    pub allowance_id: u64,
    pub record: PaymentRecord,
}

/// The ids, in order, of the allowances in `allowances` owned by `owner`.
pub open spec fn owner_ids(allowances: Seq<Allowance>, owner: Seq<char>) -> Seq<u64>
    decreases allowances.len(),
{
    if allowances.len() == 0 {
        seq![]
    } else {
        let rest = owner_ids(allowances.drop_last(), owner);
        if allowances.last().owner@ == owner {
            rest.push(allowances.len() as u64)
        } else {
            rest
        }
    }
}

/// The ids, in order of registration, for which `recipient` was registered
/// as payee (once per registration).
pub open spec fn recipient_ids(log: Seq<RecipientEntry>, recipient: Seq<char>) -> Seq<u64>
    decreases log.len(),
{
    if log.len() == 0 {
        seq![]
    } else {
        let rest = recipient_ids(log.drop_last(), recipient);
        if log.last().recipient@ == recipient {
            rest.push(log.last().allowance_id)
        } else {
            rest
        }
    }
}

/// The payments, oldest first, made by allowance `id`.
pub open spec fn history_of(payments: Seq<PaymentEntry>, id: u64) -> Seq<PaymentRecord>
    decreases payments.len(),
{
    if payments.len() == 0 {
        seq![]
    } else {
        let rest = history_of(payments.drop_last(), id);
        if payments.last().allowance_id == id {
            rest.push(payments.last().record)
        } else {
            rest
        }
    }
}

/// The log holds a registration of `recipient` for allowance `id`.
pub open spec fn is_registered(log: Seq<RecipientEntry>, id: u64, recipient: Seq<char>) -> bool {
    exists|j: int| 0 <= j < log.len() && #[trigger] log[j].allowance_id == id && log[j].recipient@ == recipient
}

/// A call on the allowances contract, with the ledger values it reads
/// (the time and the owner's token balance).
#[derive(Debug)]
pub enum AllowanceOp {
    Create { owner: String, recipient: String, token: String, amount: i128, frequency: Frequency, start_time: u64 },
    Distribute { id: u64, now: u64, owner_balance: i128 },
    Pause { id: u64 },
    Resume { id: u64 },
    Cancel { id: u64 },
    UpdateBeneficiary { id: u64, new_recipient: String },
    SetSpendingLimit { id: u64, limit: i128 },
    SetExpiration { id: u64, end_date: u64, now: u64 },
}

/// The abstract state of the allowances contract.
#[verifier::ext_equal]
pub struct AllowancesModel {
    pub allowances: Seq<Allowance>,
    pub recipient_log: Seq<RecipientEntry>,
    pub payments: Seq<PaymentEntry>,
}

impl AllowancesModel {
    /// The state of a contract with no allowances.
    pub open spec fn empty() -> AllowancesModel {
        AllowancesModel { allowances: Seq::empty(), recipient_log: Seq::empty(), payments: Seq::empty() }
    }

    /// The state after owner operation `step` on allowance `id`: changed
    /// when the allowance exists and the step succeeds, else unchanged.
    pub open spec fn replaced(self, id: u64, step: spec_fn(Allowance) -> Result<Allowance, AllowanceError>) -> AllowancesModel {
        match self.lookup(id) {
            Some(a) => match step(a) {
                Ok(n) => self.with_allowance(id, n),
                Err(_) => self,
            },
            None => self,
        }
    }

    /// The state after the call `op`; a refused call changes nothing.
    pub open spec fn apply(self, op: AllowanceOp) -> AllowancesModel {
        match op {
            AllowanceOp::Create { owner, recipient, token, amount, frequency, start_time } => {
                match spec_create(owner, recipient, token, amount, frequency, start_time) {
                    Ok(a) => self.created(a),
                    Err(_) => self,
                }
            },
            AllowanceOp::Distribute { id, now, owner_balance } => match self.lookup(id) {
                Some(a) => match spec_distribution(a, now, owner_balance) {
                    Ok((n, record)) => self.paid(id, n, record),
                    Err(_) => self,
                },
                None => self,
            },
            AllowanceOp::Pause { id } => self.replaced(id, |a: Allowance| spec_pause(a)),
            AllowanceOp::Resume { id } => self.replaced(id, |a: Allowance| spec_resume(a)),
            AllowanceOp::Cancel { id } => self.replaced(id, |a: Allowance| spec_cancel(a)),
            AllowanceOp::UpdateBeneficiary { id, new_recipient } => match self.lookup(id) {
                Some(a) => match spec_update_beneficiary(a, new_recipient) {
                    Ok(n) => self.redirected(id, n),
                    Err(_) => self,
                },
                None => self,
            },
            AllowanceOp::SetSpendingLimit { id, limit } => self.replaced(id, |a: Allowance| spec_set_spending_limit(a, limit)),
            AllowanceOp::SetExpiration { id, end_date, now } => self.replaced(
                id,
                |a: Allowance| spec_set_expiration(a, end_date, now),
            ),
        }
    }

    /// The call `op` is defined on this state: creation leaves room for a
    /// new id, and a payment overflows neither counter nor clock.
    pub open spec fn op_defined(self, op: AllowanceOp) -> bool {
        match op {
            AllowanceOp::Create { .. } => self.allowances.len() < u64::MAX,
            AllowanceOp::Distribute { id, now, owner_balance } => self.lookup(id) matches Some(a)
                ==> !distribution_overflows(a, now, owner_balance),
            _ => true,
        }
    }

    /// Allowance `id` exists.
    pub open spec fn contains_id(self, id: u64) -> bool {
        1 <= id <= self.allowances.len()
    }

    /// Allowance `id`, when it exists.
    pub open spec fn get(self, id: u64) -> Allowance {
        self.allowances[id - 1]
    }

    /// Allowance `id`, or `None` when it does not exist.
    pub open spec fn lookup(self, id: u64) -> Option<Allowance> {
        if self.contains_id(id) {
            Some(self.get(id))
        } else {
            None
        }
    }

    /// The state with allowance `id` replaced by `a`.
    pub open spec fn with_allowance(self, id: u64, a: Allowance) -> AllowancesModel {
        AllowancesModel { allowances: self.allowances.update(id - 1, a), ..self }
    }

    /// The state after creating allowance `a`, which receives the next id.
    pub open spec fn created(self, a: Allowance) -> AllowancesModel {
        AllowancesModel {
            allowances: self.allowances.push(a),
            recipient_log: self.recipient_log.push(
                RecipientEntry { recipient: a.recipient, allowance_id: (self.allowances.len() + 1) as u64 },
            ),
            payments: self.payments,
        }
    }

    /// The state after allowance `id` paid `record` and became `a`.
    pub open spec fn paid(self, id: u64, a: Allowance, record: PaymentRecord) -> AllowancesModel {
        AllowancesModel {
            allowances: self.allowances.update(id - 1, a),
            recipient_log: self.recipient_log,
            payments: self.payments.push(PaymentEntry { allowance_id: id, record }),
        }
    }

    /// The state after allowance `id` became `a`, whose payee is newly registered.
    pub open spec fn redirected(self, id: u64, a: Allowance) -> AllowancesModel {
        AllowancesModel {
            allowances: self.allowances.update(id - 1, a),
            recipient_log: self.recipient_log.push(RecipientEntry { recipient: a.recipient, allowance_id: id }),
            payments: self.payments,
        }
    }

    /// The outcome of an owner's operation `step` on allowance `id`: the
    /// result `r` and the state `after`.
    pub open spec fn managed(
        self,
        after: AllowancesModel,
        id: u64,
        r: Result<(), AllowanceError>,
        step: spec_fn(Allowance) -> Result<Allowance, AllowanceError>,
    ) -> bool {
        match self.lookup(id) {
            None => r == Err::<(), AllowanceError>(AllowanceError::NotFound) && after == self,
            Some(a) => match step(a) {
                Err(e) => r == Err::<(), AllowanceError>(e) && after == self,
                Ok(n) => r == Ok::<(), AllowanceError>(()) && after == self.with_allowance(id, n),
            },
        }
    }

    /// The payment `e` agrees with its allowance now: it paid the
    /// allowance's amount and, while the allowance is active, it was made
    /// before the allowance's next slot.
    pub open spec fn payment_fits(self, e: PaymentEntry) -> bool {
        let a = self.allowances[e.allowance_id - 1];
        &&& e.record.amount == a.amount
        &&& a.active ==> e.record.timestamp < a.next_distribution
    }

    /// What every state reached from an empty contract satisfies: logs only
    /// name existing allowances, each allowance's current payee is
    /// registered for it, each allowance's history holds exactly as many
    /// payments as it has counted, every payment paid its allowance's
    /// amount before the allowance's next slot, and the payments of one
    /// allowance were made at strictly increasing times.
    pub open spec fn well_formed(self) -> bool {
        &&& self.allowances.len() <= u64::MAX
        &&& forall|j: int|
            0 <= j < self.recipient_log.len() ==> 1 <= #[trigger] self.recipient_log[j].allowance_id
                <= self.allowances.len()
        &&& forall|j: int|
            0 <= j < self.payments.len() ==> 1 <= #[trigger] self.payments[j].allowance_id
                <= self.allowances.len()
        &&& forall|k: int|
            0 <= k < self.allowances.len() ==> is_registered(
                self.recipient_log,
                (k + 1) as u64,
                #[trigger] self.allowances[k].recipient@,
            )
        &&& forall|k: int|
            0 <= k < self.allowances.len() ==> history_of(self.payments, (k + 1) as u64).len()
                == #[trigger] self.allowances[k].distribution_count
        &&& forall|j: int| 0 <= j < self.payments.len() ==> self.payment_fits(#[trigger] self.payments[j])
        &&& forall|i: int, j: int|
            #![trigger self.payments[i], self.payments[j]]
            0 <= i < j < self.payments.len() && self.payments[i].allowance_id == self.payments[j].allowance_id
                ==> self.payments[i].record.timestamp < self.payments[j].record.timestamp
    }
}

/// A history is empty for an id that no payment names.
proof fn lemma_history_absent(payments: Seq<PaymentEntry>, id: u64)
    requires
        forall|j: int| 0 <= j < payments.len() ==> #[trigger] payments[j].allowance_id != id,
    ensures
        history_of(payments, id) == Seq::<PaymentRecord>::empty(),
    decreases payments.len(),
{
    if payments.len() > 0 {
        lemma_history_absent(payments.drop_last(), id);
    }
}

/// Appending a payment extends exactly the history of its allowance.
pub proof fn lemma_history_push(payments: Seq<PaymentEntry>, entry: PaymentEntry, id: u64)
    ensures
        history_of(payments.push(entry), id) == if entry.allowance_id == id {
            history_of(payments, id).push(entry.record)
        } else {
            history_of(payments, id)
        },
{
    assert(payments.push(entry).drop_last() =~= payments);
}

/// Appending a registration extends exactly the list of its recipient.
pub proof fn lemma_recipient_push(log: Seq<RecipientEntry>, entry: RecipientEntry, recipient: Seq<char>)
    ensures
        recipient_ids(log.push(entry), recipient) == if entry.recipient@ == recipient {
            recipient_ids(log, recipient).push(entry.allowance_id)
        } else {
            recipient_ids(log, recipient)
        },
{
    assert(log.push(entry).drop_last() =~= log);
}

/// Replacing an allowance by one with the same payee, amount, payment
/// count and next slot, never reactivated, keeps the state well formed.
pub proof fn lemma_replace_keeps_wf(m: AllowancesModel, id: u64, a: Allowance)
    requires
        m.well_formed(),
        m.contains_id(id),
        a.recipient == m.get(id).recipient,
        a.distribution_count == m.get(id).distribution_count,
        a.amount == m.get(id).amount,
        a.next_distribution == m.get(id).next_distribution,
        a.active ==> m.get(id).active,
    ensures
        m.with_allowance(id, a).well_formed(),
{
    let n = m.with_allowance(id, a);
    assert forall|k: int| 0 <= k < n.allowances.len() implies is_registered(
        n.recipient_log,
        (k + 1) as u64,
        #[trigger] n.allowances[k].recipient@,
    ) by {
        assert(is_registered(m.recipient_log, (k + 1) as u64, m.allowances[k].recipient@));
    }
    assert forall|k: int| 0 <= k < n.allowances.len() implies history_of(n.payments, (k + 1) as u64).len()
        == #[trigger] n.allowances[k].distribution_count by {
        assert(history_of(m.payments, (k + 1) as u64).len() == m.allowances[k].distribution_count);
    }
    assert forall|j: int| 0 <= j < n.payments.len() implies n.payment_fits(#[trigger] n.payments[j]) by {
        assert(m.payment_fits(m.payments[j]));
    }
}

/// Replacing an allowance by one with a new payee, registered for it, and
/// the same amount, payment count, next slot and activity keeps the state
/// well formed.
pub proof fn lemma_redirected_wf(m: AllowancesModel, id: u64, a: Allowance)
    requires
        m.well_formed(),
        m.contains_id(id),
        a.distribution_count == m.get(id).distribution_count,
        a.amount == m.get(id).amount,
        a.next_distribution == m.get(id).next_distribution,
        a.active == m.get(id).active,
    ensures
        m.redirected(id, a).well_formed(),
{
    let after = m.redirected(id, a);
    let entry = RecipientEntry { recipient: a.recipient, allowance_id: id };
    let i: int = id - 1;
    assert forall|k: int| 0 <= k < after.allowances.len() implies is_registered(
        after.recipient_log,
        (k + 1) as u64,
        #[trigger] after.allowances[k].recipient@,
    ) by {
        if k == i {
            let last = m.recipient_log.len() as int;
            assert(after.recipient_log[last] == entry);
            assert(after.recipient_log[last].allowance_id == (k + 1) as u64);
        } else {
            assert(m.allowances[k] == after.allowances[k]);
            assert(is_registered(m.recipient_log, (k + 1) as u64, m.allowances[k].recipient@));
            let j = choose|j: int|
                0 <= j < m.recipient_log.len()
                    && #[trigger] m.recipient_log[j].allowance_id == (k + 1) as u64
                    && m.recipient_log[j].recipient@ == m.allowances[k].recipient@;
            assert(after.recipient_log[j] == m.recipient_log[j]);
            assert(after.recipient_log[j].allowance_id == (k + 1) as u64);
        }
    }
    assert forall|k: int| 0 <= k < after.allowances.len() implies history_of(
        after.payments,
        (k + 1) as u64,
    ).len() == #[trigger] after.allowances[k].distribution_count by {
        assert(history_of(m.payments, (k + 1) as u64).len() == m.allowances[k].distribution_count);
    }
    assert forall|j: int| 0 <= j < after.recipient_log.len() implies 1 <= #[trigger] after.recipient_log[j].allowance_id
        <= after.allowances.len() by {
        if j < m.recipient_log.len() {
            assert(after.recipient_log[j] == m.recipient_log[j]);
        }
    }
    assert forall|j: int| 0 <= j < after.payments.len() implies after.payment_fits(#[trigger] after.payments[j]) by {
        assert(m.payment_fits(m.payments[j]));
    }
}

/// Creating an allowance that has made no payment keeps the state well
/// formed.
pub proof fn lemma_created_wf(m: AllowancesModel, a: Allowance)
    requires
        m.well_formed(),
        m.allowances.len() < u64::MAX,
        a.distribution_count == 0,
    ensures
        m.created(a).well_formed(),
{
    let after = m.created(a);
    let id = (m.allowances.len() + 1) as u64;
    let entry = RecipientEntry { recipient: a.recipient, allowance_id: id };
    assert forall|k: int| 0 <= k < after.allowances.len() implies is_registered(
        after.recipient_log,
        (k + 1) as u64,
        #[trigger] after.allowances[k].recipient@,
    ) by {
        if k < m.allowances.len() {
            assert(m.allowances[k] == after.allowances[k]);
            assert(is_registered(m.recipient_log, (k + 1) as u64, m.allowances[k].recipient@));
            let j = choose|j: int|
                0 <= j < m.recipient_log.len()
                    && #[trigger] m.recipient_log[j].allowance_id == (k + 1) as u64
                    && m.recipient_log[j].recipient@ == m.allowances[k].recipient@;
            assert(after.recipient_log[j] == m.recipient_log[j]);
            assert(after.recipient_log[j].allowance_id == (k + 1) as u64);
        } else {
            let last = m.recipient_log.len() as int;
            assert(after.recipient_log[last] == entry);
            assert(after.recipient_log[last].allowance_id == (k + 1) as u64);
        }
    }
    assert forall|k: int| 0 <= k < after.allowances.len() implies history_of(
        after.payments,
        (k + 1) as u64,
    ).len() == #[trigger] after.allowances[k].distribution_count by {
        if k == m.allowances.len() {
            lemma_history_absent(after.payments, id);
        } else {
            assert(m.allowances[k] == after.allowances[k]);
        }
    }
    assert forall|j: int| 0 <= j < after.payments.len() implies after.payment_fits(#[trigger] after.payments[j]) by {
        assert(m.payment_fits(m.payments[j]));
        assert(after.allowances[m.payments[j].allowance_id - 1] == m.allowances[m.payments[j].allowance_id - 1]);
    }
}

/// A payment by allowance `id` keeps the state well formed.
pub proof fn lemma_paid_wf(m: AllowancesModel, id: u64, now: u64, owner_balance: i128)
    requires
        m.well_formed(),
        m.contains_id(id),
        !distribution_overflows(m.get(id), now, owner_balance),
        spec_distribution(m.get(id), now, owner_balance) is Ok,
    ensures
        ({
            let (n, record) = spec_distribution(m.get(id), now, owner_balance)->Ok_0;
            m.paid(id, n, record).well_formed()
        }),
{
    let a = m.get(id);
    let (n, record) = spec_distribution(a, now, owner_balance)->Ok_0;
    let after = m.paid(id, n, record);
    let entry = PaymentEntry { allowance_id: id, record };
    let i: int = id - 1;
    assert(a.active && now >= a.next_distribution);
    if let Some(interval) = a.frequency.spec_interval() {
        lemma_next_due(a.next_distribution, interval, now);
    }
    assert(n.active ==> now < n.next_distribution);
    assert forall|k: int| 0 <= k < after.allowances.len() implies is_registered(
        after.recipient_log,
        (k + 1) as u64,
        #[trigger] after.allowances[k].recipient@,
    ) by {
        assert(is_registered(m.recipient_log, (k + 1) as u64, m.allowances[k].recipient@));
    }
    assert forall|k: int| 0 <= k < after.allowances.len() implies history_of(
        after.payments,
        (k + 1) as u64,
    ).len() == #[trigger] after.allowances[k].distribution_count by {
        lemma_history_push(m.payments, entry, (k + 1) as u64);
        assert(history_of(m.payments, (k + 1) as u64).len() == m.allowances[k].distribution_count);
        if k == i {
            assert(after.allowances[k].distribution_count == m.allowances[k].distribution_count + 1);
        } else {
            assert(after.allowances[k] == m.allowances[k]);
        }
    }
    assert forall|j: int| 0 <= j < after.payments.len() implies 1 <= #[trigger] after.payments[j].allowance_id
        <= after.allowances.len() by {
        if j < m.payments.len() {
            assert(after.payments[j] == m.payments[j]);
        }
    }
    assert forall|j: int| 0 <= j < after.payments.len() implies after.payment_fits(#[trigger] after.payments[j]) by {
        if j < m.payments.len() {
            assert(after.payments[j] == m.payments[j]);
            assert(m.payment_fits(m.payments[j]));
        }
    }
    assert forall|x: int, y: int|
        #![trigger after.payments[x], after.payments[y]]
        0 <= x < y < after.payments.len() && after.payments[x].allowance_id == after.payments[y].allowance_id
            implies after.payments[x].record.timestamp < after.payments[y].record.timestamp by {
        assert(after.payments[x] == m.payments[x]);
        assert(m.payment_fits(m.payments[x]));
        if y < m.payments.len() {
            assert(after.payments[y] == m.payments[y]);
        }
    }
}

/// The allowances contract.
pub struct AllowancesContract {
    allowances: Vec<Allowance>,
    recipient_log: Vec<RecipientEntry>,
    payments: Vec<PaymentEntry>,
}

impl View for AllowancesContract {
    type V = AllowancesModel;

    closed spec fn view(&self) -> AllowancesModel {
        AllowancesModel {
            allowances: self.allowances@,
            recipient_log: self.recipient_log@,
            payments: self.payments@,
        }
    }
}

impl AllowancesContract {
    /// The contract's invariant.
    pub open spec fn wf(&self) -> bool {
        self@.well_formed()
    }

    /// A contract with no allowances.
    pub fn new() -> (r: AllowancesContract)
        ensures
            r.wf(),
            r@ == AllowancesModel::empty(),
            r@.allowances.len() == 0,
            r@.recipient_log.len() == 0,
            r@.payments.len() == 0,
    {
        AllowancesContract { allowances: Vec::new(), recipient_log: Vec::new(), payments: Vec::new() }
    }

    /// Creates an allowance from `owner` to `recipient` of `amount` of
    /// `token` every `frequency`, first due at `start_time`. It receives the
    /// next id, one more than the number of allowances so far, and its
    /// payee is registered for it. A non-positive amount is refused.
    pub fn create_allowance(
        &mut self,
        owner: String,
        recipient: String,
        token: String,
        amount: i128,
        frequency: Frequency,
        start_time: u64,
    ) -> (r: Result<u64, AllowanceError>)
        requires
            old(self).wf(),
            old(self)@.allowances.len() < u64::MAX,
        ensures
            final(self).wf(),
            final(self)@ == old(self)@.apply(AllowanceOp::Create { owner, recipient, token, amount, frequency, start_time }),
            match spec_create(owner, recipient, token, amount, frequency, start_time) {
                Err(e) => r == Err::<u64, AllowanceError>(e) && final(self)@ == old(self)@,
                Ok(a) => r == Ok::<u64, AllowanceError>((old(self)@.allowances.len() + 1) as u64)
                    && final(self)@ == old(self)@.created(a),
            },
    {
        match Allowance::create(owner, recipient, token, amount, frequency, start_time) {
            Err(e) => Err(e),
            Ok(a) => {
                let ghost before = self@;
                let id = (self.allowances.len() as u64) + 1;
                let entry = RecipientEntry { recipient: a.recipient.clone(), allowance_id: id };
                self.allowances.push(a);
                self.recipient_log.push(entry);
                proof {
                    assert(self@ =~= before.created(a));
                    lemma_created_wf(before, a);
                }
                Ok(id)
            },
        }
    }

    /// Pays allowance `allowance_id` at time `now`, the owner holding
    /// `owner_balance` of its token. On success the payment is appended to
    /// the allowance's history and the allowance after the payment is
    /// returned: it names the token, payer, payee and amount to transfer.
    pub fn distribute(&mut self, allowance_id: u64, now: u64, owner_balance: i128) -> (r: Result<Allowance, AllowanceError>)
        requires
            old(self).wf(),
            old(self)@.lookup(allowance_id) matches Some(a) ==> !distribution_overflows(a, now, owner_balance),
        ensures
            final(self).wf(),
            final(self)@ == old(self)@.apply(AllowanceOp::Distribute { id: allowance_id, now, owner_balance }),
            match old(self)@.lookup(allowance_id) {
                None => r == Err::<Allowance, AllowanceError>(AllowanceError::NotFound) && final(self)@ == old(self)@,
                Some(a) => match spec_distribution(a, now, owner_balance) {
                    Err(e) => r == Err::<Allowance, AllowanceError>(e) && final(self)@ == old(self)@,
                    Ok((n, record)) => r == Ok::<Allowance, AllowanceError>(n)
                        && final(self)@ == old(self)@.paid(allowance_id, n, record),
                },
            },
    {
        let i = match self.slot(allowance_id) {
            None => return Err(AllowanceError::NotFound),
            Some(i) => i,
        };
        match self.allowances[i].plan_distribution(now, owner_balance) {
            Err(e) => Err(e),
            Ok((n, record)) => {
                let ghost before = self@;
                let result = n.clone();
                let entry = PaymentEntry { allowance_id, record };
                self.allowances.set(i, n);
                self.payments.push(entry);
                proof {
                    assert(self@ =~= before.paid(allowance_id, n, record));
                    lemma_paid_wf(before, allowance_id, now, owner_balance);
                }
                Ok(result)
            },
        }
    }

    /// Suspends payments of an active, unpaused allowance.
    pub fn pause_allowance(&mut self, allowance_id: u64) -> (r: Result<(), AllowanceError>)
        requires
            old(self).wf(),
        ensures
            final(self).wf(),
            final(self)@ == old(self)@.apply(AllowanceOp::Pause { id: allowance_id }),
            old(self)@.managed(final(self)@, allowance_id, r, |a: Allowance| spec_pause(a)),
    {
        let i = match self.slot(allowance_id) {
            None => return Err(AllowanceError::NotFound),
            Some(i) => i,
        };
        match self.allowances[i].try_pause() {
            Err(e) => Err(e),
            Ok(n) => {
                self.replace(i, n);
                Ok(())
            },
        }
    }

    /// Resumes payments of an active, paused allowance.
    pub fn resume_allowance(&mut self, allowance_id: u64) -> (r: Result<(), AllowanceError>)
        requires
            old(self).wf(),
        ensures
            final(self).wf(),
            final(self)@ == old(self)@.apply(AllowanceOp::Resume { id: allowance_id }),
            old(self)@.managed(final(self)@, allowance_id, r, |a: Allowance| spec_resume(a)),
    {
        let i = match self.slot(allowance_id) {
            None => return Err(AllowanceError::NotFound),
            Some(i) => i,
        };
        match self.allowances[i].try_resume() {
            Err(e) => Err(e),
            Ok(n) => {
                self.replace(i, n);
                Ok(())
            },
        }
    }

    /// Cancels an active allowance for good.
    pub fn cancel_allowance(&mut self, allowance_id: u64) -> (r: Result<(), AllowanceError>)
        requires
            old(self).wf(),
        ensures
            final(self).wf(),
            final(self)@ == old(self)@.apply(AllowanceOp::Cancel { id: allowance_id }),
            old(self)@.managed(final(self)@, allowance_id, r, |a: Allowance| spec_cancel(a)),
    {
        let i = match self.slot(allowance_id) {
            None => return Err(AllowanceError::NotFound),
            Some(i) => i,
        };
        match self.allowances[i].try_cancel() {
            Err(e) => Err(e),
            Ok(n) => {
                self.replace(i, n);
                Ok(())
            },
        }
    }

    /// Sets the cap on the cumulative amount an active allowance may pay;
    /// `0` lifts the cap, a negative cap is refused.
    pub fn set_spending_limit(&mut self, allowance_id: u64, limit: i128) -> (r: Result<(), AllowanceError>)
        requires
            old(self).wf(),
        ensures
            final(self).wf(),
            final(self)@ == old(self)@.apply(AllowanceOp::SetSpendingLimit { id: allowance_id, limit }),
            old(self)@.managed(final(self)@, allowance_id, r, |a: Allowance| spec_set_spending_limit(a, limit)),
    {
        let i = match self.slot(allowance_id) {
            None => return Err(AllowanceError::NotFound),
            Some(i) => i,
        };
        match self.allowances[i].try_set_spending_limit(limit) {
            Err(e) => Err(e),
            Ok(n) => {
                self.replace(i, n);
                Ok(())
            },
        }
    }

    /// Sets, at time `now`, the end date of an active allowance; `0` clears
    /// it, any other date must lie after `now`.
    pub fn set_expiration(&mut self, allowance_id: u64, end_date: u64, now: u64) -> (r: Result<(), AllowanceError>)
        requires
            old(self).wf(),
        ensures
            final(self).wf(),
            final(self)@ == old(self)@.apply(AllowanceOp::SetExpiration { id: allowance_id, end_date, now }),
            old(self)@.managed(final(self)@, allowance_id, r, |a: Allowance| spec_set_expiration(a, end_date, now)),
    {
        let i = match self.slot(allowance_id) {
            None => return Err(AllowanceError::NotFound),
            Some(i) => i,
        };
        match self.allowances[i].try_set_expiration(end_date, now) {
            Err(e) => Err(e),
            Ok(n) => {
                self.replace(i, n);
                Ok(())
            },
        }
    }

    /// Redirects future payments of an active allowance to `new_recipient`,
    /// who is registered as its payee; past payments keep their recipient.
    /// Returns the previous recipient.
    pub fn update_beneficiary(&mut self, allowance_id: u64, new_recipient: String) -> (r: Result<String, AllowanceError>)
        requires
            old(self).wf(),
        ensures
            final(self).wf(),
            final(self)@ == old(self)@.apply(AllowanceOp::UpdateBeneficiary { id: allowance_id, new_recipient }),
            match old(self)@.lookup(allowance_id) {
                None => r == Err::<String, AllowanceError>(AllowanceError::NotFound) && final(self)@ == old(self)@,
                Some(a) => match spec_update_beneficiary(a, new_recipient) {
                    Err(e) => r == Err::<String, AllowanceError>(e) && final(self)@ == old(self)@,
                    Ok(n) => r == Ok::<String, AllowanceError>(a.recipient)
                        && final(self)@ == old(self)@.redirected(allowance_id, n),
                },
            },
    {
        let i = match self.slot(allowance_id) {
            None => return Err(AllowanceError::NotFound),
            Some(i) => i,
        };
        match self.allowances[i].try_update_beneficiary(new_recipient) {
            Err(e) => Err(e),
            Ok(n) => {
                let ghost before = self@;
                let previous = self.allowances[i].recipient.clone();
                let entry = RecipientEntry { recipient: n.recipient.clone(), allowance_id };
                self.allowances.set(i, n);
                self.recipient_log.push(entry);
                proof {
                    assert(self@ =~= before.redirected(allowance_id, n));
                    lemma_redirected_wf(before, allowance_id, n);
                }
                Ok(previous)
            },
        }
    }

    /// Whether allowance `allowance_id` has reached its end date at `now`.
    pub fn is_expired(&self, allowance_id: u64, now: u64) -> (r: Result<bool, AllowanceError>)
        ensures
            match self@.lookup(allowance_id) {
                None => r == Err::<bool, AllowanceError>(AllowanceError::NotFound),
                Some(a) => r == Ok::<bool, AllowanceError>(spec_is_expired(a, now)),
            },
    {
        match self.slot(allowance_id) {
            None => Err(AllowanceError::NotFound),
            Some(i) => Ok(self.allowances[i].is_expired_at(now)),
        }
    }

    /// Allowance `allowance_id`.
    pub fn get_allowance(&self, allowance_id: u64) -> (r: Result<Allowance, AllowanceError>)
        ensures
            match self@.lookup(allowance_id) {
                None => r == Err::<Allowance, AllowanceError>(AllowanceError::NotFound),
                Some(a) => r == Ok::<Allowance, AllowanceError>(a),
            },
    {
        match self.slot(allowance_id) {
            None => Err(AllowanceError::NotFound),
            Some(i) => Ok(self.allowances[i].clone()),
        }
    }

    /// The ids, oldest first, of the allowances created by `owner`.
    pub fn get_owner_allowances(&self, owner: &String) -> (r: Vec<u64>)
        requires
            self.wf(),
        ensures
            r@ == owner_ids(self@.allowances, owner@),
    {
        let mut ids: Vec<u64> = Vec::new();
        let mut i: usize = 0;
        while i < self.allowances.len()
            invariant
                i <= self.allowances@.len(),
                self.allowances@.len() <= u64::MAX,
                ids@ == owner_ids(self.allowances@.take(i as int), owner@),
            decreases self.allowances@.len() - i,
        {
            proof {
                assert(self.allowances@.take(i + 1).drop_last() =~= self.allowances@.take(i as int));
            }
            if self.allowances[i].owner == *owner {
                ids.push((i + 1) as u64);
            }
            i = i + 1;
        }
        proof {
            assert(self.allowances@.take(i as int) =~= self.allowances@);
        }
        ids
    }

    /// The payments, oldest first, made by allowance `allowance_id`; empty
    /// when it has made none or does not exist.
    pub fn get_allowance_history(&self, allowance_id: u64) -> (r: Vec<PaymentRecord>)
        ensures
            r@ == history_of(self@.payments, allowance_id),
    {
        let mut records: Vec<PaymentRecord> = Vec::new();
        let mut i: usize = 0;
        while i < self.payments.len()
            invariant
                i <= self.payments@.len(),
                records@ == history_of(self.payments@.take(i as int), allowance_id),
            decreases self.payments@.len() - i,
        {
            proof {
                assert(self.payments@.take(i + 1).drop_last() =~= self.payments@.take(i as int));
            }
            if self.payments[i].allowance_id == allowance_id {
                records.push(self.payments[i].record.clone());
            }
            i = i + 1;
        }
        proof {
            assert(self.payments@.take(i as int) =~= self.payments@);
        }
        records
    }

    /// The ids for which `recipient` has been registered as payee, in order
    /// of registration: at creation, and at each redirection to it.
    pub fn get_recipient_allowances(&self, recipient: &String) -> (r: Vec<u64>)
        ensures
            r@ == recipient_ids(self@.recipient_log, recipient@),
    {
        let mut ids: Vec<u64> = Vec::new();
        let mut i: usize = 0;
        while i < self.recipient_log.len()
            invariant
                i <= self.recipient_log@.len(),
                ids@ == recipient_ids(self.recipient_log@.take(i as int), recipient@),
            decreases self.recipient_log@.len() - i,
        {
            proof {
                assert(self.recipient_log@.take(i + 1).drop_last() =~= self.recipient_log@.take(i as int));
            }
            if self.recipient_log[i].recipient == *recipient {
                ids.push(self.recipient_log[i].allowance_id);
            }
            i = i + 1;
        }
        proof {
            assert(self.recipient_log@.take(i as int) =~= self.recipient_log@);
        }
        ids
    }

    /// The number of allowances created, which is also the latest id.
    pub fn allowance_count(&self) -> (r: u64)
        requires
            self.wf(),
        ensures
            r == self@.allowances.len(),
    {
        self.allowances.len() as u64
    }

    /// Replaces the allowance in slot `i` by one with the same payee and
    /// payment count.
    fn replace(&mut self, i: usize, a: Allowance)
        requires
            old(self).wf(),
            i < old(self)@.allowances.len(),
            a.recipient == old(self)@.allowances[i as int].recipient,
            a.distribution_count == old(self)@.allowances[i as int].distribution_count,
            a.amount == old(self)@.allowances[i as int].amount,
            a.next_distribution == old(self)@.allowances[i as int].next_distribution,
            a.active ==> old(self)@.allowances[i as int].active,
        ensures
            final(self).wf(),
            final(self)@ == old(self)@.with_allowance((i + 1) as u64, a),
    {
        proof {
            lemma_replace_keeps_wf(self@, (i + 1) as u64, a);
        }
        let ghost before = self@;
        self.allowances.set(i, a);
        proof {
            assert(self@ =~= before.with_allowance((i + 1) as u64, a));
        }
    }

    /// The storage slot of allowance `id`.
    fn slot(&self, id: u64) -> (r: Option<usize>)
        ensures
            r matches Some(i) ==> self@.contains_id(id) && i == id - 1,
            r is None ==> !self@.contains_id(id),
    {
        if id >= 1 && id <= self.allowances.len() as u64 {
            Some((id - 1) as usize)
        } else {
            None
        }
    }
}

} // verus!
