//! Resolution of conflicting spending rules: of the rules that a
//! transaction amount triggers, the one of highest priority wins, ties
//! going to the rule whose id comes first in byte order.

use vstd::prelude::*;

verus! {

/// What a rule asks to happen to a transaction it triggers.
#[derive(Clone, Copy, Debug, PartialEq, Eq, Structural)]
pub enum RuleAction {
    Allow,
    Deny,
    RequireApproval,
}

/// A spending rule, triggered by amounts above `max_amount`. The id and
/// the name are byte strings.
#[derive(Clone, Debug, PartialEq, Eq)]
pub struct SpendingRule {
    pub id: Vec<u8>,
    pub name: Vec<u8>,
    pub action: RuleAction,
    /// Higher values take precedence (priority 100 overrides priority 1).
    pub priority: u32,
    pub max_amount: i128,
}

/// Strict lexicographic order on byte strings (a proper prefix comes first).
pub open spec fn bytes_before(a: Seq<u8>, b: Seq<u8>) -> bool
    decreases a.len(),
{
    if a.len() == 0 {
        b.len() > 0
    } else if b.len() == 0 {
        false
    } else if a[0] != b[0] {
        a[0] < b[0]
    } else {
        bytes_before(a.drop_first(), b.drop_first())
    }
}

/// The rule is triggered by a transaction of `amount`.
pub open spec fn applies(rule: SpendingRule, amount: i128) -> bool {
    amount > rule.max_amount
}

/// Rule `a` takes precedence over rule `b`: a higher priority, or the same
/// priority and an id that comes first.
pub open spec fn outranks(a: SpendingRule, b: SpendingRule) -> bool {
    a.priority > b.priority || (a.priority == b.priority && bytes_before(a.id@, b.id@))
}

/// Index `c` holds the winning rule for `amount`: it applies, no rule that
/// applies outranks it, and it outranks every applying rule before it
/// (among rules of equal rank the first one wins).
pub open spec fn is_winner(rules: Seq<SpendingRule>, amount: i128, c: int) -> bool {
    &&& 0 <= c < rules.len()
    &&& applies(rules[c], amount)
    &&& forall|j: int| 0 <= j < rules.len() && applies(#[trigger] rules[j], amount) ==> !outranks(rules[j], rules[c])
    &&& forall|j: int| 0 <= j < c && applies(#[trigger] rules[j], amount) ==> outranks(rules[c], rules[j])
}

/// The rule that wins for `amount`, `None` when no rule applies.
pub open spec fn winning_rule(rules: Seq<SpendingRule>, amount: i128) -> Option<SpendingRule> {
    if exists|c: int| is_winner(rules, amount, c) {
        Some(rules[choose|c: int| is_winner(rules, amount, c)])
    } else {
        None
    }
}

proof fn lemma_bytes_before_irreflexive(a: Seq<u8>)
    ensures
        !bytes_before(a, a),
    decreases a.len(),
{
    if a.len() > 0 {
        lemma_bytes_before_irreflexive(a.drop_first());
    }
}

proof fn lemma_bytes_before_asymmetric(a: Seq<u8>, b: Seq<u8>)
    ensures
        !(bytes_before(a, b) && bytes_before(b, a)),
    decreases a.len(),
{
    if a.len() > 0 && b.len() > 0 && a[0] == b[0] {
        lemma_bytes_before_asymmetric(a.drop_first(), b.drop_first());
    }
}

proof fn lemma_bytes_before_transitive(a: Seq<u8>, b: Seq<u8>, c: Seq<u8>)
    requires
        bytes_before(a, b),
        bytes_before(b, c),
    ensures
        bytes_before(a, c),
    decreases a.len(),
{
    if a.len() > 0 && b.len() > 0 && c.len() > 0 && a[0] == b[0] && b[0] == c[0] {
        lemma_bytes_before_transitive(a.drop_first(), b.drop_first(), c.drop_first());
    }
}

proof fn lemma_bytes_before_total(a: Seq<u8>, b: Seq<u8>)
    ensures
        a =~= b || bytes_before(a, b) || bytes_before(b, a),
    decreases a.len(),
{
    if a.len() > 0 && b.len() > 0 && a[0] == b[0] {
        lemma_bytes_before_total(a.drop_first(), b.drop_first());
        if a.drop_first() =~= b.drop_first() {
            assert forall|i: int| 0 <= i < a.len() implies a[i] == b[i] by {
                if i > 0 {
                    assert(a[i] == a.drop_first()[i - 1]);
                    assert(b[i] == b.drop_first()[i - 1]);
                }
            }
        }
    }
}

/// Precedence is a strict order whose incomparable rules share priority and id.
proof fn lemma_outranks_order(a: SpendingRule, b: SpendingRule, c: SpendingRule)
    ensures
        !outranks(a, a),
        !(outranks(a, b) && outranks(b, a)),
        outranks(a, b) && outranks(b, c) ==> outranks(a, c),
        !outranks(a, b) && !outranks(b, a) ==> a.priority == b.priority && a.id@ == b.id@,
{
    lemma_bytes_before_irreflexive(a.id@);
    lemma_bytes_before_asymmetric(a.id@, b.id@);
    if outranks(a, b) && outranks(b, c) && a.priority == c.priority {
        lemma_bytes_before_transitive(a.id@, b.id@, c.id@);
    }
    lemma_bytes_before_total(a.id@, b.id@);
}

/// At most one index wins.
proof fn lemma_winner_unique(rules: Seq<SpendingRule>, amount: i128, c1: int, c2: int)
    requires
        is_winner(rules, amount, c1),
        is_winner(rules, amount, c2),
    ensures
        c1 == c2,
{
    lemma_outranks_order(rules[c1], rules[c2], rules[c1]);
    if c1 < c2 {
        assert(applies(rules[c1], amount));
    } else if c2 < c1 {
        assert(applies(rules[c2], amount));
    }
}

/// Whether id `a` comes strictly before id `b` in byte order.
fn id_before(a: &Vec<u8>, b: &Vec<u8>) -> (r: bool)
    ensures
        r == bytes_before(a@, b@),
{
    let mut i: usize = 0;
    proof {
        assert(a@.skip(0) =~= a@);
        assert(b@.skip(0) =~= b@);
    }
    while i < a.len() && i < b.len() && a[i] == b[i]
        invariant
            i <= a@.len(),
            i <= b@.len(),
            bytes_before(a@, b@) == bytes_before(a@.skip(i as int), b@.skip(i as int)),
        decreases a@.len() - i,
    {
        proof {
            assert(a@.skip(i as int).drop_first() =~= a@.skip(i + 1));
            assert(b@.skip(i as int).drop_first() =~= b@.skip(i + 1));
        }
        i = i + 1;
    }
    proof {
        if i < a@.len() && i < b@.len() {
            assert(a@.skip(i as int)[0] == a@[i as int]);
            assert(b@.skip(i as int)[0] == b@[i as int]);
        }
    }
    if i < a.len() && i < b.len() {
        a[i] < b[i]
    } else {
        i == a.len() && i < b.len()
    }
}

/// Evaluates spending rules.
pub struct SpendingRuleProcessor;

impl SpendingRuleProcessor {
    /// The rule that decides a transaction of `amount`: among the rules it
    /// triggers (`amount > max_amount`), the one of highest priority; among
    /// those, the one whose id comes first in byte order; among those, the
    /// first given. `None` when no rule is triggered.
    pub fn evaluate_rules(rules: Vec<SpendingRule>, amount: i128) -> (r: Option<SpendingRule>)
        ensures
            r == winning_rule(rules@, amount),
            r is None <==> forall|j: int| 0 <= j < rules@.len() ==> !applies(#[trigger] rules@[j], amount),
    {
        let mut rules = rules;
        let ghost input = rules@;
        let mut best: Option<usize> = None;
        let mut i: usize = 0;
        while i < rules.len()
            invariant
                rules@ == input,
                i <= input.len(),
                best is None ==> forall|j: int| 0 <= j < i ==> !applies(#[trigger] input[j], amount),
                best matches Some(b) ==> {
                    &&& b < i
                    &&& applies(input[b as int], amount)
                    &&& forall|j: int| 0 <= j < i && applies(#[trigger] input[j], amount) ==> !outranks(input[j], input[b as int])
                    &&& forall|j: int| 0 <= j < b && applies(#[trigger] input[j], amount) ==> outranks(input[b as int], input[j])
                },
            decreases input.len() - i,
        {
            if amount > rules[i].max_amount {
                match best {
                    None => {
                        best = Some(i);
                        proof {
                            lemma_outranks_order(input[i as int], input[i as int], input[i as int]);
                        }
                    },
                    Some(b) => {
                        let wins = rules[i].priority > rules[b].priority
                            || (rules[i].priority == rules[b].priority && id_before(&rules[i].id, &rules[b].id));
                        if wins {
                            proof {
                                let ri = input[i as int];
                                let rb = input[b as int];
                                lemma_outranks_order(ri, ri, ri);
                                assert forall|j: int| 0 <= j < i && applies(#[trigger] input[j], amount) implies outranks(ri, input[j]) by {
                                    let rj = input[j];
                                    lemma_outranks_order(rb, rj, rb);
                                    lemma_outranks_order(ri, rb, rj);
                                    if j != b as int && !outranks(rb, rj) {
                                        assert(!outranks(rj, rb));
                                        assert(rb.priority == rj.priority && rb.id@ == rj.id@);
                                    }
                                }
                                assert forall|j: int| 0 <= j < i + 1 && applies(#[trigger] input[j], amount) implies !outranks(input[j], ri) by {
                                    lemma_outranks_order(ri, input[j], ri);
                                }
                            }
                            best = Some(i);
                        }
                    },
                }
            }
            i = i + 1;
        }
        match best {
            None => {
                proof {
                    if exists|c: int| is_winner(input, amount, c) {
                        let c = choose|c: int| is_winner(input, amount, c);
                        assert(applies(input[c], amount));
                    }
                }
                None
            },
            Some(b) => {
                proof {
                    assert(is_winner(input, amount, b as int));
                    let c = choose|c: int| is_winner(input, amount, c);
                    lemma_winner_unique(input, amount, c, b as int);
                }
                Some(rules.remove(b))
            },
        }
    }
}

/// When no two triggered rules share both priority and id, the winner does
/// not depend on the order in which the rules are given: any two lists
/// holding the same rules select the same one.
pub proof fn law_winner_independent_of_order(rules1: Seq<SpendingRule>, rules2: Seq<SpendingRule>, amount: i128)
    requires
        forall|r: SpendingRule| rules1.contains(r) <==> rules2.contains(r),
        forall|i: int, j: int|
            0 <= i < rules1.len() && 0 <= j < rules1.len() && i != j && applies(rules1[i], amount)
                && applies(rules1[j], amount) ==> !(#[trigger] rules1[i].priority == #[trigger] rules1[j].priority
                && rules1[i].id@ == rules1[j].id@),
    ensures
        winning_rule(rules1, amount) == winning_rule(rules2, amount),
{
    if exists|c: int| is_winner(rules1, amount, c) {
        let c1 = choose|c: int| is_winner(rules1, amount, c);
        let x1 = rules1[c1];
        assert(rules1.contains(x1));
        let k = choose|k: int| 0 <= k < rules2.len() && rules2[k] == x1;
        assert(applies(rules1[c1], amount));
        lemma_winner_exists(rules2, amount, k);
        let c2 = choose|c: int| is_winner(rules2, amount, c);
        let x2 = rules2[c2];
        assert(rules2.contains(x2));
        let i2 = choose|i: int| 0 <= i < rules1.len() && rules1[i] == x2;
        let i1 = choose|i: int| 0 <= i < rules2.len() && rules2[i] == x1;
        assert(applies(rules1[i2], amount));
        assert(!outranks(x2, x1));
        assert(applies(rules2[i1], amount));
        assert(!outranks(x1, x2));
        lemma_outranks_order(x1, x2, x1);
        if i2 != c1 {
            assert(!(rules1[c1].priority == rules1[i2].priority && rules1[c1].id@ == rules1[i2].id@));
        }
    } else {
        if exists|c: int| is_winner(rules2, amount, c) {
            let c2 = choose|c: int| is_winner(rules2, amount, c);
            assert(rules2.contains(rules2[c2]));
            let k = choose|k: int| 0 <= k < rules1.len() && rules1[k] == rules2[c2];
            assert(applies(rules2[c2], amount));
            lemma_winner_exists(rules1, amount, k);
        }
    }
}

/// When some rule applies, some index wins.
proof fn lemma_winner_exists(rules: Seq<SpendingRule>, amount: i128, k: int)
    requires
        0 <= k < rules.len(),
        applies(rules[k], amount),
    ensures
        exists|c: int| is_winner(rules, amount, c),
    decreases rules.len(),
{
    let n = rules.len() - 1;
    let p = rules.drop_last();
    let last = rules[n];
    if exists|j: int| 0 <= j < p.len() && applies(#[trigger] p[j], amount) {
        let j = choose|j: int| 0 <= j < p.len() && applies(#[trigger] p[j], amount);
        lemma_winner_exists(p, amount, j);
        let c = choose|c: int| is_winner(p, amount, c);
        let rc = rules[c];
        assert(p[c] == rc);
        if applies(last, amount) && outranks(last, rc) {
            lemma_outranks_order(last, last, last);
            assert forall|j: int| 0 <= j < n && applies(#[trigger] rules[j], amount) implies outranks(last, rules[j]) by {
                let rj = rules[j];
                assert(p[j] == rj);
                lemma_outranks_order(rc, rj, rc);
                lemma_outranks_order(last, rc, rj);
            }
            assert forall|j: int| 0 <= j < rules.len() && applies(#[trigger] rules[j], amount) implies !outranks(rules[j], last) by {
                lemma_outranks_order(last, rules[j], last);
            }
            assert(is_winner(rules, amount, n));
        } else {
            assert forall|j: int| 0 <= j < rules.len() && applies(#[trigger] rules[j], amount) implies !outranks(rules[j], rc) by {
                if j < n {
                    assert(p[j] == rules[j]);
                }
            }
            assert forall|j: int| 0 <= j < c && applies(#[trigger] rules[j], amount) implies outranks(rc, rules[j]) by {
                assert(p[j] == rules[j]);
            }
            assert(is_winner(rules, amount, c));
        }
    } else {
        assert(k == n) by {
            if k < n {
                assert(p[k] == rules[k]);
            }
        }
        lemma_outranks_order(last, last, last);
        assert forall|j: int| 0 <= j < rules.len() && applies(#[trigger] rules[j], amount) implies j == n by {
            if j < n {
                assert(p[j] == rules[j]);
            }
        }
        assert(is_winner(rules, amount, n));
    }
}

/// Adding a rule that the amount does not trigger leaves the winner
/// unchanged.
pub proof fn law_untriggered_rule_irrelevant(rules: Seq<SpendingRule>, extra: SpendingRule, amount: i128)
    requires
        !applies(extra, amount),
    ensures
        winning_rule(rules.push(extra), amount) == winning_rule(rules, amount),
{
    let more = rules.push(extra);
    assert forall|c: int| is_winner(more, amount, c) <==> is_winner(rules, amount, c) by {
        if is_winner(more, amount, c) {
            assert(c < rules.len());
            assert(more[c] == rules[c]);
            assert forall|j: int| 0 <= j < rules.len() && applies(#[trigger] rules[j], amount) implies !outranks(rules[j], rules[c]) by {
                assert(more[j] == rules[j]);
            }
            assert forall|j: int| 0 <= j < c && applies(#[trigger] rules[j], amount) implies outranks(rules[c], rules[j]) by {
                assert(more[j] == rules[j]);
            }
        }
        if is_winner(rules, amount, c) {
            assert(more[c] == rules[c]);
            assert forall|j: int| 0 <= j < more.len() && applies(#[trigger] more[j], amount) implies !outranks(more[j], more[c]) by {
                if j < rules.len() {
                    assert(more[j] == rules[j]);
                }
            }
            assert forall|j: int| 0 <= j < c && applies(#[trigger] more[j], amount) implies outranks(more[c], more[j]) by {
                assert(more[j] == rules[j]);
            }
        }
    }
    if exists|c: int| is_winner(rules, amount, c) {
        let c1 = choose|c: int| is_winner(rules, amount, c);
        let c2 = choose|c: int| is_winner(more, amount, c);
        lemma_winner_unique(rules, amount, c1, c2);
        assert(more[c2] == rules[c2]);
    }
}

/// Ids are ordered lexicographically by bytes: where two ids first differ,
/// at an index inside both, the one with the smaller byte there comes
/// first, whatever their lengths.
pub proof fn law_id_order_first_difference(a: Seq<u8>, b: Seq<u8>, k: int)
    requires
        0 <= k < a.len(),
        k < b.len(),
        forall|i: int| 0 <= i < k ==> a[i] == b[i],
        a[k] != b[k],
    ensures
        bytes_before(a, b) <==> a[k] < b[k],
        bytes_before(b, a) <==> b[k] < a[k],
    decreases k,
{
    if k > 0 {
        assert forall|i: int| 0 <= i < k - 1 implies a.drop_first()[i] == b.drop_first()[i] by {
            assert(a[i + 1] == b[i + 1]);
        }
        assert(a[0] == b[0]);
        law_id_order_first_difference(a.drop_first(), b.drop_first(), k - 1);
    }
}

/// Only between an id and a proper extension of it does length decide: the
/// shorter id comes first.
pub proof fn law_id_order_prefix(a: Seq<u8>, b: Seq<u8>)
    requires
        a.len() < b.len(),
        forall|i: int| 0 <= i < a.len() ==> a[i] == b[i],
    ensures
        bytes_before(a, b),
        !bytes_before(b, a),
    decreases a.len(),
{
    if a.len() > 0 {
        assert forall|i: int| 0 <= i < a.len() - 1 implies a.drop_first()[i] == b.drop_first()[i] by {
            assert(a[i + 1] == b[i + 1]);
        }
        assert(a[0] == b[0]);
        law_id_order_prefix(a.drop_first(), b.drop_first());
    }
}

/// The winning rule has the highest priority among the triggered rules,
/// and against a triggered rule of the same priority its id has the
/// smaller byte where the two ids first differ (so "alpha" beats "beta"),
/// and a rule whose id is a proper prefix of the winner's never ties with it.
pub proof fn law_winner_tie_break(rules: Seq<SpendingRule>, amount: i128, j: int, k: int)
    requires
        winning_rule(rules, amount) is Some,
        0 <= j < rules.len(),
        applies(rules[j], amount),
    ensures
        ({
            let w = winning_rule(rules, amount)->Some_0;
            &&& applies(w, amount)
            &&& w.priority >= rules[j].priority
            &&& (w.priority == rules[j].priority && 0 <= k < w.id@.len() && k < rules[j].id@.len()
                && (forall|i: int| 0 <= i < k ==> w.id@[i] == rules[j].id@[i]) && w.id@[k] != rules[j].id@[k])
                ==> w.id@[k] < rules[j].id@[k]
            &&& !(w.priority == rules[j].priority && rules[j].id@.len() < w.id@.len()
                && (forall|i: int| 0 <= i < rules[j].id@.len() ==> w.id@[i] == rules[j].id@[i]))
        }),
{
    let c = choose|c: int| is_winner(rules, amount, c);
    let w = rules[c];
    assert(!outranks(rules[j], w));
    let x = rules[j];
    if w.priority == x.priority && 0 <= k < w.id@.len() && k < x.id@.len()
        && (forall|i: int| 0 <= i < k ==> w.id@[i] == x.id@[i]) && w.id@[k] != x.id@[k] {
        law_id_order_first_difference(w.id@, x.id@, k);
    }
    if w.priority == x.priority && x.id@.len() < w.id@.len()
        && (forall|i: int| 0 <= i < x.id@.len() ==> w.id@[i] == x.id@[i]) {
        assert forall|i: int| 0 <= i < x.id@.len() implies x.id@[i] == w.id@[i] by {}
        law_id_order_prefix(x.id@, w.id@);
    }
}

/// A rule wins only if the amount is above its threshold and it is one of
/// the given rules; no rule wins exactly when the amount is at or below
/// every threshold; the winner's priority is the highest among the rules
/// whose threshold the amount exceeds.
pub proof fn law_winner_threshold(rules: Seq<SpendingRule>, amount: i128)
    ensures
        winning_rule(rules, amount) matches Some(w) ==> amount > w.max_amount && rules.contains(w)
            && forall|j: int| 0 <= j < rules.len() && amount > #[trigger] rules[j].max_amount ==> rules[j].priority <= w.priority,
        winning_rule(rules, amount) is None <==> forall|j: int| 0 <= j < rules.len() ==> amount <= #[trigger] rules[j].max_amount,
{
    if exists|j: int| 0 <= j < rules.len() && amount > #[trigger] rules[j].max_amount {
        let j = choose|j: int| 0 <= j < rules.len() && amount > #[trigger] rules[j].max_amount;
        lemma_winner_exists(rules, amount, j);
    }
    if winning_rule(rules, amount) is Some {
        let c = choose|c: int| is_winner(rules, amount, c);
        assert(rules.contains(rules[c]));
        assert forall|j: int| 0 <= j < rules.len() && amount > #[trigger] rules[j].max_amount implies rules[j].priority
            <= rules[c].priority by {
            assert(applies(rules[j], amount));
        }
    }
}

} // verus!
