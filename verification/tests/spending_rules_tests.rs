use stellarspend::spending_rules::{RuleAction, SpendingRule, SpendingRuleProcessor};

fn rule(id: &str, name: &str, action: RuleAction, priority: u32, max_amount: i128) -> SpendingRule {
    SpendingRule { id: id.as_bytes().to_vec(), name: name.as_bytes().to_vec(), action, priority, max_amount }
}

#[test]
fn test_evaluate_highest_priority_first() {
    let rule_low = rule("rule-low", "Low Priority Deny", RuleAction::Deny, 10, 100);
    let rule_high = rule("rule-high", "High Priority Approval", RuleAction::RequireApproval, 90, 100);

    let rules = vec![rule_low, rule_high];

    let result = SpendingRuleProcessor::evaluate_rules(rules, 150).unwrap();
    assert_eq!(result.id, b"rule-high".to_vec());
    assert_eq!(result.action, RuleAction::RequireApproval);
}

#[test]
fn test_deterministic_tie_breaker_resolution() {
    // Both rules share priority 50. The id decides, in byte order.
    let rule_bravo = rule("rule-bravo", "Bravo Rule", RuleAction::Deny, 50, 200);
    let rule_alpha = rule("rule-alpha", "Alpha Rule", RuleAction::Allow, 50, 200);

    let rules = vec![rule_bravo, rule_alpha];

    let result = SpendingRuleProcessor::evaluate_rules(rules, 300).unwrap();
    // "rule-alpha" comes before "rule-bravo" lexicographically
    assert_eq!(result.id, b"rule-alpha".to_vec());
    assert_eq!(result.action, RuleAction::Allow);
}

#[test]
fn empty_rule_list_selects_nothing() {
    assert_eq!(SpendingRuleProcessor::evaluate_rules(Vec::new(), 1_000), None);
}

#[test]
fn untriggered_rules_are_ignored() {
    let strict = rule("a", "Strict", RuleAction::Deny, 99, 1_000);
    let loose = rule("b", "Loose", RuleAction::Allow, 1, 10);
    let result = SpendingRuleProcessor::evaluate_rules(vec![strict.clone(), loose.clone()], 500).unwrap();
    assert_eq!(result, loose);
    // An amount equal to the threshold does not trigger the rule.
    assert_eq!(SpendingRuleProcessor::evaluate_rules(vec![strict, loose], 10), None);
}

#[test]
fn shorter_id_that_is_a_prefix_comes_first() {
    let long = rule("rule-1", "Long", RuleAction::Deny, 5, 0);
    let short = rule("rule", "Short", RuleAction::Allow, 5, 0);
    let result = SpendingRuleProcessor::evaluate_rules(vec![long, short], 1).unwrap();
    assert_eq!(result.id, b"rule".to_vec());
}

#[test]
fn fully_tied_rules_keep_the_first_given() {
    let first = rule("same", "First", RuleAction::Deny, 7, 0);
    let second = rule("same", "Second", RuleAction::Allow, 7, 0);
    let result = SpendingRuleProcessor::evaluate_rules(vec![first, second], 1).unwrap();
    assert_eq!(result.name, b"First".to_vec());
}

#[test]
fn order_of_input_does_not_matter() {
    let a = rule("x", "A", RuleAction::Allow, 3, 0);
    let b = rule("y", "B", RuleAction::Deny, 3, 0);
    let c = rule("w", "C", RuleAction::RequireApproval, 2, 0);
    let r1 = SpendingRuleProcessor::evaluate_rules(vec![a.clone(), b.clone(), c.clone()], 5);
    let r2 = SpendingRuleProcessor::evaluate_rules(vec![c, b, a.clone()], 5);
    assert_eq!(r1, Some(a.clone()));
    assert_eq!(r2, Some(a));
}

#[test]
fn appending_an_untriggered_rule_keeps_the_winner() {
    let a = rule("m", "A", RuleAction::Deny, 4, 0);
    let quiet = rule("a", "Quiet", RuleAction::Allow, 99, 1_000);
    let before = SpendingRuleProcessor::evaluate_rules(vec![a.clone()], 5);
    let after = SpendingRuleProcessor::evaluate_rules(vec![a, quiet], 5);
    assert_eq!(before, after);
}
