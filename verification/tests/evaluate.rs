use studio_core::evaluate::{check, CondCheck, CondOutcome, DefaultEvaluator, Op, RuleOutcome};

fn holds(field: &str) -> CondCheck {
    CondCheck { field: field.to_string(), op: Op::Le, outcome: CondOutcome::Holds }
}

fn fails(field: &str, op: Op, lhs: &str, value: &str) -> CondCheck {
    CondCheck { field: field.to_string(), op, outcome: CondOutcome::Fails { lhs: lhs.to_string(), value: value.to_string() } }
}

fn rule(id: &str, decision: &str, conds: Vec<CondCheck>) -> RuleOutcome {
    RuleOutcome { id: id.to_string(), decision: decision.to_string(), conds }
}

#[test]
fn first_matching_rule_decides_and_trace_stops_there() {
    let rules = vec![
        rule("small", "allow", vec![fails("amount", Op::Le, "75", "50")]),
        rule("medium", "allow_with_approval", vec![holds("amount")]),
        rule("large", "deny", vec![holds("amount")]),
    ];
    let d = DefaultEvaluator.decide(&rules);
    assert_eq!(d.decision, "allow_with_approval");
    assert_eq!(d.matched_rule.as_deref(), Some("medium"));
    assert_eq!(d.trace.len(), 2);
    assert!(!d.trace[0].matched && d.trace[0].rule_id == "small");
    assert_eq!(d.trace[0].note, "amount=75 <= 50 is false");
    assert!(d.trace[1].matched && d.trace[1].note == "all conditions hold");
}

#[test]
fn no_match_is_reported_with_a_full_trace() {
    let rules = vec![
        rule("a", "allow", vec![CondCheck { field: "amount".to_string(), op: Op::Gt, outcome: CondOutcome::Absent }]),
        rule("b", "deny", vec![holds("x"), fails("y", Op::Ne, "1", "1")]),
    ];
    let d = DefaultEvaluator.decide(&rules);
    assert_eq!(d.decision, "no_match");
    assert!(d.matched_rule.is_none());
    assert_eq!(d.trace.len(), 2);
    assert_eq!(d.trace[0].note, "amount is absent");
    assert_eq!(d.trace[1].note, "y=1 != 1 is false");
    assert!(DefaultEvaluator.decide(&Vec::new()).trace.is_empty());
}

#[test]
fn operator_symbols() {
    let syms: Vec<&str> = [Op::Eq, Op::Ne, Op::Lt, Op::Le, Op::Gt, Op::Ge].iter().map(|o| o.symbol()).collect();
    assert_eq!(syms, ["==", "!=", "<", "<=", ">", ">="]);
    assert_eq!(check(&vec![]), (true, "all conditions hold".to_string()));
    assert_eq!(check(&vec![fails("x", Op::Ge, "9.999", "10")]).1, "x=9.999 >= 10 is false");
}
