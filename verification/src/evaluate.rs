//! Policy evaluation — the "check before it acts" loop. An action is checked against the
//! policy's current rules, first match wins, and a per-rule trace records why each rule did or
//! did not match.
//!
//! The default rule format is JSON, `{ "rules": [ { "id", "when": { field: { "op", "value" } },
//! "decision" } ] }`, over a numeric input map. Numbers are floating point, so the application
//! parses the rules and compares each condition's numbers; this module takes those per-condition
//! outcomes and decides: the note for each rule, the trace, and the decision.

use vstd::prelude::*;

verus! {

/// A numeric comparison operator.
#[derive(Debug, Clone, Copy, PartialEq, Eq, Structural)]
pub enum Op {
    Eq,
    Ne,
    Lt,
    Le,
    Gt,
    Ge,
}

/// The symbol of an operator, as written in trace notes.
pub open spec fn op_symbol(op: Op) -> Seq<char> {
    match op {
        Op::Eq => "=="@,
        Op::Ne => "!="@,
        Op::Lt => "<"@,
        Op::Le => "<="@,
        Op::Gt => ">"@,
        Op::Ge => ">="@,
    }
}

impl Op {
    /// The operator's symbol.
    pub fn symbol(self) -> (s: &'static str)
        ensures
            s@ == op_symbol(self),
    {
        match self {
            Op::Eq => "==",
            Op::Ne => "!=",
            Op::Lt => "<",
            Op::Le => "<=",
            Op::Gt => ">",
            Op::Ge => ">=",
        }
    }
}

/// How one condition of a rule fared against the input.
#[derive(Debug, Clone)]
pub enum CondOutcome {
    /// The input has the field and the comparison holds.
    Holds,
    /// The input lacks the field.
    Absent,
    /// The comparison is false; the input's number and the rule's number, as rendered.
    Fails { lhs: String, value: String },
}

/// One condition of a rule: the field it reads, its operator, and its outcome.
#[derive(Debug, Clone)]
pub struct CondCheck {
    pub field: String,
    pub op: Op,
    pub outcome: CondOutcome,
}

/// One rule with the outcomes of its conditions, in field order.
#[derive(Debug, Clone)]
pub struct RuleOutcome {
    pub id: String,
    pub decision: String,
    pub conds: Vec<CondCheck>,
}

/// One step of the evaluation trace.
#[derive(Debug, Clone)]
pub struct TraceStep {
    pub rule_id: String,
    pub matched: bool,
    pub note: String,
}

/// The outcome of evaluating an action against a policy.
#[derive(Debug, Clone)]
pub struct Decision {
    /// The matched rule's decision, or `"no_match"` if none matched.
    pub decision: String,
    pub matched_rule: Option<String>,
    pub trace: Vec<TraceStep>,
}

/// The built-in JSON first-match-wins evaluator.
pub struct DefaultEvaluator;

/// Whether a rule matches, and the note that says why: the first condition that does not hold
/// decides; a rule whose conditions all hold matches.
pub open spec fn rule_check(conds: Seq<CondCheck>) -> (bool, Seq<char>)
    decreases conds.len(),
{
    if conds.len() == 0 {
        (true, "all conditions hold"@)
    } else {
        match conds[0].outcome {
            CondOutcome::Holds => rule_check(conds.drop_first()),
            CondOutcome::Absent => (false, conds[0].field@ + " is absent"@),
            CondOutcome::Fails { lhs, value } => (
                false,
                conds[0].field@ + "="@ + lhs@ + " "@ + op_symbol(conds[0].op) + " "@ + value@
                    + " is false"@,
            ),
        }
    }
}

/// A rule matches exactly when every one of its conditions holds: one absent field or one false
/// comparison, wherever it stands among the conditions, makes the rule not match. A rule that
/// does not match is explained by its first condition that does not hold: an absent field is
/// noted as `<field> is absent`.
pub proof fn lemma_rule_matches_iff_all_hold(conds: Seq<CondCheck>)
    ensures
        rule_check(conds).0 <==> forall|k: int| 0 <= k < conds.len() ==> (#[trigger] conds[k]).outcome is Holds,
        rule_check(conds).0 ==> rule_check(conds).1 == "all conditions hold"@,
        forall|k: int|
            0 <= k < conds.len() && (#[trigger] conds[k]).outcome is Absent && (forall|j: int|
                0 <= j < k ==> conds[j].outcome is Holds) ==> !rule_check(conds).0 && rule_check(
                conds,
            ).1 == conds[k].field@ + " is absent"@,
    decreases conds.len(),
{
    if conds.len() > 0 {
        lemma_rule_matches_iff_all_hold(conds.drop_first());
        if conds[0].outcome is Holds {
            assert forall|k: int| 0 < k < conds.len() implies #[trigger] conds[k] == conds.drop_first()[k - 1] by {}
            assert((forall|k: int| 0 <= k < conds.len() ==> (#[trigger] conds[k]).outcome is Holds)
                <==> (forall|k: int| 0 <= k < conds.drop_first().len() ==> (#[trigger] conds.drop_first()[k]).outcome is Holds)) by {
                if forall|k: int| 0 <= k < conds.drop_first().len() ==> (#[trigger] conds.drop_first()[k]).outcome is Holds {
                    assert forall|k: int| 0 <= k < conds.len() implies (#[trigger] conds[k]).outcome is Holds by {
                        if k > 0 {
                            assert(conds[k] == conds.drop_first()[k - 1]);
                        }
                    }
                }
            }
            assert forall|k: int|
                0 <= k < conds.len() && (#[trigger] conds[k]).outcome is Absent && (forall|j: int|
                    0 <= j < k ==> conds[j].outcome is Holds) implies !rule_check(conds).0 && rule_check(
                    conds,
                ).1 == conds[k].field@ + " is absent"@ by {
                assert(k > 0);
                assert(conds[k] == conds.drop_first()[k - 1]);
                assert forall|j: int| 0 <= j < k - 1 implies conds.drop_first()[j].outcome is Holds by {
                    assert(conds.drop_first()[j] == conds[j + 1]);
                }
            }
        } else {
            assert(!(conds[0].outcome is Holds));
        }
    }
}

/// Does every condition hold? Returns the verdict and a human note.
pub fn check(conds: &Vec<CondCheck>) -> (r: (bool, String))
    ensures
        r.0 == rule_check(conds@).0,
        r.1@ == rule_check(conds@).1,
{
    let mut i: usize = 0;
    assert(conds@.skip(0) =~= conds@);
    while i < conds.len()
        invariant
            i <= conds.len(),
            rule_check(conds@) == rule_check(conds@.skip(i as int)),
        decreases conds.len() - i,
    {
        let c = &conds[i];
        assert(conds@.skip(i as int)[0] == conds@[i as int]);
        assert(conds@.skip(i as int).drop_first() =~= conds@.skip(i + 1));
        match &c.outcome {
            CondOutcome::Holds => {},
            CondOutcome::Absent => {
                let note = c.field.clone().concat(" is absent");
                return (false, note);
            },
            CondOutcome::Fails { lhs, value } => {
                let note = c.field.clone().concat("=").concat(lhs.as_str()).concat(" ").concat(
                    c.op.symbol(),
                ).concat(" ").concat(value.as_str()).concat(" is false");
                return (false, note);
            },
        }
        i = i + 1;
    }
    (true, String::from_str("all conditions hold"))
}

/// Whether rule `k` matches.
pub open spec fn rule_matches(rules: Seq<RuleOutcome>, k: int) -> bool {
    rule_check(rules[k].conds@).0
}

impl DefaultEvaluator {
    /// First match wins: walk the rules in order, recording a trace step for each rule checked,
    /// and stop at the first rule that matches. With no match the decision is `"no_match"`.
    pub fn decide(&self, rules: &Vec<RuleOutcome>) -> (d: Decision)
        ensures
            d.trace.len() <= rules.len(),
            forall|k: int|
                0 <= k < d.trace.len() ==> {
                    &&& (#[trigger] d.trace@[k]).rule_id@ == rules@[k].id@
                    &&& d.trace@[k].matched == rule_check(rules@[k].conds@).0
                    &&& d.trace@[k].note@ == rule_check(rules@[k].conds@).1
                },
            forall|k: int| 0 <= k < d.trace.len() - 1 ==> !rule_matches(rules@, k),
            d.matched_rule matches Some(id) ==> {
                &&& d.trace.len() >= 1
                &&& rule_matches(rules@, d.trace.len() - 1)
                &&& id@ == rules@[d.trace.len() - 1].id@
                &&& d.decision@ == rules@[d.trace.len() - 1].decision@
            },
            d.matched_rule is None ==> {
                &&& d.trace.len() == rules.len()
                &&& forall|k: int| 0 <= k < rules.len() ==> !rule_matches(rules@, k)
                &&& d.decision@ == "no_match"@
            },
            forall|k: int|
                0 <= k < d.trace.len() ==> ((#[trigger] d.trace@[k]).matched <==> forall|c: int|
                    0 <= c < rules@[k].conds@.len() ==> (#[trigger] rules@[k].conds@[c]).outcome is Holds),
    {
        proof {
            assert forall|k: int| 0 <= k < rules.len() implies (rule_check(rules@[k].conds@).0 <==> forall|c: int|
                0 <= c < rules@[k].conds@.len() ==> (#[trigger] rules@[k].conds@[c]).outcome is Holds) by {
                lemma_rule_matches_iff_all_hold(rules@[k].conds@);
            }
        }
        let mut trace: Vec<TraceStep> = Vec::new();
        let mut i: usize = 0;
        while i < rules.len()
            invariant
                i <= rules.len(),
                trace.len() == i,
                forall|k: int| 0 <= k < rules.len() ==> (rule_check(rules@[k].conds@).0 <==> forall|c: int|
                    0 <= c < rules@[k].conds@.len() ==> (#[trigger] rules@[k].conds@[c]).outcome is Holds),
                forall|k: int|
                    0 <= k < i ==> {
                        &&& (#[trigger] trace@[k]).rule_id@ == rules@[k].id@
                        &&& trace@[k].matched == rule_check(rules@[k].conds@).0
                        &&& trace@[k].note@ == rule_check(rules@[k].conds@).1
                    },
                forall|k: int| 0 <= k < i ==> !rule_matches(rules@, k),
            decreases rules.len() - i,
        {
            let rule = &rules[i];
            let (matched, note) = check(&rule.conds);
            trace.push(TraceStep { rule_id: rule.id.clone(), matched, note });
            if matched {
                return Decision {
                    decision: rule.decision.clone(),
                    matched_rule: Some(rule.id.clone()),
                    trace,
                };
            }
            i = i + 1;
        }
        Decision { decision: String::from_str("no_match"), matched_rule: None, trace }
    }
}

} // verus!
