use asgn::rules::{
    on_grade_applies, on_submit_applies, parse_metric, run_rule, run_ruleset, stage_halts,
    MetricValue, Rule, RuleEvent, Ruleset, SubmissionFatal,
};

fn rule(target: &str, fail_okay: Option<bool>, kind: Option<&str>) -> Rule {
    Rule {
        target: target.to_owned(),
        fail_okay,
        wait_text: None,
        pass_text: None,
        fail_text: None,
        help_text: None,
        kind: kind.map(str::to_owned),
    }
}

fn event(success: bool, output: Option<&str>) -> RuleEvent {
    RuleEvent { launch: Some(success), output: output.map(str::to_owned) }
}

#[test]
fn scenario_tolerated_then_pass() {
    let ruleset = Ruleset {
        on_grade: None,
        on_submit: None,
        fail_okay: None,
        rules: vec![rule("lint", Some(true), None), rule("compile", Some(false), None)],
    };
    let events = vec![event(false, None), event(true, None)];
    let (state, result) = run_ruleset(&ruleset, &events, false);
    assert!(result.is_ok());
    let summary = state.summary(2);
    assert_eq!(summary.passed, 1);
    assert_eq!(summary.failed, 1);
    assert_eq!(summary.not_reached, 0);
    assert!(!summary.fatal);
}

#[test]
fn scenario_fatal_second_rule() {
    let ruleset = Ruleset {
        on_grade: None,
        on_submit: None,
        fail_okay: None,
        rules: vec![rule("lint", Some(true), None), rule("compile", Some(false), None)],
    };
    let events = vec![event(false, None), event(false, None)];
    let (state, result) = run_ruleset(&ruleset, &events, false);
    assert_eq!(result, Err(SubmissionFatal));
    let summary = state.summary(2);
    assert_eq!(summary.passed, 0);
    assert_eq!(summary.failed, 2);
    assert_eq!(summary.not_reached, 0);
    assert!(summary.fatal);
}

#[test]
fn fatal_leaves_rules_unreached() {
    let ruleset = Ruleset {
        on_grade: None,
        on_submit: None,
        fail_okay: None,
        rules: vec![
            rule("a", None, None),
            rule("b", None, None),
            rule("c", None, None),
        ],
    };
    // The driver stops handing events at the fatal rule.
    let events = vec![event(true, None), event(false, None)];
    let (state, result) = run_ruleset(&ruleset, &events, false);
    assert!(result.is_err());
    let summary = state.summary(3);
    assert_eq!(summary.passed, 1);
    assert_eq!(summary.failed, 1);
    assert_eq!(summary.not_reached, 1);
    assert_eq!(
        summary.passed + summary.failed + summary.not_reached,
        summary.total
    );
    assert!(summary.fatal);
}

#[test]
fn scenario_bad_int_metric_omitted() {
    let ruleset = Ruleset {
        on_grade: None,
        on_submit: None,
        fail_okay: None,
        rules: vec![rule("score", None, Some("int"))],
    };
    let events = vec![event(true, Some("abc"))];
    let (state, result) = run_ruleset(&ruleset, &events, true);
    assert!(result.is_ok());
    assert_eq!(state.scores.len(), 0);
    let summary = state.summary(1);
    assert_eq!(summary.passed, 1);
    assert_eq!(summary.failed, 0);
}

#[test]
fn good_metrics_recorded_last_write_wins() {
    let ruleset = Ruleset {
        on_grade: None,
        on_submit: None,
        fail_okay: None,
        rules: vec![
            rule("speed", None, Some("int")),
            rule("ok", None, Some("bool")),
            rule("speed", None, Some("int")),
        ],
    };
    let events = vec![
        event(true, Some("42")),
        event(true, Some("true")),
        event(true, Some("57")),
    ];
    let (state, result) = run_ruleset(&ruleset, &events, true);
    assert!(result.is_ok());
    assert_eq!(state.scores.len(), 2);
    match state.scores.get("speed") {
        Some(MetricValue::Int(n)) => assert_eq!(*n, 57),
        other => panic!("speed metric wrong: {:?}", other.is_some()),
    }
    match state.scores.get("ok") {
        Some(MetricValue::Bool(b)) => assert!(*b),
        _ => panic!("bool metric missing"),
    }
}

#[test]
fn metric_without_kind_skipped() {
    let ruleset = Ruleset {
        on_grade: None,
        on_submit: None,
        fail_okay: None,
        rules: vec![rule("score", None, None)],
    };
    let events = vec![event(true, Some("42"))];
    let (state, result) = run_ruleset(&ruleset, &events, true);
    assert!(result.is_ok());
    assert_eq!(state.scores.len(), 0);
}

#[test]
fn tolerated_failure_never_fatal() {
    let r = rule("lint", Some(true), None);
    assert_eq!(run_rule(&r, None, Some(false)), Ok(false));
    assert_eq!(run_rule(&r, Some(false), Some(false)), Ok(false));
}

#[test]
fn untolerated_failure_always_fatal() {
    let plain = rule("compile", None, None);
    assert_eq!(run_rule(&plain, None, Some(false)), Err(SubmissionFatal));
    let explicit = rule("compile", Some(false), None);
    assert_eq!(run_rule(&explicit, Some(true), Some(false)), Err(SubmissionFatal));
}

#[test]
fn ruleset_default_tolerance_applies() {
    let inherits = rule("style", None, None);
    assert_eq!(run_rule(&inherits, Some(true), Some(false)), Ok(false));
    assert_eq!(inherits.effective_fail_okay(Some(true)), true);
    assert_eq!(inherits.effective_fail_okay(None), false);
}

#[test]
fn launch_failure_is_fatal_despite_tolerance() {
    let r = rule("lint", Some(true), None);
    assert_eq!(run_rule(&r, None, None), Err(SubmissionFatal));
}

#[test]
fn run_rule_pass_regardless_of_tolerance() {
    let strict = rule("compile", Some(false), None);
    assert_eq!(run_rule(&strict, None, Some(true)), Ok(true));
}

#[test]
fn parse_metric_cases() {
    assert!(matches!(parse_metric("bool", "true"), Some(MetricValue::Bool(true))));
    assert!(matches!(parse_metric("bool", "false"), Some(MetricValue::Bool(false))));
    assert!(parse_metric("bool", "TRUE").is_none());
    assert!(matches!(parse_metric("int", "42"), Some(MetricValue::Int(42))));
    assert!(matches!(parse_metric("int", "-7"), Some(MetricValue::Int(-7))));
    assert!(parse_metric("int", "4.5").is_none());
    match parse_metric("float", "4.5") {
        Some(MetricValue::Float(s)) => assert_eq!(s, "4.5"),
        _ => panic!("float metric should parse"),
    }
    assert!(parse_metric("float", "abc").is_none());
    assert!(parse_metric("rating", "42").is_none());
}

#[test]
fn gating_flags() {
    let gated = |on_submit, on_grade| {
        Some(Ruleset { on_grade, on_submit, fail_okay: None, rules: vec![] })
    };
    assert!(!on_submit_applies(&None));
    assert!(on_submit_applies(&gated(None, None)));
    assert!(on_submit_applies(&gated(Some(true), None)));
    assert!(!on_submit_applies(&gated(Some(false), None)));
    assert!(!on_grade_applies(&None));
    assert!(on_grade_applies(&gated(None, None)));
    assert!(on_grade_applies(&gated(None, Some(true))));
    assert!(!on_grade_applies(&gated(None, Some(false))));
}

#[test]
fn stage_halting() {
    assert!(!stage_halts(&None));
    assert!(!stage_halts(&Some(Ok(()))));
    assert!(stage_halts(&Some(Err(SubmissionFatal))));
}

#[test]
fn stepwise_driving_stops_at_fatal() {
    // The way the surrounding program drives the engine: one step per rule,
    // stopping once the state turns fatal.
    let ruleset = Ruleset {
        on_grade: None,
        on_submit: None,
        fail_okay: Some(true),
        rules: vec![rule("a", None, None), rule("b", Some(false), None), rule("c", None, None)],
    };
    let outcomes = [false, false, true];
    let mut state = asgn::rules::RunState::new();
    let mut i = 0;
    while i < ruleset.rules.len() && !state.fatal {
        let ev = event(outcomes[i], None);
        state.step(&ruleset.rules[i], ruleset.fail_okay, &ev, false);
        i += 1;
    }
    // "a" fails tolerated (ruleset default), "b" fails fatally, "c" unreached.
    let summary = state.summary(3);
    assert_eq!(summary.passed, 0);
    assert_eq!(summary.failed, 2);
    assert_eq!(summary.not_reached, 1);
    assert!(summary.fatal);
}
