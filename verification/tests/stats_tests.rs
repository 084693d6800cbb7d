use asgn::actions::{build_rank_rows, rank_kind_supported, rank_row_for, score_kind, verify_active};
use asgn::dates::LocalDatetime;
use asgn::error::InactiveKind;
use asgn::rules::{MetricMap, MetricValue, Rule, Ruleset};
use asgn::stats::{metric_rank_key, rank_rows, RankRow, StatBlock, StatBlockSet};

fn noon(day: u8) -> LocalDatetime {
    LocalDatetime { year: 2024, month: 1, day, hour: 12, minute: 0, second: 0 }
}

fn block(username: &str, scores: Vec<(&str, MetricValue)>) -> StatBlock {
    let mut map = MetricMap::new();
    for (k, v) in scores {
        map.insert(k.to_owned(), v);
    }
    StatBlock { username: username.to_owned(), time: noon(1), scores: map }
}

fn score_ruleset() -> Ruleset {
    Ruleset {
        on_grade: None,
        on_submit: None,
        fail_okay: None,
        rules: vec![
            Rule {
                target: "speed".to_owned(),
                fail_okay: None,
                wait_text: None,
                pass_text: None,
                fail_text: None,
                help_text: None,
                kind: Some("int".to_owned()),
            },
            Rule {
                target: "passed".to_owned(),
                fail_okay: None,
                wait_text: None,
                pass_text: None,
                fail_text: None,
                help_text: None,
                kind: Some("bool".to_owned()),
            },
        ],
    }
}

#[test]
fn get_block_first_match() {
    let set = StatBlockSet {
        stat_block: Some(vec![
            block("alice", vec![("speed", MetricValue::Int(3))]),
            block("bob", vec![("speed", MetricValue::Int(5))]),
            block("alice", vec![("speed", MetricValue::Int(9))]),
        ]),
    };
    let found = set.get_block("alice").expect("alice has a block");
    match found.scores.get("speed") {
        Some(MetricValue::Int(n)) => assert_eq!(*n, 3),
        _ => panic!("wrong block"),
    }
    assert!(set.get_block("carol").is_none());
    let empty = StatBlockSet { stat_block: None };
    assert!(empty.get_block("alice").is_none());
}

#[test]
fn rank_rows_orders_keys() {
    let rows = vec![
        RankRow { key: Some(30), cells: vec!["c".to_owned()] },
        RankRow { key: None, cells: vec!["d".to_owned()] },
        RankRow { key: Some(10), cells: vec!["a".to_owned()] },
        RankRow { key: Some(20), cells: vec!["b".to_owned()] },
    ];
    let up = rank_rows(rows, true);
    let names: Vec<&str> = up.iter().map(|r| r.cells[0].as_str()).collect();
    assert_eq!(names, vec!["a", "b", "c", "d"]);
}

#[test]
fn rank_rows_descending_keeps_missing_last() {
    let rows = vec![
        RankRow { key: None, cells: vec!["d".to_owned()] },
        RankRow { key: Some(10), cells: vec!["a".to_owned()] },
        RankRow { key: Some(30), cells: vec!["c".to_owned()] },
    ];
    let down = rank_rows(rows, false);
    let names: Vec<&str> = down.iter().map(|r| r.cells[0].as_str()).collect();
    assert_eq!(names, vec!["c", "a", "d"]);
}

#[test]
fn rank_rows_canonical_under_shuffle() {
    // Distinct keys: any input order sorts to the same output.
    let mk = |k: i64, n: &str| RankRow { key: Some(k), cells: vec![n.to_owned()] };
    let one = rank_rows(vec![mk(3, "c"), mk(1, "a"), mk(2, "b")], true);
    let two = rank_rows(vec![mk(2, "b"), mk(3, "c"), mk(1, "a")], true);
    let names = |rows: &Vec<RankRow>| -> Vec<String> {
        rows.iter().map(|r| r.cells[0].clone()).collect()
    };
    assert_eq!(names(&one), names(&two));
    assert_eq!(names(&one), vec!["a", "b", "c"]);
}

#[test]
fn rank_rows_keeps_input_order_on_ties() {
    let mk = |k: Option<i64>, n: &str| RankRow { key: k, cells: vec![n.to_owned()] };
    let sorted = rank_rows(
        vec![mk(Some(1), "x"), mk(None, "m"), mk(Some(1), "y"), mk(None, "n")],
        true,
    );
    let names: Vec<&str> = sorted.iter().map(|r| r.cells[0].as_str()).collect();
    assert_eq!(names, vec!["x", "y", "m", "n"]);
}

#[test]
fn metric_keys() {
    assert_eq!(metric_rank_key(&MetricValue::Bool(false)), Some(0));
    assert_eq!(metric_rank_key(&MetricValue::Bool(true)), Some(1));
    assert_eq!(metric_rank_key(&MetricValue::Int(-3)), Some(-3));
    assert_eq!(metric_rank_key(&MetricValue::Float("1.5".to_owned())), None);
}

#[test]
fn score_kind_lookup() {
    let rs = score_ruleset();
    assert_eq!(score_kind("hw1", &rs, "speed").unwrap().as_str(), "int");
    assert_eq!(score_kind("hw1", &rs, "passed").unwrap().as_str(), "bool");
    let missing = score_kind("hw1", &rs, "style").unwrap_err();
    assert_eq!(missing.description, "Assignment 'hw1' does not have a 'style' score.");
    let mut kindless = score_ruleset();
    kindless.rules[0].kind = None;
    let err = score_kind("hw1", &kindless, "speed").unwrap_err();
    assert_eq!(err.description, "No score kind given.");
}

#[test]
fn rank_row_contents() {
    let blocks = StatBlockSet {
        stat_block: Some(vec![block(
            "alice",
            vec![("speed", MetricValue::Int(42)), ("passed", MetricValue::Bool(true))],
        )]),
    };
    let rs = score_ruleset();
    let row = rank_row_for(&"alice".to_owned(), &blocks, &rs, "speed", "int").unwrap();
    assert_eq!(row.key, Some(42));
    assert_eq!(row.cells, vec!["alice", "42", "true"]);
    // A member without a snapshot still gets a row, all placeholders.
    let missing = rank_row_for(&"bob".to_owned(), &blocks, &rs, "speed", "int").unwrap();
    assert_eq!(missing.key, None);
    assert_eq!(missing.cells, vec!["bob", "NONE", "NONE"]);
    // A stored value that cannot be read under the kind is a hard error.
    let clash = rank_row_for(&"alice".to_owned(), &blocks, &rs, "speed", "bool");
    assert!(clash.is_err());
}

#[test]
fn build_rows_for_all_members() {
    let blocks = StatBlockSet {
        stat_block: Some(vec![
            block("bob", vec![("speed", MetricValue::Int(5))]),
            block("alice", vec![("speed", MetricValue::Int(3))]),
        ]),
    };
    let rs = score_ruleset();
    let members = vec!["prof".to_owned(), "alice".to_owned(), "bob".to_owned()];
    let rows = build_rank_rows(&members, &blocks, &rs, "speed", "int").unwrap();
    assert_eq!(rows.len(), 3);
    assert_eq!(rows[0].cells[0], "prof");
    assert_eq!(rows[0].key, None);
    assert_eq!(rows[1].key, Some(3));
    assert_eq!(rows[2].key, Some(5));
    let ranked = rank_rows(rows, false);
    let names: Vec<&str> = ranked.iter().map(|r| r.cells[0].as_str()).collect();
    assert_eq!(names, vec!["bob", "alice", "prof"]);
}

#[test]
fn rank_kinds() {
    assert!(rank_kind_supported("bool"));
    assert!(rank_kind_supported("int"));
    assert!(rank_kind_supported("float"));
    assert!(!rank_kind_supported("rating"));
}

#[test]
fn verify_active_gate() {
    assert_eq!(verify_active(false, false, false, false), Err(InactiveKind::Inactive));
    assert_eq!(verify_active(true, false, true, false), Err(InactiveKind::BeforeOpen));
    assert_eq!(verify_active(true, false, false, true), Err(InactiveKind::AfterClose));
    assert_eq!(verify_active(true, false, false, false), Ok(()));
    // The instructor bypasses the open/close window but not the active flag.
    assert_eq!(verify_active(true, true, true, true), Ok(()));
    assert_eq!(verify_active(false, true, false, false), Err(InactiveKind::Inactive));
}
