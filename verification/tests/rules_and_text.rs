use detect_core::expr::{compile_condition, parse_condition, tokenize, ParseError, Token};
use detect_core::repo::{load_rules, RuleFile};
use detect_core::rules::{
    compile_rule, AggSpec, Condition, Detection, RuleErrorKind, Severity, SigmaRule,
};
use detect_core::store::{parse_i64, LocalCounters};
use detect_core::text::{i64_to_string, split_path_str, str_contains, str_le, u64_to_string};
use detect_core::value::{get_path, str_eq, value_eq, Value};

fn base_rule() -> SigmaRule {
    SigmaRule {
        id: "base".to_string(),
        name: "base rule".to_string(),
        description: Some("a rule".to_string()),
        severity: "low".to_string(),
        enabled: true,
        detection: Detection {
            selections: vec![(
                "sel1".to_string(),
                vec![Condition {
                    field: "event_type".to_string(),
                    operator: "equals".to_string(),
                    value: Value::Str("x".to_string()),
                }],
            )],
            condition: "sel1".to_string(),
        },
        aggregation: None,
        tags: vec!["t1".to_string()],
        mitre_attack: vec!["T1059".to_string()],
    }
}

#[test]
fn test_compile_rule_accepts_each_operator() {
    let mut def = base_rule();
    def.detection.selections[0].1 = vec![
        Condition {
            field: "a".to_string(),
            operator: "equals".to_string(),
            value: Value::Int(1),
        },
        Condition {
            field: "b".to_string(),
            operator: "contains".to_string(),
            value: Value::Str("x".to_string()),
        },
        Condition {
            field: "c".to_string(),
            operator: "regex".to_string(),
            value: Value::Str("^a+$".to_string()),
        },
        Condition {
            field: "d".to_string(),
            operator: "gt".to_string(),
            value: Value::Int(3),
        },
        Condition {
            field: "e".to_string(),
            operator: "lt".to_string(),
            value: Value::Int(9),
        },
        Condition {
            field: "f".to_string(),
            operator: "in".to_string(),
            value: Value::Arr(vec![Value::Int(1), Value::Int(2)]),
        },
    ];
    let rule = compile_rule(&def).expect("all operators should compile");
    assert_eq!(rule.severity, Severity::Low);
    assert_eq!(rule.selections[0].conds.len(), 6);
}

#[test]
fn test_compile_rule_rejections() {
    let mut bad_severity = base_rule();
    bad_severity.severity = "urgent".to_string();
    assert_eq!(compile_rule(&bad_severity).err(), Some(RuleErrorKind::BadSeverity));

    let mut unknown_op = base_rule();
    unknown_op.detection.selections[0].1[0].operator = "startswith".to_string();
    assert_eq!(compile_rule(&unknown_op).err(), Some(RuleErrorKind::UnknownOperator));

    let mut mistyped = base_rule();
    mistyped.detection.selections[0].1[0].operator = "gt".to_string();
    mistyped.detection.selections[0].1[0].value = Value::Str("three".to_string());
    assert_eq!(compile_rule(&mistyped).err(), Some(RuleErrorKind::OperandType));

    let mut bad_pattern = base_rule();
    bad_pattern.detection.selections[0].1[0].operator = "regex".to_string();
    bad_pattern.detection.selections[0].1[0].value = Value::Str("[".to_string());
    assert_eq!(compile_rule(&bad_pattern).err(), Some(RuleErrorKind::BadPattern));

    let mut bad_condition = base_rule();
    bad_condition.detection.condition = "sel1 and missing".to_string();
    assert_eq!(compile_rule(&bad_condition).err(), Some(RuleErrorKind::BadCondition));

    let mut empty_group = base_rule();
    empty_group.aggregation = Some(AggSpec {
        group_by: vec![],
        operator: "gte".to_string(),
        threshold: 1,
        window_seconds: 60,
    });
    assert_eq!(compile_rule(&empty_group).err(), Some(RuleErrorKind::EmptyGroupBy));

    let mut bad_threshold = base_rule();
    bad_threshold.aggregation = Some(AggSpec {
        group_by: vec!["k".to_string()],
        operator: "gte".to_string(),
        threshold: 0,
        window_seconds: 60,
    });
    assert_eq!(compile_rule(&bad_threshold).err(), Some(RuleErrorKind::BadThreshold));

    let mut bad_window = base_rule();
    bad_window.aggregation = Some(AggSpec {
        group_by: vec!["k".to_string()],
        operator: "gte".to_string(),
        threshold: 1,
        window_seconds: 0,
    });
    assert_eq!(compile_rule(&bad_window).err(), Some(RuleErrorKind::BadWindow));

    let mut bad_agg_op = base_rule();
    bad_agg_op.aggregation = Some(AggSpec {
        group_by: vec!["k".to_string()],
        operator: "max".to_string(),
        threshold: 1,
        window_seconds: 60,
    });
    assert_eq!(compile_rule(&bad_agg_op).err(), Some(RuleErrorKind::BadAggOperator));
}

#[test]
fn test_load_reports_unparsable_file() {
    let files = vec![RuleFile {
        name: "broken.yml".to_string(),
        parsed: None,
    }];
    let (rs, errs) = load_rules(files);
    assert_eq!(rs.rules.len(), 0);
    assert_eq!(errs.len(), 1);
    assert_eq!(errs[0].file, "broken.yml");
    assert_eq!(errs[0].kind, RuleErrorKind::Unparsable);
}

#[test]
fn test_tokenizer_splits_words_keywords_and_parens() {
    let toks = tokenize("(sel1 or sel2) and not sel_3");
    assert_eq!(
        toks,
        vec![
            Token::Open,
            Token::Ident("sel1".to_string()),
            Token::OrKw,
            Token::Ident("sel2".to_string()),
            Token::Close,
            Token::AndKw,
            Token::NotKw,
            Token::Ident("sel_3".to_string()),
        ]
    );
}

#[test]
fn test_parser_precedence_and_grouping() {
    // "a or b and c" parses as a or (b and c);
    // "(a or b) and c" groups the disjunction first.
    let names: Vec<String> = vec!["a".to_string(), "b".to_string(), "c".to_string()];
    let e1 = compile_condition("a or b and c", &names).unwrap();
    let e2 = compile_condition("(a or b) and c", &names).unwrap();
    // vals: a=false, b=true, c=true
    let vals = vec![false, true, true];
    assert!(e1.eval(&vals));
    assert!(e2.eval(&vals));
    // vals: a=true, b=false, c=false
    let vals = vec![true, false, false];
    assert!(e1.eval(&vals));
    assert!(!e2.eval(&vals));
    // double negation and nesting
    let e3 = compile_condition("not (not a)", &names).unwrap();
    assert!(e3.eval(&vec![true, false, false]));
    assert!(!e3.eval(&vec![false, false, false]));
}

#[test]
fn test_parser_rejects_bad_conditions() {
    let names: Vec<String> = vec!["sel1".to_string()];
    assert_eq!(
        compile_condition("nosuch", &names),
        Err(ParseError::UnknownSelection("nosuch".to_string()))
    );
    assert!(matches!(
        compile_condition("sel1 and", &names),
        Err(ParseError::UnexpectedEnd)
    ));
    assert!(matches!(
        compile_condition("(sel1", &names),
        Err(ParseError::UnexpectedEnd)
    ));
    assert!(matches!(
        compile_condition("sel1 sel1", &names),
        Err(ParseError::TrailingTokens)
    ));
    assert!(matches!(
        compile_condition("and sel1", &names),
        Err(ParseError::UnexpectedToken)
    ));
    let toks = tokenize("");
    assert!(parse_condition(&toks, &names).is_err());
}

#[test]
fn test_split_path_segments() {
    let segs = split_path_str("a.b.c");
    assert_eq!(segs, vec!["a".to_string(), "b".to_string(), "c".to_string()]);
    let segs = split_path_str("plain");
    assert_eq!(segs, vec!["plain".to_string()]);
    let segs = split_path_str("trailing.");
    assert_eq!(segs, vec!["trailing".to_string(), "".to_string()]);
}

#[test]
fn test_get_path_walks_nested_objects() {
    let event = Value::Obj(vec![(
        "process".to_string(),
        Value::Obj(vec![("pid".to_string(), Value::Int(7))]),
    )]);
    let path = vec!["process".to_string(), "pid".to_string()];
    let v = get_path(&event, &path).expect("path should resolve");
    assert!(value_eq(v, &Value::Int(7)));
    let missing = vec!["process".to_string(), "name".to_string()];
    assert!(get_path(&event, &missing).is_none());
}

#[test]
fn test_string_helpers() {
    assert!(str_eq("abc", "abc"));
    assert!(!str_eq("abc", "abd"));
    assert!(str_contains("haystack", "sta"));
    assert!(!str_contains("haystack", "stax"));
    assert!(str_contains("anything", ""));
    assert!(str_le("a.yml", "b.yml"));
    assert!(str_le("a", "ab"));
    assert!(!str_le("b", "ab"));
    assert!(str_le("same", "same"));
}

#[test]
fn test_number_rendering_and_parsing() {
    assert_eq!(u64_to_string(0), "0");
    assert_eq!(u64_to_string(90210), "90210");
    assert_eq!(i64_to_string(-42), "-42");
    assert_eq!(i64_to_string(i64::MIN), "-9223372036854775808");
    assert_eq!(parse_i64("123"), Some(123));
    assert_eq!(parse_i64("-123"), Some(-123));
    assert_eq!(parse_i64("-9223372036854775808"), Some(i64::MIN));
    assert_eq!(parse_i64("9223372036854775808"), None);
    assert_eq!(parse_i64(""), None);
    assert_eq!(parse_i64("12x"), None);
}

#[test]
fn test_local_counters_window_semantics() {
    let mut lc = LocalCounters::new();
    assert_eq!(lc.increment("k", 60, 0), 1);
    assert_eq!(lc.increment("k", 60, 30), 2);
    assert_eq!(lc.get_count("k", 59), 2);
    // At the window's end the key counts as absent and restarts.
    assert_eq!(lc.get_count("k", 60), 0);
    assert_eq!(lc.increment("k", 60, 60), 1);
    lc.reset("k");
    assert_eq!(lc.get_count("k", 61), 0);
}

#[test]
fn test_regex_condition_matches_semantics() {
    // Through the public evaluator, so a wrapper handing its argument back
    // unchanged would fail these.
    let c = Condition {
        field: "name".to_string(),
        operator: "regex".to_string(),
        value: Value::Str("^pow.+ell$".to_string()),
    };
    let hit = Value::Obj(vec![(
        "name".to_string(),
        Value::Str("powershell".to_string()),
    )]);
    let miss = Value::Obj(vec![(
        "name".to_string(),
        Value::Str("power".to_string()),
    )]);
    assert!(detect_core::evaluator::evaluate_condition(&c, &hit));
    assert!(!detect_core::evaluator::evaluate_condition(&c, &miss));
}

#[test]
fn test_in_gt_lt_operators() {
    let event = Value::Obj(vec![
        ("port".to_string(), Value::Int(443)),
        ("proto".to_string(), Value::Str("tcp".to_string())),
    ]);
    let in_cond = Condition {
        field: "proto".to_string(),
        operator: "in".to_string(),
        value: Value::Arr(vec![
            Value::Str("udp".to_string()),
            Value::Str("tcp".to_string()),
        ]),
    };
    assert!(detect_core::evaluator::evaluate_condition(&in_cond, &event));
    let gt = Condition {
        field: "port".to_string(),
        operator: "gt".to_string(),
        value: Value::Int(1024),
    };
    assert!(!detect_core::evaluator::evaluate_condition(&gt, &event));
    let lt = Condition {
        field: "port".to_string(),
        operator: "lt".to_string(),
        value: Value::Int(1024),
    };
    assert!(detect_core::evaluator::evaluate_condition(&lt, &event));
    // Numeric operators on a non-numeric value are false, not an error.
    let gt_str = Condition {
        field: "proto".to_string(),
        operator: "gt".to_string(),
        value: Value::Int(0),
    };
    assert!(!detect_core::evaluator::evaluate_condition(&gt_str, &event));
}
