use detect_core::alerts::Alert;
use detect_core::evaluator::{evaluate_condition, evaluate_rule, MatchOutcome};
use detect_core::metrics::Metrics;
use detect_core::pipeline::{ingest_event, process_event};
use detect_core::repo::{load_rules, RuleFile, RuleSet};
use detect_core::rules::{
    compile_rule, AggSpec, Condition, Detection, Rule, Severity, SigmaRule,
};
use detect_core::store::{CorrelationStore, LocalCounters, StateStore};
use detect_core::value::Value;

fn obj(fields: Vec<(&str, Value)>) -> Value {
    Value::Obj(
        fields
            .into_iter()
            .map(|(k, v)| (k.to_string(), v))
            .collect(),
    )
}

fn simple_rule(id: &str, condition: &str, selections: Vec<(&str, Vec<Condition>)>) -> SigmaRule {
    SigmaRule {
        id: id.to_string(),
        name: format!("rule {}", id),
        description: None,
        severity: "high".to_string(),
        enabled: true,
        detection: Detection {
            selections: selections
                .into_iter()
                .map(|(n, cs)| (n.to_string(), cs))
                .collect(),
            condition: condition.to_string(),
        },
        aggregation: None,
        tags: vec![],
        mitre_attack: vec![],
    }
}

fn cond(field: &str, operator: &str, value: Value) -> Condition {
    Condition {
        field: field.to_string(),
        operator: operator.to_string(),
        value,
    }
}

fn compiled(def: &SigmaRule) -> Rule {
    compile_rule(def).expect("rule should compile")
}

fn ruleset(rules: Vec<Rule>) -> RuleSet {
    RuleSet { rules }
}

fn process_start_event() -> Value {
    obj(vec![
        ("event_type", Value::Str("process_start".to_string())),
        ("pid", Value::Int(100)),
    ])
}

#[test]
fn test_evaluate_condition_equals() {
    let condition = cond(
        "event_type",
        "equals",
        Value::Str("process_start".to_string()),
    );
    let event = obj(vec![(
        "event_type",
        Value::Str("process_start".to_string()),
    )]);
    assert!(evaluate_condition(&condition, &event));
}

#[test]
fn test_evaluate_condition_contains() {
    let condition = cond(
        "command_line",
        "contains",
        Value::Str("powershell".to_string()),
    );
    let event = obj(vec![(
        "command_line",
        Value::Str(
            "C:\\Windows\\System32\\WindowsPowerShell\\v1.0\\powershell.exe".to_string(),
        ),
    )]);
    assert!(evaluate_condition(&condition, &event));
}

#[test]
fn test_scenario_simple_match_emits_alert() {
    // A single-selection rule matches and the alert carries its severity.
    let def = simple_rule(
        "r1",
        "sel1",
        vec![(
            "sel1",
            vec![cond(
                "event_type",
                "equals",
                Value::Str("process_start".to_string()),
            )],
        )],
    );
    let rules = ruleset(vec![compiled(&def)]);
    let mut metrics = Metrics::new();
    let store = CorrelationStore::Local(LocalCounters::new());
    let (_store, alerts) =
        process_event(&process_start_event(), &rules, store, 0, &mut metrics);
    assert_eq!(alerts.len(), 1);
    let alert: &Alert = &alerts[0];
    assert_eq!(alert.severity, Severity::High);
    assert_eq!(alert.rule_id, "r1");
    assert_eq!(alert.rule_name, "rule r1");
    assert_eq!(alert.tenant_id, "default");
    assert!(alert.correlation.is_none());
    assert_eq!(alert.id.len(), 36);
    assert_eq!(metrics.alerts_generated, 1);
    assert_eq!(metrics.rule_errors, 0);
}

#[test]
fn test_scenario_and_not_is_no_match() {
    // condition "sel1 and not sel2": both selections true means no match.
    let def = simple_rule(
        "r2",
        "sel1 and not sel2",
        vec![
            (
                "sel1",
                vec![cond(
                    "event_type",
                    "equals",
                    Value::Str("process_start".to_string()),
                )],
            ),
            ("sel2", vec![cond("pid", "equals", Value::Int(100))]),
        ],
    );
    let rule = compiled(&def);
    let store = CorrelationStore::Local(LocalCounters::new());
    let (_store, res) = evaluate_rule(&rule, &process_start_event(), store, 0);
    assert_eq!(res.unwrap(), MatchOutcome::NoMatch);
}

#[test]
fn test_scenario_malformed_payload_counted_and_dropped() {
    // A payload that did not parse counts a parse error, is dropped, and the
    // pipeline keeps going.
    let def = simple_rule(
        "r3",
        "sel1",
        vec![(
            "sel1",
            vec![cond(
                "event_type",
                "equals",
                Value::Str("process_start".to_string()),
            )],
        )],
    );
    let rules = ruleset(vec![compiled(&def)]);
    let mut metrics = Metrics::new();
    let store = CorrelationStore::Local(LocalCounters::new());
    let (store, alerts) = ingest_event(None, &rules, store, 0, &mut metrics);
    assert_eq!(metrics.parse_errors, 1);
    assert_eq!(metrics.events_processed, 1);
    assert_eq!(alerts.len(), 0);
    // The next, well-formed event is still processed.
    let (_store, alerts) =
        ingest_event(Some(process_start_event()), &rules, store, 0, &mut metrics);
    assert_eq!(alerts.len(), 1);
    assert_eq!(metrics.events_processed, 2);
    assert_eq!(metrics.parse_errors, 1);
}

fn agg_rule(id: &str, operator: &str, threshold: i64, window: u64) -> SigmaRule {
    let mut def = simple_rule(
        id,
        "sel1",
        vec![(
            "sel1",
            vec![cond(
                "event_type",
                "equals",
                Value::Str("process_start".to_string()),
            )],
        )],
    );
    def.aggregation = Some(AggSpec {
        group_by: vec!["src_ip".to_string()],
        operator: operator.to_string(),
        threshold,
        window_seconds: window,
    });
    def
}

fn event_from(src_ip: &str) -> Value {
    obj(vec![
        ("event_type", Value::Str("process_start".to_string())),
        ("src_ip", Value::Str(src_ip.to_string())),
        ("tenant_id", Value::Str("acme".to_string())),
    ])
}

#[test]
fn test_scenario_store_unreachable_fails_open() {
    // An unreachable correlation store during an aggregation rule's
    // evaluation: no match, a rule error counted, the next rule unaffected.
    let agg = compiled(&agg_rule("r-agg", "gte", 3, 60));
    let plain = compiled(&simple_rule(
        "r-plain",
        "sel1",
        vec![(
            "sel1",
            vec![cond(
                "event_type",
                "equals",
                Value::Str("process_start".to_string()),
            )],
        )],
    ));
    let rules = ruleset(vec![agg, plain]);
    // A well-formed URL that no server answers.
    let remote = StateStore::new("redis://127.0.0.1:1/").expect("URL should parse");
    let store = CorrelationStore::Remote(remote);
    let mut metrics = Metrics::new();
    let (_store, alerts) = process_event(&event_from("10.0.0.1"), &rules, store, 0, &mut metrics);
    assert_eq!(metrics.rule_errors, 1);
    // The second rule still matched and alerted.
    assert_eq!(alerts.len(), 1);
    assert_eq!(alerts[0].rule_id, "r-plain");
}

#[test]
fn test_aggregation_threshold_alerts_exactly_once() {
    // window=60s, threshold=3, group_by=src_ip, operator=eq: the third
    // matching event for one key alerts, the fourth does not re-alert.
    let rules = ruleset(vec![compiled(&agg_rule("r-eq", "eq", 3, 60))]);
    let mut metrics = Metrics::new();
    let mut store = CorrelationStore::Local(LocalCounters::new());
    let mut alert_counts = vec![];
    for now in [0u64, 10, 20, 30] {
        let (s2, alerts) = process_event(&event_from("10.0.0.1"), &rules, store, now, &mut metrics);
        store = s2;
        alert_counts.push(alerts.len());
    }
    assert_eq!(alert_counts, vec![0, 0, 1, 0]);
    assert_eq!(metrics.alerts_generated, 1);
    assert_eq!(metrics.rule_errors, 0);
}

#[test]
fn test_aggregation_gte_realerts_within_window() {
    // The same counting under operator gte re-alerts on every event from the
    // third on: the repeat policy is the rule's choice of operator.
    let rules = ruleset(vec![compiled(&agg_rule("r-gte", "gte", 3, 60))]);
    let mut metrics = Metrics::new();
    let mut store = CorrelationStore::Local(LocalCounters::new());
    let mut alert_counts = vec![];
    for now in [0u64, 10, 20, 30] {
        let (s2, alerts) = process_event(&event_from("10.0.0.1"), &rules, store, now, &mut metrics);
        store = s2;
        alert_counts.push(alerts.len());
    }
    assert_eq!(alert_counts, vec![0, 0, 1, 1]);
}

#[test]
fn test_aggregation_keys_are_scoped_per_group_and_tenant() {
    // Events for another key do not advance the first key's counter.
    let rules = ruleset(vec![compiled(&agg_rule("r-key", "gte", 2, 60))]);
    let mut metrics = Metrics::new();
    let mut store = CorrelationStore::Local(LocalCounters::new());
    let (s2, a1) = process_event(&event_from("10.0.0.1"), &rules, store, 0, &mut metrics);
    store = s2;
    let (s2, a2) = process_event(&event_from("10.0.0.2"), &rules, store, 1, &mut metrics);
    store = s2;
    let (_s2, a3) = process_event(&event_from("10.0.0.1"), &rules, store, 2, &mut metrics);
    assert_eq!(a1.len(), 0);
    assert_eq!(a2.len(), 0);
    assert_eq!(a3.len(), 1);
    assert_eq!(a3[0].tenant_id, "acme");
    let ev = a3[0].correlation.expect("correlated match carries evidence");
    assert_eq!(ev.count, 2);
    assert_eq!(ev.window_seconds, 60);
}

#[test]
fn test_aggregation_window_expires() {
    // A fixed window: after it ends the key counts from one again.
    let rules = ruleset(vec![compiled(&agg_rule("r-win", "gte", 2, 60))]);
    let mut metrics = Metrics::new();
    let mut store = CorrelationStore::Local(LocalCounters::new());
    let (s2, a1) = process_event(&event_from("10.0.0.1"), &rules, store, 0, &mut metrics);
    store = s2;
    // The window [0, 60) has ended; this event starts a new one.
    let (s2, a2) = process_event(&event_from("10.0.0.1"), &rules, store, 60, &mut metrics);
    store = s2;
    let (_s2, a3) = process_event(&event_from("10.0.0.1"), &rules, store, 61, &mut metrics);
    assert_eq!(a1.len(), 0);
    assert_eq!(a2.len(), 0);
    assert_eq!(a3.len(), 1);
}

#[test]
fn test_disabled_rule_never_executes() {
    // A disabled rule: no alert, no metric change, no counter touched.
    let mut def = agg_rule("r-off", "gte", 1, 60);
    def.enabled = false;
    let rules = ruleset(vec![compiled(&def)]);
    let mut metrics = Metrics::new();
    let store = CorrelationStore::Local(LocalCounters::new());
    let (store, alerts) = process_event(&event_from("10.0.0.1"), &rules, store, 0, &mut metrics);
    assert_eq!(alerts.len(), 0);
    assert_eq!(metrics.alerts_generated, 0);
    assert_eq!(metrics.rule_errors, 0);
    match store {
        CorrelationStore::Local(lc) => assert_eq!(lc.entries.len(), 0),
        CorrelationStore::Remote(_) => panic!("store kind changed"),
    }
}

#[test]
fn test_non_aggregation_rule_is_pure_and_store_free() {
    // Identical inputs give identical outcomes, and the store is untouched.
    let def = simple_rule(
        "r-pure",
        "sel1",
        vec![(
            "sel1",
            vec![cond(
                "event_type",
                "equals",
                Value::Str("process_start".to_string()),
            )],
        )],
    );
    let rule = compiled(&def);
    let event = process_start_event();
    let store = CorrelationStore::Local(LocalCounters::new());
    let (store, r1) = evaluate_rule(&rule, &event, store, 0);
    let (store, r2) = evaluate_rule(&rule, &event, store, 99);
    assert_eq!(r1.unwrap(), r2.unwrap());
    match store {
        CorrelationStore::Local(lc) => assert_eq!(lc.entries.len(), 0),
        CorrelationStore::Remote(_) => panic!("store kind changed"),
    }
}

#[test]
fn test_missing_field_matches_nothing_and_negation_is_defined() {
    // A missing field satisfies no operator; a negated selection over a
    // missing field therefore reads true.
    let event = obj(vec![("present", Value::Str("x".to_string()))]);
    for (op, val) in [
        ("equals", Value::Str("x".to_string())),
        ("contains", Value::Str("x".to_string())),
        ("regex", Value::Str(".*".to_string())),
        ("in", Value::Arr(vec![Value::Str("x".to_string())])),
        ("gt", Value::Int(0)),
        ("lt", Value::Int(0)),
    ] {
        let c = cond("absent", op, val);
        assert!(!evaluate_condition(&c, &event), "operator {} matched a missing field", op);
    }
    let def = simple_rule(
        "r-neg",
        "not sel1",
        vec![(
            "sel1",
            vec![cond("absent", "equals", Value::Str("x".to_string()))],
        )],
    );
    let rule = compiled(&def);
    let store = CorrelationStore::Local(LocalCounters::new());
    let (_store, res) = evaluate_rule(&rule, &event, store, 0);
    assert_eq!(
        res.unwrap(),
        MatchOutcome::Match { evidence: None }
    );
}

#[test]
fn test_load_rules_is_order_independent() {
    // Two listings of one directory, differently ordered, load to the same
    // snapshot and the same reports; the duplicate id keeps the first file
    // in name order.
    let mk = |fname: &str, id: &str| RuleFile {
        name: fname.to_string(),
        parsed: Some(simple_rule(
            id,
            "sel1",
            vec![(
                "sel1",
                vec![cond(
                    "event_type",
                    "equals",
                    Value::Str("process_start".to_string()),
                )],
            )],
        )),
    };
    let listing1 = vec![mk("b.yml", "dup"), mk("a.yml", "dup"), mk("c.yml", "solo")];
    let listing2 = vec![mk("c.yml", "solo"), mk("a.yml", "dup"), mk("b.yml", "dup")];
    let (rs1, errs1) = load_rules(listing1);
    let (rs2, errs2) = load_rules(listing2);
    let ids1: Vec<&str> = rs1.rules.iter().map(|r| r.id.as_str()).collect();
    let ids2: Vec<&str> = rs2.rules.iter().map(|r| r.id.as_str()).collect();
    assert_eq!(ids1, ids2);
    assert_eq!(ids1, vec!["dup", "solo"]);
    let names1: Vec<&str> = rs1.rules.iter().map(|r| r.name.as_str()).collect();
    // Name order decides: a.yml won the id, b.yml is the reported duplicate.
    assert_eq!(names1, vec!["rule dup", "rule solo"]);
    let reported1: Vec<(&str, _)> = errs1.iter().map(|e| (e.file.as_str(), e.kind)).collect();
    let reported2: Vec<(&str, _)> = errs2.iter().map(|e| (e.file.as_str(), e.kind)).collect();
    assert_eq!(reported1, reported2);
    assert_eq!(reported1.len(), 1);
    assert_eq!(reported1[0].0, "b.yml");
}

#[test]
fn test_load_rules_twice_yields_identical_rule_sets() {
    let mk = |fname: &str, id: &str| RuleFile {
        name: fname.to_string(),
        parsed: Some(simple_rule(
            id,
            "sel1",
            vec![(
                "sel1",
                vec![cond(
                    "event_type",
                    "equals",
                    Value::Str("process_start".to_string()),
                )],
            )],
        )),
    };
    let files = || vec![mk("x.yml", "one"), mk("y.yml", "two")];
    let (rs1, errs1) = load_rules(files());
    let (rs2, errs2) = load_rules(files());
    assert_eq!(rs1.rules.len(), rs2.rules.len());
    assert_eq!(errs1.len(), 0);
    assert_eq!(errs2.len(), 0);
    for (a, b) in rs1.rules.iter().zip(rs2.rules.iter()) {
        assert_eq!(a.id, b.id);
        assert_eq!(a.name, b.name);
        assert_eq!(a.severity, b.severity);
        assert_eq!(a.enabled, b.enabled);
        assert_eq!(a.expr, b.expr);
    }
}

#[test]
fn test_alert_json_round_trips_through_a_real_parser() {
    let def = simple_rule(
        "r-json",
        "sel1",
        vec![(
            "sel1",
            vec![cond(
                "event_type",
                "equals",
                Value::Str("process_start".to_string()),
            )],
        )],
    );
    let rules = ruleset(vec![compiled(&def)]);
    let mut metrics = Metrics::new();
    let store = CorrelationStore::Local(LocalCounters::new());
    let event = obj(vec![
        ("event_type", Value::Str("process_start".to_string())),
        ("cmd", Value::Str("say \"hi\"\n\ttab\u{1}".to_string())),
        ("pid", Value::Int(-7)),
        ("tags", Value::Arr(vec![Value::Bool(true), Value::Null])),
        ("tenant_id", Value::Str("acme".to_string())),
    ]);
    let (_store, alerts) = process_event(&event, &rules, store, 0, &mut metrics);
    assert_eq!(alerts.len(), 1);
    let text = detect_core::encode::alert_json(&alerts[0]);
    let doc: serde_json::Value = serde_json::from_str(&text).expect("alert JSON should parse");
    assert_eq!(doc["tenant_id"], "acme");
    assert_eq!(doc["rule_id"], "r-json");
    assert_eq!(doc["severity"], "high");
    assert_eq!(doc["event"]["pid"], -7);
    assert_eq!(doc["event"]["cmd"], "say \"hi\"\n\ttab\u{1}");
    assert_eq!(doc["event"]["tags"][0], true);
    assert!(doc["event"]["tags"][1].is_null());
    assert!(doc.get("correlation_count").is_none());
    assert_eq!(doc["id"].as_str().unwrap().len(), 36);
}

#[test]
fn test_alert_json_carries_correlation_evidence() {
    let rules = ruleset(vec![compiled(&agg_rule("r-ev", "gte", 2, 60))]);
    let mut metrics = Metrics::new();
    let mut store = CorrelationStore::Local(LocalCounters::new());
    let (s2, _a) = process_event(&event_from("10.0.0.9"), &rules, store, 0, &mut metrics);
    store = s2;
    let (_s2, alerts) = process_event(&event_from("10.0.0.9"), &rules, store, 1, &mut metrics);
    assert_eq!(alerts.len(), 1);
    let text = detect_core::encode::alert_json(&alerts[0]);
    let doc: serde_json::Value = serde_json::from_str(&text).expect("alert JSON should parse");
    assert_eq!(doc["correlation_count"], 2);
    assert_eq!(doc["correlation_window_seconds"], 60);
}

#[test]
fn test_repository_reload_swaps_snapshot_whole() {
    let mk = |fname: &str, id: &str| RuleFile {
        name: fname.to_string(),
        parsed: Some(simple_rule(
            id,
            "sel1",
            vec![(
                "sel1",
                vec![cond(
                    "event_type",
                    "equals",
                    Value::Str("process_start".to_string()),
                )],
            )],
        )),
    };
    let (mut repo, errs) = detect_core::repo::Repository::new(vec![mk("a.yml", "one")]);
    assert!(errs.is_empty());
    assert_eq!(repo.snapshot.len(), 1);
    let errs = repo.reload(vec![mk("a.yml", "one"), mk("b.yml", "two")]);
    assert!(errs.is_empty());
    assert_eq!(repo.snapshot.len(), 2);
    let ids: Vec<&str> = repo.snapshot.rules.iter().map(|r| r.id.as_str()).collect();
    assert_eq!(ids, vec!["one", "two"]);
}

#[test]
fn test_metrics_counters_saturate() {
    let mut metrics = Metrics::new();
    metrics.events_processed = u64::MAX;
    metrics.inc_events_processed();
    assert_eq!(metrics.events_processed, u64::MAX);
    metrics.parse_errors = u64::MAX - 1;
    metrics.inc_parse_errors();
    metrics.inc_parse_errors();
    assert_eq!(metrics.parse_errors, u64::MAX);
}
