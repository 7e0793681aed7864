//! The per-event pipeline step: one delivered payload is checked against
//! every enabled rule of the current snapshot, independently; one rule's
//! failure never blocks another rule or the next event. A payload that does
//! not parse is counted and dropped, never fatal. Consuming the partitioned
//! stream and committing offsets is the embedding program's loop; it hands
//! each parsed payload here and publishes the alerts handed back.

use vstd::prelude::*;
use crate::alerts::{Alert, AlertCore, alert_core, alert_cores, build_alert, core_of};
use crate::evaluator::{
    CorrelationEvidence, MatchOutcome, agg_outcome, evaluate_rule, key_of, structural_match,
    threshold_met,
};
use crate::metrics::{Metrics, inc_sat, sat_add};
use crate::repo::RuleSet;
use crate::rules::{RuleModel, rule_model};
use crate::store::{CorrelationStore, CounterModel, entries_model, local_incr};
use crate::value::{ValModel, Value, val_model};

verus! {

/// What processing one event against a rule list does to an embedded
/// counter table: disabled rules are passed over untouched; an enabled rule
/// that matches structurally emits an alert at once or, where it aggregates,
/// counts once and emits only when the window count satisfies the threshold.
pub open spec fn process_rules(
    rules: Seq<RuleModel>,
    ev: ValModel,
    store: Seq<CounterModel>,
    now: u64,
    acc: Seq<AlertCore>,
) -> (Seq<AlertCore>, Seq<CounterModel>)
    decreases rules.len(),
{
    if rules.len() == 0 {
        (acc, store)
    } else {
        let r = rules[0];
        if !r.enabled {
            process_rules(rules.drop_first(), ev, store, now, acc)
        } else if !structural_match(r, ev) {
            process_rules(rules.drop_first(), ev, store, now, acc)
        } else {
            match r.agg {
                None => process_rules(
                    rules.drop_first(),
                    ev,
                    store,
                    now,
                    acc.push(core_of(r, ev, None)),
                ),
                Some(am) => {
                    let (s2, c) = local_incr(store, key_of(r.id, am, ev), am.window_seconds, now);
                    if threshold_met(am.op, c, am.threshold) {
                        process_rules(
                            rules.drop_first(),
                            ev,
                            s2,
                            now,
                            acc.push(
                                core_of(
                                    r,
                                    ev,
                                    Some(
                                        CorrelationEvidence {
                                            count: c,
                                            window_seconds: am.window_seconds,
                                        },
                                    ),
                                ),
                            ),
                        )
                    } else {
                        process_rules(rules.drop_first(), ev, s2, now, acc)
                    }
                },
            }
        }
    }
}

/// Checks one event against every rule of the snapshot, each independently.
///
/// On an embedded counter table the whole step is exact: the alerts and the
/// table afterwards are `process_rules` of the models, and no rule error is
/// counted. On the external store each aggregation answer decides as the
/// evaluator says, an unreachable store is counted as a rule error and fails
/// open, and the handle itself does not change. Either way the alert counter
/// grows by exactly the alerts handed back, and the event and parse counters
/// are untouched — they belong to ingestion.
pub fn process_event(
    event: &Value,
    rules: &RuleSet,
    store: CorrelationStore,
    now: u64,
    metrics: &mut Metrics,
) -> (r: (CorrelationStore, Vec<Alert>))
    ensures
        store matches CorrelationStore::Local(lc) ==> ({
            let (cores, s2) = process_rules(
                rules.model(),
                val_model(*event),
                entries_model(lc.entries@),
                now,
                Seq::empty(),
            );
            &&& r.0 matches CorrelationStore::Local(lc2) && entries_model(lc2.entries@) == s2
            &&& alert_cores(r.1@) == cores
            &&& final(metrics).rule_errors == old(metrics).rule_errors
        }),
        store is Remote ==> r.0 == store,
        final(metrics).events_processed == old(metrics).events_processed,
        final(metrics).parse_errors == old(metrics).parse_errors,
        final(metrics).alerts_generated == sat_add(old(metrics).alerts_generated, r.1@.len()),
        old(metrics).rule_errors <= final(metrics).rule_errors,
        final(metrics).rule_errors <= sat_add(old(metrics).rule_errors, rules.model().len()),
{
    let ghost em = val_model(*event);
    let ghost rm = rules.model();
    let ghost m0 = *metrics;
    let ghost was_local = store is Local;
    let ghost entries0 = if store is Local {
        entries_model(store->Local_0.entries@)
    } else {
        Seq::<CounterModel>::empty()
    };
    let ghost store0 = store;
    let n = rules.rules.len();
    let mut store = store;
    let mut alerts: Vec<Alert> = Vec::new();
    let mut i: usize = 0;
    proof {
        assert(rm.len() == n);
        assert(forall|j: int| 0 <= j < n ==> #[trigger] rm[j] == rule_model(rules.rules@[j]));
        assert(rm.skip(0) =~= rm);
        assert(alert_cores(alerts@) =~= Seq::<AlertCore>::empty());
    }
    while i < n
        invariant
            i <= n,
            n == rules.rules.len(),
            rm == rules.model(),
            rm.len() == n,
            forall|j: int| 0 <= j < n ==> #[trigger] rm[j] == rule_model(rules.rules@[j]),
            em == val_model(*event),
            was_local == (store0 is Local),
            was_local ==> (store matches CorrelationStore::Local(lc) && process_rules(
                rm.skip(i as int),
                em,
                entries_model(lc.entries@),
                now,
                alert_cores(alerts@),
            ) == process_rules(rm, em, entries0, now, Seq::empty())),
            !was_local ==> store == store0,
            was_local ==> metrics.rule_errors == m0.rule_errors,
            metrics.events_processed == m0.events_processed,
            metrics.parse_errors == m0.parse_errors,
            metrics.alerts_generated == sat_add(m0.alerts_generated, alerts@.len()),
            m0.rule_errors <= metrics.rule_errors,
            metrics.rule_errors <= sat_add(m0.rule_errors, i as nat),
        decreases n - i,
    {
        proof {
            assert(rm.skip(i as int)[0] == rm[i as int]);
            assert(rm.skip(i as int).drop_first() =~= rm.skip(i + 1));
        }
        let rule = &rules.rules[i];
        if rule.enabled {
            let ghost pre_alerts = alerts@;
            let ghost pre_store = store;
            let (s2, res) = evaluate_rule(rule, event, store, now);
            store = s2;
            match res {
                Ok(MatchOutcome::Match { evidence }) => {
                    let alert = build_alert(rule, event, evidence);
                    alerts.push(alert);
                    metrics.inc_alerts_generated();
                    proof {
                        assert(alert_cores(alerts@) =~= alert_cores(pre_alerts).push(
                            alert_core(alert),
                        ));
                    }
                },
                Ok(MatchOutcome::NoMatch) => {},
                Err(_) => {
                    metrics.inc_rule_errors();
                },
            }
        }
        i = i + 1;
    }
    proof {
        assert(rm.skip(n as int) =~= Seq::<RuleModel>::empty());
    }
    (store, alerts)
}

/// One delivered payload, already deserialized at the ingestion boundary:
/// `None` stands for a payload that was not a well-formed event. The event
/// counter always grows by one; a malformed payload grows the parse-error
/// counter, drops the payload, and touches neither the store nor a rule;
/// a well-formed event is checked against every enabled rule as
/// `process_event` says.
pub fn ingest_event(
    parsed: Option<Value>,
    rules: &RuleSet,
    store: CorrelationStore,
    now: u64,
    metrics: &mut Metrics,
) -> (r: (CorrelationStore, Vec<Alert>))
    ensures
        final(metrics).events_processed == inc_sat(old(metrics).events_processed),
        parsed is None ==> r.0 == store && r.1@.len() == 0 && *final(metrics) == (Metrics {
            events_processed: inc_sat(old(metrics).events_processed),
            parse_errors: inc_sat(old(metrics).parse_errors),
            ..*old(metrics)
        }),
        parsed matches Some(ev) ==> {
            &&& final(metrics).parse_errors == old(metrics).parse_errors
            &&& (store matches CorrelationStore::Local(lc) ==> ({
                let (cores, s2) = process_rules(
                    rules.model(),
                    val_model(ev),
                    entries_model(lc.entries@),
                    now,
                    Seq::empty(),
                );
                &&& r.0 matches CorrelationStore::Local(lc2) && entries_model(lc2.entries@) == s2
                &&& alert_cores(r.1@) == cores
                &&& final(metrics).rule_errors == old(metrics).rule_errors
            }))
            &&& (store is Remote ==> r.0 == store)
            &&& final(metrics).alerts_generated == sat_add(
                old(metrics).alerts_generated,
                r.1@.len(),
            )
            &&& old(metrics).rule_errors <= final(metrics).rule_errors
            &&& final(metrics).rule_errors <= sat_add(
                old(metrics).rule_errors,
                rules.model().len(),
            )
        },
{
    metrics.inc_events_processed();
    match parsed {
        None => {
            metrics.inc_parse_errors();
            (store, Vec::new())
        },
        Some(event) => process_event(&event, rules, store, now, metrics),
    }
}

} // verus!
