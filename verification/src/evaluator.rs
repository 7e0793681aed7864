//! The condition evaluator: one rule's boolean expression against one event,
//! consulting the correlation store for aggregation rules. A missing field
//! never satisfies a condition; numeric operators on non-numeric values are
//! false, not errors. Without an aggregation block, evaluation is a pure
//! function of the rule and the event and never touches the store; with one,
//! a structural match makes exactly one atomic increment-with-window round
//! trip, and an unreachable store fails open.

use vstd::prelude::*;
use crate::expr::eval_node;
use crate::pattern::{regex_is_match, regex_match};
use crate::rules::{
    AggModel, AggOp, Aggregation, CompiledCondition, CondModel, CondOpModel, CondOp, Condition,
    Rule, RuleModel, SelModel, Selection, agg_model, compile_cond, compile_cond_spec, cond_model,
    cond_raw, conds_model, rule_model, sel_model, sels_model,
};
use crate::store::{CorrelationStore, StoreError, entries_model, local_incr};
use crate::text::{contains_seq, dec_i64, i64_to_string, push_char, split_path, split_path_str, str_contains};
use crate::value::{
    ValModel, Value, get_path, m_lookup, path_view, val_model, vals_model, value_eq,
    lemma_vals_model_index,
};

verus! {

/// `v` is one of the values in `vs`.
pub open spec fn val_in(vs: Seq<ValModel>, v: ValModel) -> bool {
    exists|i: int| 0 <= i < vs.len() && vs[i] == v
}

/// Whether one compiled condition holds of an event. The dotted path is
/// looked up first: a missing field satisfies no operator. `equals` compares
/// whole values; `contains` and `regex` apply to strings, `gt` and `lt` to
/// integers, `in` to membership in the operand list; a value of any other
/// shape makes the condition false, never an error.
pub open spec fn cond_matches(c: CondModel, ev: ValModel) -> bool {
    match m_lookup(ev, c.path) {
        None => false,
        Some(v) => match c.op {
            CondOpModel::Equals(w) => v == w,
            CondOpModel::Contains(sub) => v matches ValModel::Str(s) && contains_seq(s, sub),
            CondOpModel::Regex(p) => v matches ValModel::Str(s) && regex_match(p, s),
            CondOpModel::Gt(n) => v matches ValModel::Int(m) && m > n,
            CondOpModel::Lt(n) => v matches ValModel::Int(m) && m < n,
            CondOpModel::In(ws) => val_in(ws, v),
        },
    }
}

/// A selection matches iff every one of its conditions matches.
pub open spec fn sel_matches(s: SelModel, ev: ValModel) -> bool {
    forall|i: int| 0 <= i < s.conds.len() ==> cond_matches(#[trigger] s.conds[i], ev)
}

/// The per-event truth value of each selection, in order.
pub open spec fn sel_values(sels: Seq<SelModel>, ev: ValModel) -> Seq<bool> {
    sels.map_values(|s: SelModel| sel_matches(s, ev))
}

/// Whether the rule's condition expression holds of the event: the compiled
/// expression tree, evaluated over the selections' truth values.
pub open spec fn structural_match(r: RuleModel, ev: ValModel) -> bool {
    eval_node(r.nodes, r.root as int, sel_values(r.selections, ev))
}

/// Whether a window count satisfies the aggregation comparison.
pub open spec fn threshold_met(op: AggOp, count: i64, threshold: i64) -> bool {
    match op {
        AggOp::Exactly => count == threshold,
        AggOp::Above => count > threshold,
        AggOp::AtLeast => count >= threshold,
        AggOp::Below => count < threshold,
        AggOp::AtMost => count <= threshold,
    }
}

/// What a correlated match carries: the window count that crossed the
/// threshold, and the window it was counted in.
#[derive(Debug, PartialEq, Clone, Copy)]
pub struct CorrelationEvidence {
    pub count: i64,
    pub window_seconds: u64,
}

/// The outcome of evaluating one rule against one event.
#[derive(Debug, PartialEq, Clone, Copy)]
pub enum MatchOutcome {
    NoMatch,
    Match { evidence: Option<CorrelationEvidence> },
}

/// The outcome an aggregation rule owes for a given window count.
pub open spec fn agg_outcome(am: AggModel, count: i64) -> MatchOutcome {
    if threshold_met(am.op, count, am.threshold) {
        MatchOutcome::Match {
            evidence: Some(CorrelationEvidence { count, window_seconds: am.window_seconds }),
        }
    } else {
        MatchOutcome::NoMatch
    }
}

// ---------------------------------------------------------------------------
// Correlation keys.
// ---------------------------------------------------------------------------

/// The event's tenant: its `tenant_id` field when that is a string, else the
/// default tenant. Keys are always tenant-scoped, so one tenant's counters
/// can never serve another's.
pub open spec fn tenant_of(ev: ValModel) -> Seq<char> {
    match m_lookup(ev, seq!["tenant_id"@]) {
        Some(v) => match v {
            ValModel::Str(s) => s,
            _ => "default"@,
        },
        None => "default"@,
    }
}

/// A group-by value as key text: strings themselves, integers in decimal,
/// booleans and null by name; a missing field, an array or an object add
/// nothing but keep their separator, so the key's shape stays fixed.
pub open spec fn scalar_text(v: ValModel) -> Seq<char> {
    match v {
        ValModel::Str(s) => s,
        ValModel::Int(n) => dec_i64(n as int),
        ValModel::Bool(b) => if b {
            "true"@
        } else {
            "false"@
        },
        ValModel::Null => "null"@,
        _ => Seq::empty(),
    }
}

/// The group-by part of a correlation key: one `:`-led part per field.
pub open spec fn key_group_part(group_by: Seq<Seq<char>>, ev: ValModel) -> Seq<char>
    decreases group_by.len(),
{
    if group_by.len() == 0 {
        Seq::empty()
    } else {
        seq![':'] + (match m_lookup(ev, split_path(group_by[0])) {
            Some(v) => scalar_text(v),
            None => Seq::empty(),
        }) + key_group_part(group_by.drop_first(), ev)
    }
}

/// The correlation key of (rule, tenant, group-by values).
pub open spec fn key_of(rule_id: Seq<char>, am: AggModel, ev: ValModel) -> Seq<char> {
    "corr:"@ + rule_id + seq![':'] + tenant_of(ev) + key_group_part(am.group_by, ev)
}

// ---------------------------------------------------------------------------
// Executable evaluation.
// ---------------------------------------------------------------------------

fn val_in_list(vs: &Vec<Value>, v: &Value) -> (r: bool)
    ensures
        r == val_in(vals_model(vs@), val_model(*v)),
{
    proof {
        lemma_vals_model_index(vs@);
    }
    let n = vs.len();
    let mut i: usize = 0;
    while i < n
        invariant
            i <= n,
            n == vs.len(),
            vals_model(vs@).len() == n,
            forall|j: int| 0 <= j < n ==> #[trigger] vals_model(vs@)[j] == val_model(vs@[j]),
            forall|j: int| 0 <= j < i ==> vals_model(vs@)[j] != val_model(*v),
        decreases n - i,
    {
        if value_eq(&vs[i], v) {
            assert(vals_model(vs@)[i as int] == val_model(*v));
            return true;
        }
        i = i + 1;
    }
    false
}

/// Decides one compiled condition against an event, as `cond_matches` says.
pub fn eval_compiled_cond(c: &CompiledCondition, event: &Value) -> (r: bool)
    ensures
        r == cond_matches(cond_model(*c), val_model(*event)),
{
    match get_path(event, &c.path) {
        None => false,
        Some(v) => {
            match &c.op {
                CondOp::Equals(w) => value_eq(v, w),
                CondOp::Contains(sub) => {
                    match v.as_str() {
                        Some(s) => str_contains(s.as_str(), sub.as_str()),
                        None => false,
                    }
                },
                CondOp::Regex(re) => {
                    match v.as_str() {
                        Some(s) => regex_is_match(re, s.as_str()),
                        None => false,
                    }
                },
                CondOp::Gt(n) => {
                    match v.as_int() {
                        Some(m) => m > *n,
                        None => false,
                    }
                },
                CondOp::Lt(n) => {
                    match v.as_int() {
                        Some(m) => m < *n,
                        None => false,
                    }
                },
                CondOp::In(ws) => val_in_list(ws, v),
            }
        },
    }
}

/// Decides one raw condition against an event: what `cond_matches` says of
/// its compiled form, and false where the condition does not compile — an
/// unknown operator, a mistyped operand or a bad pattern matches nothing.
pub fn evaluate_condition(c: &Condition, event: &Value) -> (r: bool)
    ensures
        r == match compile_cond_spec(cond_raw(*c)) {
            Ok(cm) => cond_matches(cm, val_model(*event)),
            Err(_) => false,
        },
{
    match compile_cond(c) {
        Ok(cc) => eval_compiled_cond(&cc, event),
        Err(_) => false,
    }
}

/// Decides one selection against an event, as `sel_matches` says.
pub fn evaluate_selection(sel: &Selection, event: &Value) -> (r: bool)
    ensures
        r == sel_matches(sel_model(*sel), val_model(*event)),
{
    let n = sel.conds.len();
    let mut i: usize = 0;
    proof {
        assert(forall|j: int|
            0 <= j < n ==> #[trigger] conds_model(sel.conds@)[j] == cond_model(sel.conds@[j]));
    }
    while i < n
        invariant
            i <= n,
            n == sel.conds.len(),
            conds_model(sel.conds@).len() == n,
            forall|j: int|
                0 <= j < n ==> #[trigger] conds_model(sel.conds@)[j] == cond_model(sel.conds@[j]),
            forall|j: int|
                0 <= j < i ==> cond_matches(
                    #[trigger] conds_model(sel.conds@)[j],
                    val_model(*event),
                ),
        decreases n - i,
    {
        if !eval_compiled_cond(&sel.conds[i], event) {
            proof {
                assert(sel_model(*sel).conds == conds_model(sel.conds@));
                assert(!cond_matches(sel_model(*sel).conds[i as int], val_model(*event)));
            }
            return false;
        }
        i = i + 1;
    }
    true
}

/// Decides a rule's condition expression against an event: the structural
/// match, with no correlation yet, as `structural_match` says.
pub fn evaluate_structural(rule: &Rule, event: &Value) -> (r: bool)
    ensures
        r == structural_match(rule_model(*rule), val_model(*event)),
{
    let n = rule.selections.len();
    let mut vals: Vec<bool> = Vec::new();
    let mut i: usize = 0;
    proof {
        assert(forall|j: int|
            0 <= j < n ==> #[trigger] sels_model(rule.selections@)[j] == sel_model(
                rule.selections@[j],
            ));
    }
    while i < n
        invariant
            i <= n,
            n == rule.selections.len(),
            sels_model(rule.selections@).len() == n,
            forall|j: int|
                0 <= j < n ==> #[trigger] sels_model(rule.selections@)[j] == sel_model(
                    rule.selections@[j],
                ),
            vals@.len() == i,
            forall|j: int|
                0 <= j < i ==> vals@[j] == sel_matches(
                    #[trigger] sels_model(rule.selections@)[j],
                    val_model(*event),
                ),
        decreases n - i,
    {
        let b = evaluate_selection(&rule.selections[i], event);
        vals.push(b);
        i = i + 1;
    }
    proof {
        assert(vals@ =~= sel_values(sels_model(rule.selections@), val_model(*event)));
    }
    rule.expr.eval(&vals)
}

/// Decides a window count against the aggregation comparison, as
/// `threshold_met` says.
pub fn check_threshold(op: AggOp, count: i64, threshold: i64) -> (r: bool)
    ensures
        r == threshold_met(op, count, threshold),
{
    match op {
        AggOp::Exactly => count == threshold,
        AggOp::Above => count > threshold,
        AggOp::AtLeast => count >= threshold,
        AggOp::Below => count < threshold,
        AggOp::AtMost => count <= threshold,
    }
}

/// The final outcome an aggregation rule owes for a given window count, as
/// `agg_outcome` says — exact for every count the store can answer.
pub fn decide_aggregation(agg: &Aggregation, count: i64) -> (r: MatchOutcome)
    ensures
        r == agg_outcome(agg_model(*agg), count),
{
    if check_threshold(agg.op, count, agg.threshold) {
        MatchOutcome::Match {
            evidence: Some(
                CorrelationEvidence { count, window_seconds: agg.window_seconds },
            ),
        }
    } else {
        MatchOutcome::NoMatch
    }
}

/// A group-by value as key text, as `scalar_text` says.
fn scalar_string(v: &Value) -> (r: String)
    ensures
        r@ == scalar_text(val_model(*v)),
{
    match v {
        Value::Str(s) => s.clone(),
        Value::Int(n) => i64_to_string(*n),
        Value::Bool(b) => {
            if *b {
                String::from_str("true")
            } else {
                String::from_str("false")
            }
        },
        Value::Null => String::from_str("null"),
        _ => String::new(),
    }
}

/// Builds the correlation key of (rule, tenant, group-by values), as
/// `key_of` says.
pub fn build_correlation_key(rule_id: &str, agg: &Aggregation, event: &Value) -> (k: String)
    ensures
        k@ == key_of(rule_id@, agg_model(*agg), val_model(*event)),
{
    let mut k = String::from_str("corr:");
    k.append(rule_id);
    push_char(&mut k, ':');
    let mut tpath: Vec<String> = Vec::new();
    tpath.push(String::from_str("tenant_id"));
    proof {
        assert(path_view(tpath@) =~= seq!["tenant_id"@]);
    }
    match get_path(event, &tpath) {
        Some(v) => {
            match v.as_str() {
                Some(s) => k.append(s.as_str()),
                None => k.append("default"),
            }
        },
        None => k.append("default"),
    }
    let ghost prefix = k@;
    proof {
        assert(prefix == "corr:"@ + rule_id@ + seq![':'] + tenant_of(val_model(*event)));
    }
    let gb = &agg.group_by;
    let n = gb.len();
    let ghost gbv = path_view(gb@);
    let mut i: usize = 0;
    proof {
        assert(gbv.skip(0) =~= gbv);
    }
    while i < n
        invariant
            i <= n,
            n == gb.len(),
            gbv == path_view(gb@),
            gbv.len() == n,
            key_of(rule_id@, agg_model(*agg), val_model(*event)) == k@ + key_group_part(
                gbv.skip(i as int),
                val_model(*event),
            ),
        decreases n - i,
    {
        proof {
            assert(gbv.skip(i as int)[0] == gb@[i as int]@);
            assert(gbv.skip(i as int).drop_first() =~= gbv.skip(i + 1));
        }
        push_char(&mut k, ':');
        let path = split_path_str(gb[i].as_str());
        match get_path(event, &path) {
            Some(v) => {
                let part = scalar_string(v);
                k.append(part.as_str());
            },
            None => {},
        }
        i = i + 1;
    }
    proof {
        assert(key_group_part(gbv.skip(n as int), val_model(*event)) == Seq::<char>::empty());
        assert(k@ + Seq::<char>::empty() =~= k@);
    }
    k
}

/// Evaluates one rule against one event, counting in `store` where the rule
/// aggregates.
///
/// Without an aggregation block the outcome is a pure function of the rule
/// and the event, and the store is not touched. With one, a structural match
/// makes exactly one atomic increment-with-window round trip, keyed by
/// (rule, tenant, group-by values): on the embedded table the outcome is
/// exact; on the external service the answered count decides as
/// `agg_outcome` says, and an unreachable service surfaces as the error the
/// caller fails open on.
pub fn evaluate_rule(rule: &Rule, event: &Value, store: CorrelationStore, now: u64) -> (r: (
    CorrelationStore,
    Result<MatchOutcome, StoreError>,
))
    ensures
        !structural_match(rule_model(*rule), val_model(*event)) ==> r == (
            store,
            Ok::<MatchOutcome, StoreError>(MatchOutcome::NoMatch),
        ),
        rule.aggregation is None && structural_match(rule_model(*rule), val_model(*event)) ==> r
            == (store, Ok::<MatchOutcome, StoreError>(MatchOutcome::Match { evidence: None })),
        rule.aggregation matches Some(agg) ==> structural_match(
            rule_model(*rule),
            val_model(*event),
        ) ==> {
            let am = agg_model(agg);
            let key = key_of(rule.id@, am, val_model(*event));
            &&& (store matches CorrelationStore::Local(lc) ==> {
                let (s2, c) = local_incr(
                    entries_model(lc.entries@),
                    key,
                    am.window_seconds,
                    now,
                );
                &&& r.0 matches CorrelationStore::Local(lc2) && entries_model(lc2.entries@) == s2
                &&& r.1 == Ok::<MatchOutcome, StoreError>(agg_outcome(am, c))
            })
            &&& (store is Remote ==> r.0 == store && match r.1 {
                Ok(o) => exists|c: i64| o == agg_outcome(am, c),
                Err(_) => true,
            })
        },
{
    let structural = evaluate_structural(rule, event);
    if !structural {
        return (store, Ok(MatchOutcome::NoMatch));
    }
    match &rule.aggregation {
        None => (store, Ok(MatchOutcome::Match { evidence: None })),
        Some(agg) => {
            let key = build_correlation_key(rule.id.as_str(), agg, event);
            let (store2, res) = store.increment_windowed(key.as_str(), agg.window_seconds, now);
            match res {
                Err(e) => (store2, Err(e)),
                Ok(count) => {
                    let outcome = decide_aggregation(agg, count);
                    (store2, Ok(outcome))
                },
            }
        },
    }
}

} // verus!
