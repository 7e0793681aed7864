//! Alerts: what a matched rule emits. An alert snapshots the triggering
//! event, carries the rule's identity and severity, and — for aggregation
//! rules — the correlation evidence. Publishing keys the outbound record by
//! tenant id, so one tenant's alerts keep their order downstream.

use vstd::prelude::*;
use crate::evaluator::{CorrelationEvidence, tenant_of};
use crate::rules::{Rule, Severity, rule_model};
use crate::value::{ValModel, Value, get_path, path_view, val_model};

verus! {

/// Relies on uuid::Uuid::new_v4 and its hyphenated rendering: the id is
/// random, and the text form is always 36 characters.
#[verifier::external_body]
pub(crate) fn new_alert_id() -> (r: String)
    ensures
        r@.len() == 36,
{
    uuid::Uuid::new_v4().to_string()
}

/// Relies on chrono's Utc::now and to_rfc3339: the current wall-clock time,
/// rendered; nothing is assumed of its value.
#[verifier::external_body]
pub(crate) fn now_rfc3339() -> String {
    chrono::Utc::now().to_rfc3339()
}

/// An alert: the matched rule's identity and severity, the tenant, the
/// triggering event, the correlation evidence where the rule aggregates,
/// and the fresh id and timestamp it was minted with.
#[derive(Debug, PartialEq)]
pub struct Alert {
    pub id: String,
    pub tenant_id: String,
    pub rule_id: String,
    pub rule_name: String,
    pub severity: Severity,
    pub event: Value,
    pub correlation: Option<CorrelationEvidence>,
    pub timestamp: String,
}

/// What an alert says, minus its minted id and timestamp: everything the
/// match determines.
pub struct AlertCore {
    pub tenant: Seq<char>,
    pub rule_id: Seq<char>,
    pub rule_name: Seq<char>,
    pub severity: Severity,
    pub event: ValModel,
    pub correlation: Option<CorrelationEvidence>,
}

pub open spec fn alert_core(a: Alert) -> AlertCore {
    AlertCore {
        tenant: a.tenant_id@,
        rule_id: a.rule_id@,
        rule_name: a.rule_name@,
        severity: a.severity,
        event: val_model(a.event),
        correlation: a.correlation,
    }
}

pub open spec fn alert_cores(s: Seq<Alert>) -> Seq<AlertCore> {
    s.map_values(|a: Alert| alert_core(a))
}

/// The alert a rule owes for an event it matched: tenant-scoped, with the
/// event snapshotted whole.
pub open spec fn core_of(r: crate::rules::RuleModel, ev: ValModel, correlation: Option<
    CorrelationEvidence,
>) -> AlertCore {
    AlertCore {
        tenant: tenant_of(ev),
        rule_id: r.id,
        rule_name: r.name,
        severity: r.severity,
        event: ev,
        correlation,
    }
}

/// The event's tenant as an owned string, as `tenant_of` says.
pub fn tenant_string(event: &Value) -> (r: String)
    ensures
        r@ == tenant_of(val_model(*event)),
{
    let mut tpath: Vec<String> = Vec::new();
    tpath.push(String::from_str("tenant_id"));
    proof {
        assert(path_view(tpath@) =~= seq!["tenant_id"@]);
    }
    match get_path(event, &tpath) {
        Some(v) => {
            match v.as_str() {
                Some(s) => s.clone(),
                None => String::from_str("default"),
            }
        },
        None => String::from_str("default"),
    }
}

/// Builds the alert a matched rule owes for an event: a fresh id and
/// timestamp, and otherwise exactly `core_of`.
pub fn build_alert(rule: &Rule, event: &Value, correlation: Option<CorrelationEvidence>) -> (a:
    Alert)
    ensures
        alert_core(a) == core_of(rule_model(*rule), val_model(*event), correlation),
{
    Alert {
        id: new_alert_id(),
        tenant_id: tenant_string(event),
        rule_id: rule.id.clone(),
        rule_name: rule.name.clone(),
        severity: rule.severity,
        event: event.duplicate(),
        correlation,
        timestamp: now_rfc3339(),
    }
}

impl Alert {
    /// The outbound partition key: the tenant, so one tenant's alerts land
    /// on one partition and keep their order.
    pub fn partition_key(&self) -> (k: &String)
        ensures
            k@ == self.tenant_id@,
    {
        &self.tenant_id
    }
}

} // verus!
