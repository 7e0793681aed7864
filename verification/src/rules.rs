//! Rule definitions as rule files give them, compiled rules as the engine
//! evaluates them, and the validation that turns the one into the other.
//! Compilation is specified exactly: what a definition compiles to, and on
//! which definitions it fails with which error, is a function of the
//! definition alone.

use vstd::prelude::*;
use crate::expr::{CondExpr, ExprNode, compile_condition, sp_parse, spec_tokenize};
use crate::pattern::{regex_accepts, regex_new, regex_source};
use crate::text::{split_path, split_path_str};
use crate::value::{ValModel, Value, path_view, str_eq, val_model, vals_model, lemma_vals_model_index};

verus! {

/// Severity of a rule.
#[derive(Debug, PartialEq, Eq, Structural, Clone, Copy)]
pub enum Severity {
    Low,
    Medium,
    High,
    Critical,
}

/// One field condition of a selection, as a rule file states it: a dotted
/// field path, an operator name, and an operand value.
#[derive(Debug, PartialEq)]
pub struct Condition {
    pub field: String,
    pub operator: String,
    pub value: Value,
}

/// The detection block of a rule file: named selections, each a list of
/// conditions combined by `and`, and a boolean condition text over the
/// selection names.
#[derive(Debug, PartialEq)]
pub struct Detection {
    pub selections: Vec<(String, Vec<Condition>)>,
    pub condition: String,
}

/// An aggregation block of a rule file: count matches per key over a time
/// window and compare against a threshold.
#[derive(Debug, PartialEq)]
pub struct AggSpec {
    pub group_by: Vec<String>,
    pub operator: String,
    pub threshold: i64,
    pub window_seconds: u64,
}

/// A rule definition, as read from one rule file.
#[derive(Debug, PartialEq)]
pub struct SigmaRule {
    pub id: String,
    pub name: String,
    pub description: Option<String>,
    pub severity: String,
    pub enabled: bool,
    pub detection: Detection,
    pub aggregation: Option<AggSpec>,
    pub tags: Vec<String>,
    pub mitre_attack: Vec<String>,
}

// ---------------------------------------------------------------------------
// Models of the raw definitions.
// ---------------------------------------------------------------------------

pub struct CondRaw {
    pub field: Seq<char>,
    pub operator: Seq<char>,
    pub value: ValModel,
}

pub struct DetectionRaw {
    pub selections: Seq<(Seq<char>, Seq<CondRaw>)>,
    pub condition: Seq<char>,
}

pub struct AggRaw {
    pub group_by: Seq<Seq<char>>,
    pub operator: Seq<char>,
    pub threshold: i64,
    pub window_seconds: u64,
}

pub struct RuleRaw {
    pub id: Seq<char>,
    pub name: Seq<char>,
    pub severity: Seq<char>,
    pub enabled: bool,
    pub detection: DetectionRaw,
    pub aggregation: Option<AggRaw>,
    pub tags: Seq<Seq<char>>,
    pub mitre: Seq<Seq<char>>,
}

pub open spec fn cond_raw(c: Condition) -> CondRaw {
    CondRaw { field: c.field@, operator: c.operator@, value: val_model(c.value) }
}

pub open spec fn conds_raw(cs: Seq<Condition>) -> Seq<CondRaw> {
    cs.map_values(|c: Condition| cond_raw(c))
}

pub open spec fn sels_raw(sels: Seq<(String, Vec<Condition>)>) -> Seq<(Seq<char>, Seq<CondRaw>)> {
    sels.map_values(|p: (String, Vec<Condition>)| (p.0@, conds_raw(p.1@)))
}

pub open spec fn agg_raw(a: AggSpec) -> AggRaw {
    AggRaw {
        group_by: path_view(a.group_by@),
        operator: a.operator@,
        threshold: a.threshold,
        window_seconds: a.window_seconds,
    }
}

/// The model of a rule definition. The description is free text with no
/// bearing on evaluation, so the model leaves it out.
pub open spec fn rule_raw(r: SigmaRule) -> RuleRaw {
    RuleRaw {
        id: r.id@,
        name: r.name@,
        severity: r.severity@,
        enabled: r.enabled,
        detection: DetectionRaw {
            selections: sels_raw(r.detection.selections@),
            condition: r.detection.condition@,
        },
        aggregation: match r.aggregation {
            Some(a) => Some(agg_raw(a)),
            None => None,
        },
        tags: path_view(r.tags@),
        mitre: path_view(r.mitre_attack@),
    }
}

// ---------------------------------------------------------------------------
// Compiled rules.
// ---------------------------------------------------------------------------

/// A compiled condition operator, operand included. Regular expressions are
/// compiled here, once, at load time.
pub enum CondOp {
    Equals(Value),
    Contains(String),
    Regex(regex::Regex),
    Gt(i64),
    Lt(i64),
    In(Vec<Value>),
}

/// A compiled condition: the split field path and the operator.
pub struct CompiledCondition {
    pub path: Vec<String>,
    pub op: CondOp,
}

/// A compiled selection: its name and its conditions, all of which must hold.
pub struct Selection {
    pub name: String,
    pub conds: Vec<CompiledCondition>,
}

/// How an aggregation compares the window count to the threshold.
#[derive(Debug, PartialEq, Eq, Structural, Clone, Copy)]
pub enum AggOp {
    Exactly,
    Above,
    AtLeast,
    Below,
    AtMost,
}

/// A compiled aggregation: group-by fields, comparison, threshold, window.
pub struct Aggregation {
    pub group_by: Vec<String>,
    pub op: AggOp,
    pub threshold: i64,
    pub window_seconds: u64,
}

/// A compiled rule: immutable once built, evaluated against events.
pub struct Rule {
    pub id: String,
    pub name: String,
    pub severity: Severity,
    pub enabled: bool,
    pub selections: Vec<Selection>,
    pub expr: CondExpr,
    pub aggregation: Option<Aggregation>,
    pub tags: Vec<String>,
    pub mitre_attack: Vec<String>,
}

// ---------------------------------------------------------------------------
// Models of the compiled rules.
// ---------------------------------------------------------------------------

pub enum CondOpModel {
    Equals(ValModel),
    Contains(Seq<char>),
    Regex(Seq<char>),
    Gt(i64),
    Lt(i64),
    In(Seq<ValModel>),
}

pub struct CondModel {
    pub path: Seq<Seq<char>>,
    pub op: CondOpModel,
}

pub struct SelModel {
    pub name: Seq<char>,
    pub conds: Seq<CondModel>,
}

pub struct AggModel {
    pub group_by: Seq<Seq<char>>,
    pub op: AggOp,
    pub threshold: i64,
    pub window_seconds: u64,
}

pub struct RuleModel {
    pub id: Seq<char>,
    pub name: Seq<char>,
    pub severity: Severity,
    pub enabled: bool,
    pub selections: Seq<SelModel>,
    pub nodes: Seq<ExprNode>,
    pub root: usize,
    pub agg: Option<AggModel>,
    pub tags: Seq<Seq<char>>,
    pub mitre: Seq<Seq<char>>,
}

pub open spec fn cond_op_model(op: CondOp) -> CondOpModel {
    match op {
        CondOp::Equals(v) => CondOpModel::Equals(val_model(v)),
        CondOp::Contains(s) => CondOpModel::Contains(s@),
        CondOp::Regex(re) => CondOpModel::Regex(regex_source(re)),
        CondOp::Gt(n) => CondOpModel::Gt(n),
        CondOp::Lt(n) => CondOpModel::Lt(n),
        CondOp::In(vs) => CondOpModel::In(vals_model(vs@)),
    }
}

pub open spec fn cond_model(c: CompiledCondition) -> CondModel {
    CondModel { path: path_view(c.path@), op: cond_op_model(c.op) }
}

pub open spec fn conds_model(cs: Seq<CompiledCondition>) -> Seq<CondModel> {
    cs.map_values(|c: CompiledCondition| cond_model(c))
}

pub open spec fn sel_model(s: Selection) -> SelModel {
    SelModel { name: s.name@, conds: conds_model(s.conds@) }
}

pub open spec fn sels_model(ss: Seq<Selection>) -> Seq<SelModel> {
    ss.map_values(|s: Selection| sel_model(s))
}

pub open spec fn agg_model(a: Aggregation) -> AggModel {
    AggModel {
        group_by: path_view(a.group_by@),
        op: a.op,
        threshold: a.threshold,
        window_seconds: a.window_seconds,
    }
}

pub open spec fn rule_model(r: Rule) -> RuleModel {
    RuleModel {
        id: r.id@,
        name: r.name@,
        severity: r.severity,
        enabled: r.enabled,
        selections: sels_model(r.selections@),
        nodes: r.expr.nodes@,
        root: r.expr.root,
        agg: match r.aggregation {
            Some(a) => Some(agg_model(a)),
            None => None,
        },
        tags: path_view(r.tags@),
        mitre: path_view(r.mitre_attack@),
    }
}

// ---------------------------------------------------------------------------
// Validation and compilation, specified exactly.
// ---------------------------------------------------------------------------

/// Why one rule definition was rejected.
#[derive(Debug, PartialEq, Eq, Structural, Clone, Copy)]
pub enum RuleErrorKind {
    /// The severity is none of low, medium, high, critical.
    BadSeverity,
    /// A condition names an operator the engine does not know.
    UnknownOperator,
    /// A condition's operand has the wrong type for its operator.
    OperandType,
    /// A regex condition's pattern does not compile.
    BadPattern,
    /// The condition text does not parse over the rule's selection names.
    BadCondition,
    /// The aggregation block names no group-by field.
    EmptyGroupBy,
    /// The aggregation threshold is not positive.
    BadThreshold,
    /// The aggregation window is not positive.
    BadWindow,
    /// The aggregation operator is none of eq, gt, gte, lt, lte.
    BadAggOperator,
    /// Another rule file already claimed this rule id.
    DuplicateId,
    /// The file could not be read as a rule definition at all.
    Unparsable,
}

pub open spec fn sev_of(s: Seq<char>) -> Option<Severity> {
    if s == "low"@ {
        Some(Severity::Low)
    } else if s == "medium"@ {
        Some(Severity::Medium)
    } else if s == "high"@ {
        Some(Severity::High)
    } else if s == "critical"@ {
        Some(Severity::Critical)
    } else {
        None
    }
}

pub open spec fn agg_op_of(s: Seq<char>) -> Option<AggOp> {
    if s == "eq"@ {
        Some(AggOp::Exactly)
    } else if s == "gt"@ {
        Some(AggOp::Above)
    } else if s == "gte"@ {
        Some(AggOp::AtLeast)
    } else if s == "lt"@ {
        Some(AggOp::Below)
    } else if s == "lte"@ {
        Some(AggOp::AtMost)
    } else {
        None
    }
}

/// What one raw condition compiles to: operator and operand type must agree,
/// and a regex pattern must compile.
pub open spec fn compile_cond_spec(c: CondRaw) -> Result<CondModel, RuleErrorKind> {
    let path = split_path(c.field);
    if c.operator == "equals"@ {
        Ok(CondModel { path, op: CondOpModel::Equals(c.value) })
    } else if c.operator == "contains"@ {
        match c.value {
            ValModel::Str(s) => Ok(CondModel { path, op: CondOpModel::Contains(s) }),
            _ => Err(RuleErrorKind::OperandType),
        }
    } else if c.operator == "regex"@ {
        match c.value {
            ValModel::Str(p) => if regex_accepts(p) {
                Ok(CondModel { path, op: CondOpModel::Regex(p) })
            } else {
                Err(RuleErrorKind::BadPattern)
            },
            _ => Err(RuleErrorKind::OperandType),
        }
    } else if c.operator == "gt"@ {
        match c.value {
            ValModel::Int(n) => Ok(CondModel { path, op: CondOpModel::Gt(n) }),
            _ => Err(RuleErrorKind::OperandType),
        }
    } else if c.operator == "lt"@ {
        match c.value {
            ValModel::Int(n) => Ok(CondModel { path, op: CondOpModel::Lt(n) }),
            _ => Err(RuleErrorKind::OperandType),
        }
    } else if c.operator == "in"@ {
        match c.value {
            ValModel::Arr(vs) => Ok(CondModel { path, op: CondOpModel::In(vs) }),
            _ => Err(RuleErrorKind::OperandType),
        }
    } else {
        Err(RuleErrorKind::UnknownOperator)
    }
}

/// Compiles a selection's conditions left to right; the first error wins.
pub open spec fn compile_conds_spec(cs: Seq<CondRaw>) -> Result<Seq<CondModel>, RuleErrorKind>
    decreases cs.len(),
{
    if cs.len() == 0 {
        Ok(Seq::empty())
    } else {
        match compile_cond_spec(cs[0]) {
            Ok(c) => match compile_conds_spec(cs.drop_first()) {
                Ok(rest) => Ok(seq![c] + rest),
                Err(e) => Err(e),
            },
            Err(e) => Err(e),
        }
    }
}

/// Compiles the selections in order; the first error wins.
pub open spec fn compile_sels_spec(sels: Seq<(Seq<char>, Seq<CondRaw>)>) -> Result<
    Seq<SelModel>,
    RuleErrorKind,
>
    decreases sels.len(),
{
    if sels.len() == 0 {
        Ok(Seq::empty())
    } else {
        match compile_conds_spec(sels[0].1) {
            Ok(cs) => match compile_sels_spec(sels.drop_first()) {
                Ok(rest) => Ok(seq![SelModel { name: sels[0].0, conds: cs }] + rest),
                Err(e) => Err(e),
            },
            Err(e) => Err(e),
        }
    }
}

/// The names of the selections, in order, for the condition parser.
pub open spec fn sel_names(sels: Seq<(Seq<char>, Seq<CondRaw>)>) -> Seq<Seq<char>> {
    sels.map_values(|p: (Seq<char>, Seq<CondRaw>)| p.0)
}

/// What an aggregation block compiles to: non-empty group-by, positive
/// threshold and window, and a known comparison operator.
pub open spec fn compile_agg_spec(a: AggRaw) -> Result<AggModel, RuleErrorKind> {
    if a.group_by.len() == 0 {
        Err(RuleErrorKind::EmptyGroupBy)
    } else if a.threshold <= 0 {
        Err(RuleErrorKind::BadThreshold)
    } else if a.window_seconds == 0 {
        Err(RuleErrorKind::BadWindow)
    } else {
        match agg_op_of(a.operator) {
            Some(op) => Ok(
                AggModel {
                    group_by: a.group_by,
                    op,
                    threshold: a.threshold,
                    window_seconds: a.window_seconds,
                },
            ),
            None => Err(RuleErrorKind::BadAggOperator),
        }
    }
}

/// What a whole rule definition compiles to, or the first reason it is
/// rejected: severity, then the selections, then the condition text, then
/// the aggregation block.
pub open spec fn compile_rule_spec(r: RuleRaw) -> Result<RuleModel, RuleErrorKind> {
    match sev_of(r.severity) {
        None => Err(RuleErrorKind::BadSeverity),
        Some(sev) => match compile_sels_spec(r.detection.selections) {
            Err(e) => Err(e),
            Ok(sels) => match sp_parse(
                spec_tokenize(r.detection.condition),
                sel_names(r.detection.selections),
            ) {
                None => Err(RuleErrorKind::BadCondition),
                Some((nodes, root)) => {
                    let agg = match r.aggregation {
                        None => Ok(None),
                        Some(a) => match compile_agg_spec(a) {
                            Ok(am) => Ok(Some(am)),
                            Err(e) => Err(e),
                        },
                    };
                    match agg {
                        Ok(am) => Ok(
                            RuleModel {
                                id: r.id,
                                name: r.name,
                                severity: sev,
                                enabled: r.enabled,
                                selections: sels,
                                nodes,
                                root,
                                agg: am,
                                tags: r.tags,
                                mitre: r.mitre,
                            },
                        ),
                        Err(e) => Err(e),
                    }
                },
            },
        },
    }
}

// ---------------------------------------------------------------------------
// Executable compilation.
// ---------------------------------------------------------------------------

/// Parses a severity name.
pub fn parse_severity(s: &str) -> (r: Option<Severity>)
    ensures
        r == sev_of(s@),
{
    if str_eq(s, "low") {
        Some(Severity::Low)
    } else if str_eq(s, "medium") {
        Some(Severity::Medium)
    } else if str_eq(s, "high") {
        Some(Severity::High)
    } else if str_eq(s, "critical") {
        Some(Severity::Critical)
    } else {
        None
    }
}

fn parse_agg_op(s: &str) -> (r: Option<AggOp>)
    ensures
        r == agg_op_of(s@),
{
    if str_eq(s, "eq") {
        Some(AggOp::Exactly)
    } else if str_eq(s, "gt") {
        Some(AggOp::Above)
    } else if str_eq(s, "gte") {
        Some(AggOp::AtLeast)
    } else if str_eq(s, "lt") {
        Some(AggOp::Below)
    } else if str_eq(s, "lte") {
        Some(AggOp::AtMost)
    } else {
        None
    }
}

/// A deep copy of a list of values, with the same models.
fn duplicate_values(items: &Vec<Value>) -> (r: Vec<Value>)
    ensures
        vals_model(r@) == vals_model(items@),
{
    let n = items.len();
    let mut out: Vec<Value> = Vec::new();
    let mut i: usize = 0;
    while i < n
        invariant
            i <= n,
            n == items.len(),
            out@.len() == i,
            forall|j: int| 0 <= j < i ==> #[trigger] val_model(out@[j]) == val_model(items@[j]),
        decreases n - i,
    {
        let item = items[i].duplicate();
        out.push(item);
        i = i + 1;
    }
    proof {
        lemma_vals_model_index(out@);
        lemma_vals_model_index(items@);
        assert(vals_model(out@) =~= vals_model(items@));
    }
    out
}

/// A copy of a list of strings, equal element by element.
fn clone_strings(items: &Vec<String>) -> (r: Vec<String>)
    ensures
        r@ == items@,
{
    let n = items.len();
    let mut out: Vec<String> = Vec::new();
    let mut i: usize = 0;
    while i < n
        invariant
            i <= n,
            n == items.len(),
            out@ =~= items@.subrange(0, i as int),
        decreases n - i,
    {
        out.push(items[i].clone());
        i = i + 1;
    }
    assert(out@ =~= items@);
    out
}

/// Compiles one condition, as `compile_cond_spec` says.
pub fn compile_cond(c: &Condition) -> (r: Result<CompiledCondition, RuleErrorKind>)
    ensures
        match r {
            Ok(cc) => compile_cond_spec(cond_raw(*c)) == Ok::<CondModel, RuleErrorKind>(
                cond_model(cc),
            ),
            Err(k) => compile_cond_spec(cond_raw(*c)) == Err::<CondModel, RuleErrorKind>(k),
        },
{
    let path = split_path_str(c.field.as_str());
    if str_eq(c.operator.as_str(), "equals") {
        Ok(CompiledCondition { path, op: CondOp::Equals(c.value.duplicate()) })
    } else if str_eq(c.operator.as_str(), "contains") {
        match c.value.as_str() {
            Some(s) => Ok(CompiledCondition { path, op: CondOp::Contains(s.clone()) }),
            None => Err(RuleErrorKind::OperandType),
        }
    } else if str_eq(c.operator.as_str(), "regex") {
        match c.value.as_str() {
            Some(p) => match regex_new(p.as_str()) {
                Ok(re) => Ok(CompiledCondition { path, op: CondOp::Regex(re) }),
                Err(_) => Err(RuleErrorKind::BadPattern),
            },
            None => Err(RuleErrorKind::OperandType),
        }
    } else if str_eq(c.operator.as_str(), "gt") {
        match c.value.as_int() {
            Some(n) => Ok(CompiledCondition { path, op: CondOp::Gt(n) }),
            None => Err(RuleErrorKind::OperandType),
        }
    } else if str_eq(c.operator.as_str(), "lt") {
        match c.value.as_int() {
            Some(n) => Ok(CompiledCondition { path, op: CondOp::Lt(n) }),
            None => Err(RuleErrorKind::OperandType),
        }
    } else if str_eq(c.operator.as_str(), "in") {
        match &c.value {
            Value::Arr(items) => Ok(
                CompiledCondition { path, op: CondOp::In(duplicate_values(items)) },
            ),
            _ => Err(RuleErrorKind::OperandType),
        }
    } else {
        Err(RuleErrorKind::UnknownOperator)
    }
}

/// Compiles a selection's conditions, as `compile_conds_spec` says.
fn compile_conds(cs: &Vec<Condition>) -> (r: Result<Vec<CompiledCondition>, RuleErrorKind>)
    ensures
        match r {
            Ok(out) => compile_conds_spec(conds_raw(cs@)) == Ok::<Seq<CondModel>, RuleErrorKind>(
                conds_model(out@),
            ),
            Err(k) => compile_conds_spec(conds_raw(cs@)) == Err::<Seq<CondModel>, RuleErrorKind>(k),
        },
{
    let n = cs.len();
    let mut out: Vec<CompiledCondition> = Vec::new();
    let mut i: usize = 0;
    proof {
        assert(conds_raw(cs@).skip(0) =~= conds_raw(cs@));
        assert(conds_model(out@) =~= Seq::<CondModel>::empty());
    }
    while i < n
        invariant
            i <= n,
            n == cs.len(),
            conds_model(out@).len() == i,
            match compile_conds_spec(conds_raw(cs@).skip(i as int)) {
                Ok(rest) => compile_conds_spec(conds_raw(cs@)) == Ok::<
                    Seq<CondModel>,
                    RuleErrorKind,
                >(conds_model(out@) + rest),
                Err(e) => compile_conds_spec(conds_raw(cs@)) == Err::<
                    Seq<CondModel>,
                    RuleErrorKind,
                >(e),
            },
        decreases n - i,
    {
        proof {
            assert(conds_raw(cs@).skip(i as int)[0] == conds_raw(cs@)[i as int]);
            assert(conds_raw(cs@)[i as int] == cond_raw(cs@[i as int]));
            assert(conds_raw(cs@).skip(i as int).drop_first() =~= conds_raw(cs@).skip(i + 1));
        }
        let ghost pre = out@;
        match compile_cond(&cs[i]) {
            Ok(cc) => {
                out.push(cc);
                proof {
                    assert(conds_model(out@) =~= conds_model(pre) + seq![cond_model(cc)]);
                    if compile_conds_spec(conds_raw(cs@).skip(i + 1)) is Ok {
                        let rest = compile_conds_spec(conds_raw(cs@).skip(i + 1))->Ok_0;
                        assert(conds_model(pre) + (seq![cond_model(cc)] + rest) =~= conds_model(
                            out@,
                        ) + rest);
                    }
                }
            },
            Err(k) => {
                return Err(k);
            },
        }
        i = i + 1;
    }
    proof {
        assert(conds_raw(cs@).skip(n as int) =~= Seq::<CondRaw>::empty());
        assert(conds_model(out@) + Seq::<CondModel>::empty() =~= conds_model(out@));
    }
    Ok(out)
}

/// Compiles a whole rule definition, as `compile_rule_spec` says: the
/// compiled rule's model is a function of the definition's model, and a
/// definition is rejected exactly when the specification rejects it.
pub fn compile_rule(def: &SigmaRule) -> (r: Result<Rule, RuleErrorKind>)
    ensures
        match r {
            Ok(rule) => compile_rule_spec(rule_raw(*def)) == Ok::<RuleModel, RuleErrorKind>(
                rule_model(rule),
            ),
            Err(k) => compile_rule_spec(rule_raw(*def)) == Err::<RuleModel, RuleErrorKind>(k),
        },
{
    let sev = match parse_severity(def.severity.as_str()) {
        Some(sev) => sev,
        None => {
            return Err(RuleErrorKind::BadSeverity);
        },
    };
    let nsel = def.detection.selections.len();
    let mut selections: Vec<Selection> = Vec::new();
    let mut names: Vec<String> = Vec::new();
    let mut i: usize = 0;
    proof {
        assert(sels_raw(def.detection.selections@).skip(0) =~= sels_raw(def.detection.selections@));
        assert(sels_model(selections@) =~= Seq::<SelModel>::empty());
    }
    while i < nsel
        invariant
            i <= nsel,
            nsel == def.detection.selections.len(),
            sev_of(def.severity@) is Some,
            names@.len() == i,
            sels_model(selections@).len() == i,
            forall|j: int|
                0 <= j < i ==> names@[j]@ == sels_raw(def.detection.selections@)[j].0,
            match compile_sels_spec(sels_raw(def.detection.selections@).skip(i as int)) {
                Ok(rest) => compile_sels_spec(sels_raw(def.detection.selections@)) == Ok::<
                    Seq<SelModel>,
                    RuleErrorKind,
                >(sels_model(selections@) + rest),
                Err(e) => compile_sels_spec(sels_raw(def.detection.selections@)) == Err::<
                    Seq<SelModel>,
                    RuleErrorKind,
                >(e),
            },
        decreases nsel - i,
    {
        proof {
            assert(sels_raw(def.detection.selections@).skip(i as int)[0] == sels_raw(
                def.detection.selections@,
            )[i as int]);
            assert(sels_raw(def.detection.selections@)[i as int] == (
                def.detection.selections@[i as int].0@,
                conds_raw(def.detection.selections@[i as int].1@),
            ));
            assert(sels_raw(def.detection.selections@).skip(i as int).drop_first() =~= sels_raw(
                def.detection.selections@,
            ).skip(i + 1));
        }
        let ghost pre = selections@;
        let name = def.detection.selections[i].0.clone();
        match compile_conds(&def.detection.selections[i].1) {
            Ok(conds) => {
                let sel = Selection { name: name.clone(), conds };
                selections.push(sel);
                names.push(name);
                proof {
                    assert(sels_model(selections@) =~= sels_model(pre) + seq![sel_model(sel)]);
                    if compile_sels_spec(sels_raw(def.detection.selections@).skip(i + 1)) is Ok {
                        let rest = compile_sels_spec(
                            sels_raw(def.detection.selections@).skip(i + 1),
                        )->Ok_0;
                        assert(sels_model(pre) + (seq![sel_model(sel)] + rest) =~= sels_model(
                            selections@,
                        ) + rest);
                    }
                }
            },
            Err(k) => {
                proof {
                    assert(compile_sels_spec(sels_raw(def.detection.selections@).skip(i as int))
                        == Err::<Seq<SelModel>, RuleErrorKind>(k));
                }
                return Err(k);
            },
        }
        i = i + 1;
    }
    proof {
        assert(sels_raw(def.detection.selections@).skip(nsel as int) =~= Seq::<
            (Seq<char>, Seq<CondRaw>),
        >::empty());
        assert(sels_model(selections@) + Seq::<SelModel>::empty() =~= sels_model(selections@));
        assert(path_view(names@) =~= sel_names(sels_raw(def.detection.selections@)));
    }
    let expr = match compile_condition(def.detection.condition.as_str(), &names) {
        Ok(e) => e,
        Err(_) => {
            return Err(RuleErrorKind::BadCondition);
        },
    };
    let aggregation: Option<Aggregation> = match &def.aggregation {
        None => None,
        Some(a) => {
            if a.group_by.len() == 0 {
                return Err(RuleErrorKind::EmptyGroupBy);
            }
            if a.threshold <= 0 {
                return Err(RuleErrorKind::BadThreshold);
            }
            if a.window_seconds == 0 {
                return Err(RuleErrorKind::BadWindow);
            }
            match parse_agg_op(a.operator.as_str()) {
                Some(op) => Some(
                    Aggregation {
                        group_by: clone_strings(&a.group_by),
                        op,
                        threshold: a.threshold,
                        window_seconds: a.window_seconds,
                    },
                ),
                None => {
                    return Err(RuleErrorKind::BadAggOperator);
                },
            }
        },
    };
    let rule = Rule {
        id: def.id.clone(),
        name: def.name.clone(),
        severity: sev,
        enabled: def.enabled,
        selections,
        expr,
        aggregation,
        tags: clone_strings(&def.tags),
        mitre_attack: clone_strings(&def.mitre_attack),
    };
    Ok(rule)
}

} // verus!
