//! Engine-wide laws, proved once against the specifications the public
//! functions carry. Each proof function's statement is the law; its doc
//! comment says it in words.

use vstd::prelude::*;
use crate::alerts::AlertCore;
use crate::evaluator::{cond_matches, sel_matches, structural_match, threshold_met};
use crate::pipeline::process_rules;
use crate::rules::{CondModel, RuleModel, SelModel};
use crate::store::CounterModel;
use crate::value::{ValModel, m_lookup};

verus! {

/// A disabled rule never executes: processing an event against a rule list
/// in which some rule is disabled emits the same alerts and leaves the
/// counter table exactly as processing the list without that rule — no
/// metric change, no store access, no alert can come from it.
pub proof fn lemma_disabled_rule_inert(
    rules: Seq<RuleModel>,
    ev: ValModel,
    store: Seq<CounterModel>,
    now: u64,
    acc: Seq<AlertCore>,
    k: int,
)
    requires
        0 <= k < rules.len(),
        !rules[k].enabled,
    ensures
        process_rules(rules, ev, store, now, acc) == process_rules(
            rules.remove(k),
            ev,
            store,
            now,
            acc,
        ),
    decreases rules.len(),
{
    if k == 0 {
        assert(rules.remove(0) =~= rules.drop_first());
    } else {
        let tail = rules.drop_first();
        assert(rules.remove(k).drop_first() =~= tail.remove(k - 1));
        assert(rules.remove(k)[0] == rules[0]);
        assert(tail[k - 1] == rules[k]);
        let r = rules[0];
        if !r.enabled {
            lemma_disabled_rule_inert(tail, ev, store, now, acc, k - 1);
        } else if !structural_match(r, ev) {
            lemma_disabled_rule_inert(tail, ev, store, now, acc, k - 1);
        } else {
            match r.agg {
                None => {
                    lemma_disabled_rule_inert(
                        tail,
                        ev,
                        store,
                        now,
                        acc.push(crate::alerts::core_of(r, ev, None)),
                        k - 1,
                    );
                },
                Some(am) => {
                    let (s2, c) = crate::store::local_incr(
                        store,
                        crate::evaluator::key_of(r.id, am, ev),
                        am.window_seconds,
                        now,
                    );
                    if threshold_met(am.op, c, am.threshold) {
                        lemma_disabled_rule_inert(
                            tail,
                            ev,
                            s2,
                            now,
                            acc.push(
                                crate::alerts::core_of(
                                    r,
                                    ev,
                                    Some(
                                        crate::evaluator::CorrelationEvidence {
                                            count: c,
                                            window_seconds: am.window_seconds,
                                        },
                                    ),
                                ),
                            ),
                            k - 1,
                        );
                    } else {
                        lemma_disabled_rule_inert(tail, ev, s2, now, acc, k - 1);
                    }
                },
            }
        }
    }
}

/// A missing field never satisfies a condition: where the dotted path finds
/// nothing in the event, every operator — equals, contains, regex, gt, lt,
/// in — reads false.
pub proof fn lemma_missing_field_never_matches(c: CondModel, ev: ValModel)
    requires
        m_lookup(ev, c.path) is None,
    ensures
        !cond_matches(c, ev),
{
}

/// A selection with a condition on a missing field is false as a whole, so
/// a negated reference to it in the condition expression reads true: the
/// negation of a missing field is defined, not an error.
pub proof fn lemma_missing_field_selection(s: SelModel, ev: ValModel, j: int)
    requires
        0 <= j < s.conds.len(),
        m_lookup(ev, s.conds[j].path) is None,
    ensures
        !sel_matches(s, ev),
{
    lemma_missing_field_never_matches(s.conds[j], ev);
}

} // verus!
