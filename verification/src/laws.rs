use vstd::prelude::*;

use crate::evaluator::getters::{epoch_of, hash64_of};
use crate::evaluator::models::{
    ConditionType, ConfigCondition, ConfigRule, ConfigSpec, EvalResultV, ExposureV, OperatorType,
};
use crate::evaluator::semantics::{
    s_check_gate, s_check_gate_d, s_eval_condition, s_eval_conds, s_eval_pass_percent, s_eval_rule,
    s_eval_rules, s_eval_spec, s_op_pass, s_user_bucket, target_str,
};
use crate::jsonval::JsonV;
use crate::models::StatsigUser;
use crate::strutil::bool_str;

verus! {

/// Evaluation is a pure function of catalog, user, gate name and time: any
/// two results the evaluator's contract admits for the same inputs are the
/// same result.
pub proof fn lemma_check_gate_deterministic(
    gates: Seq<(String, ConfigSpec)>,
    user: StatsigUser,
    name: Seq<char>,
    now: u64,
    r1: EvalResultV,
    r2: EvalResultV,
)
    requires
        r1 == s_check_gate(gates, user, name, now),
        r2 == s_check_gate(gates, user, name, now),
    ensures
        r1 == r2,
{
}

/// A rule's bucket lies in [0, 10000), and a userBucket value in [0, 1000).
pub proof fn lemma_bucket_ranges(
    s: Seq<char>,
    salt: Seq<char>,
    user: StatsigUser,
    id_type: Seq<char>,
)
    ensures
        0 <= hash64_of(s) % 10000 < 10000,
        0 <= s_user_bucket(salt, user, id_type) < 1000,
{
}

/// A rule at pass percentage 100 (10000 basis points) passes its percentage
/// gate for every user; at 0, for none.
pub proof fn lemma_pass_percent_extremes(user: StatsigUser, rule: ConfigRule, spec: ConfigSpec)
    ensures
        rule.pass_percentage_bp == 10000 ==> s_eval_pass_percent(user, rule, spec),
        rule.pass_percentage_bp == 0 ==> !s_eval_pass_percent(user, rule, spec),
{
}

/// The `on` operator holds exactly when the two sides' epoch seconds fall in
/// the same UTC day: floor(t / 86400) agrees on both.
pub proof fn lemma_on_is_same_utc_day(value: JsonV, target: JsonV)
    ensures
        s_op_pass(value, Some(target), OperatorType::On) == (epoch_of(value) / 86400 == epoch_of(
            target,
        ) / 86400),
{
}

/// An evaluation whose first rule defers to the control plane returns that
/// deferral unchanged: every later rule, and every exposure the walk had
/// accumulated, is discarded.
pub proof fn lemma_first_rule_fetch(
    gates: Seq<(String, ConfigSpec)>,
    user: StatsigUser,
    spec: ConfigSpec,
    now: u64,
    depth: nat,
)
    requires
        spec.enabled,
        spec.rules is Some,
        spec.rules->Some_0@.len() > 0,
        s_eval_rule(gates, user, spec.rules->Some_0@[0], now, depth).fetch_from_server,
    ensures
        s_eval_spec(gates, user, spec, now, depth) == s_eval_rule(
            gates,
            user,
            spec.rules->Some_0@[0],
            now,
            depth,
        ),
{
}

/// A gate condition's secondary exposures are the referenced gate's own
/// exposures followed by one record synthesized for that gate — pre-order —
/// and the condition passes by the sub-result against the condition's sense.
pub proof fn lemma_gate_condition_exposures(
    gates: Seq<(String, ConfigSpec)>,
    user: StatsigUser,
    cond: ConfigCondition,
    now: u64,
    depth: nat,
)
    requires
        cond.condition_type == ConditionType::PassGate || cond.condition_type
            == ConditionType::FailGate,
        target_str(cond.target_value) is Some,
        depth > 0,
        !s_check_gate_d(
            gates,
            user,
            target_str(cond.target_value)->Some_0,
            now,
            (depth - 1) as nat,
        ).fetch_from_server,
    ensures
        ({
            let name = target_str(cond.target_value)->Some_0;
            let sub = s_check_gate_d(gates, user, name, now, (depth - 1) as nat);
            let res = s_eval_condition(gates, user, cond, now, depth);
            res.secondary_exposures == sub.secondary_exposures.push(
                ExposureV { gate: name, gate_value: bool_str(sub.pass), rule_id: sub.id },
            ) && res.pass == ((cond.condition_type == ConditionType::PassGate) == sub.pass)
                && !res.fetch_from_server
        }),
{
}

/// The exposures of the conditions of one rule, from `i` on, concatenated in
/// condition order.
pub open spec fn conds_exposures(
    gates: Seq<(String, ConfigSpec)>,
    user: StatsigUser,
    conds: Seq<ConfigCondition>,
    i: int,
    now: u64,
    depth: nat,
) -> Seq<ExposureV>
    decreases conds.len() - i,
{
    if i < 0 || i >= conds.len() {
        Seq::empty()
    } else {
        s_eval_condition(gates, user, conds[i], now, depth).secondary_exposures
            + conds_exposures(gates, user, conds, i + 1, now, depth)
    }
}

/// Within one rule, the secondary exposures of the result are exactly the
/// accumulator's followed by every condition's, in condition order.
pub proof fn lemma_rule_exposures(
    gates: Seq<(String, ConfigSpec)>,
    user: StatsigUser,
    conds: Seq<ConfigCondition>,
    i: int,
    acc: EvalResultV,
    now: u64,
    depth: nat,
)
    ensures
        s_eval_conds(gates, user, conds, i, acc, now, depth).secondary_exposures
            == acc.secondary_exposures + conds_exposures(gates, user, conds, i, now, depth),
    decreases conds.len() - i,
{
    if i < 0 || i >= conds.len() {
        assert(acc.secondary_exposures + Seq::<ExposureV>::empty() =~= acc.secondary_exposures);
    } else {
        let cr = s_eval_condition(gates, user, conds[i], now, depth);
        let acc2 = EvalResultV {
            pass: acc.pass && cr.pass,
            fetch_from_server: acc.fetch_from_server || cr.fetch_from_server,
            secondary_exposures: acc.secondary_exposures + cr.secondary_exposures,
            ..acc
        };
        lemma_rule_exposures(gates, user, conds, i + 1, acc2, now, depth);
        assert((acc.secondary_exposures + cr.secondary_exposures) + conds_exposures(
            gates,
            user,
            conds,
            i + 1,
            now,
            depth,
        ) =~= acc.secondary_exposures + (cr.secondary_exposures + conds_exposures(
            gates,
            user,
            conds,
            i + 1,
            now,
            depth,
        )));
    }
}

/// The exposures the rule walk gathers from rules `i` on: every walked
/// rule's exposures in rule order, stopping at the first rule whose
/// conditions pass (that rule's exposures included).
pub open spec fn rules_exposures(
    gates: Seq<(String, ConfigSpec)>,
    user: StatsigUser,
    rules: Seq<ConfigRule>,
    i: int,
    now: u64,
    depth: nat,
) -> Seq<ExposureV>
    decreases rules.len() - i,
{
    if i < 0 || i >= rules.len() {
        Seq::empty()
    } else {
        let rr = s_eval_rule(gates, user, rules[i], now, depth);
        if rr.fetch_from_server {
            Seq::empty()
        } else if rr.pass {
            rr.secondary_exposures
        } else {
            rr.secondary_exposures + rules_exposures(gates, user, rules, i + 1, now, depth)
        }
    }
}

/// An evaluation that decides locally carries exactly the accumulated
/// exposures followed by those of every rule it walked, in rule order: with
/// the per-rule and per-condition lemmas above, exposures appear in
/// traversal pre-order, nested gate references included.
pub proof fn lemma_spec_exposures(
    gates: Seq<(String, ConfigSpec)>,
    user: StatsigUser,
    spec: ConfigSpec,
    rules: Seq<ConfigRule>,
    i: int,
    acc: Seq<ExposureV>,
    now: u64,
    depth: nat,
)
    requires
        !s_eval_rules(gates, user, spec, rules, i, acc, now, depth).fetch_from_server,
    ensures
        s_eval_rules(gates, user, spec, rules, i, acc, now, depth).secondary_exposures == acc
            + rules_exposures(gates, user, rules, i, now, depth),
    decreases rules.len() - i,
{
    if i < 0 || i >= rules.len() {
        assert(acc + Seq::<ExposureV>::empty() =~= acc);
    } else {
        let rr = s_eval_rule(gates, user, rules[i], now, depth);
        if rr.pass {
            assert(acc + rr.secondary_exposures =~= acc + rules_exposures(
                gates,
                user,
                rules,
                i,
                now,
                depth,
            ));
        } else {
            lemma_spec_exposures(gates, user, spec, rules, i + 1, acc + rr.secondary_exposures, now, depth);
            assert((acc + rr.secondary_exposures) + rules_exposures(gates, user, rules, i + 1, now, depth)
                =~= acc + (rr.secondary_exposures + rules_exposures(gates, user, rules, i + 1, now, depth)));
        }
    }
}

} // verus!
