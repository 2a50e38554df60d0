use vstd::prelude::*;

use crate::evaluator::getters::{
    config_value_of, epoch_of, hash64_of, num_order_of, numeric_str_of, string_of, NumOrder,
};
use crate::evaluator::models::{
    ev_new, ConditionType, ConfigCondition, ConfigRule, ConfigSpec, EvalResultV, ExposureV,
    OperatorType,
};
use crate::jsonval::{json_view, JsonV, JsonValue};
use crate::models::{opt_str, s_env_field, s_unit_id, s_user_field, StatsigUser};
use crate::strmap::sm_lookup;
use crate::strutil::{
    bool_str, dec_str, eq_nocase, prefix_to_char, split_on, version_part_val,
};

verus! {

/// How deep cross-gate references may nest before a reference is treated as
/// missing; a defensive bound, since the catalog is assumed acyclic.
pub const EVAL_DEPTH: u64 = 64;

// ---------------------------------------------------------------------------
// The catalog
// ---------------------------------------------------------------------------

/// First spec under the given name, if any.
pub open spec fn specs_lookup(s: Seq<(String, ConfigSpec)>, name: Seq<char>) -> Option<ConfigSpec>
    decreases s.len(),
{
    if s.len() == 0 {
        None
    } else if s[0].0@ == name {
        Some(s[0].1)
    } else {
        specs_lookup(s.skip(1), name)
    }
}

/// A list of specs keyed by their names, in order.
pub open spec fn keyed_by_name(specs: Seq<ConfigSpec>) -> Seq<(String, ConfigSpec)> {
    specs.map_values(|s: ConfigSpec| (s.name, s))
}

// ---------------------------------------------------------------------------
// Bucketing
// ---------------------------------------------------------------------------

/// The string hashed for a rule's percentage bucket:
/// "{spec salt}.{rule salt, or rule id when that is empty}.{unit id}".
pub open spec fn s_bucket_input(spec: ConfigSpec, rule: ConfigRule, user: StatsigUser) -> Seq<
    char,
> {
    let rule_salt = if rule.salt@.len() == 0 {
        rule.id@
    } else {
        rule.salt@
    };
    spec.salt@ + seq!['.'] + rule_salt + seq!['.'] + s_unit_id(user, rule.id_type@)
}

/// A rule passes its percentage gate when the user's bucket in [0, 10000)
/// lies below the rule's pass percentage in basis points.
pub open spec fn s_eval_pass_percent(user: StatsigUser, rule: ConfigRule, spec: ConfigSpec) -> bool {
    hash64_of(s_bucket_input(spec, rule, user)) % 10000 < rule.pass_percentage_bp as int
}

/// The user-bucket value: a salted hash of the unit id, reduced to [0, 1000).
pub open spec fn s_user_bucket(salt: Seq<char>, user: StatsigUser, id_type: Seq<char>) -> int {
    hash64_of(salt + seq!['.'] + s_unit_id(user, id_type)) % 1000
}

// ---------------------------------------------------------------------------
// Operators
// ---------------------------------------------------------------------------

/// Operators the local evaluator does not implement; they defer the check to
/// the control plane.
pub open spec fn op_forces_fetch(op: OperatorType) -> bool {
    ||| op == OperatorType::StrStartsWithAny
    ||| op == OperatorType::StrEndsWithAny
    ||| op == OperatorType::StrContainsAny
    ||| op == OperatorType::StrContainsNone
    ||| op == OperatorType::StrMatches
    ||| op == OperatorType::InSegmentList
    ||| op == OperatorType::NotInSegmentList
    ||| op == OperatorType::Unknown
}

/// Numeric comparison: both sides must read as numbers, and the comparison
/// outcome must match the operator; anything absent fails.
pub open spec fn s_num_pass(value: JsonV, target: JsonV, op: OperatorType) -> bool {
    match (numeric_str_of(value), numeric_str_of(target)) {
        (Some(a), Some(b)) => {
            let o = num_order_of(a, b);
            if op == OperatorType::Gt {
                o == NumOrder::Greater
            } else if op == OperatorType::Gte {
                o == NumOrder::Greater || o == NumOrder::Equal
            } else if op == OperatorType::Lt {
                o == NumOrder::Less
            } else {
                o == NumOrder::Less || o == NumOrder::Equal
            }
        },
        _ => false,
    }
}

/// Dotted-version comparison of two version strings, after each is cut at its
/// first '-': componentwise left to right, the shorter side zero-padded,
/// non-numeric components reading as 0. Negative for less, 0 for equal,
/// positive for greater.
pub open spec fn s_version_cmp_at(p1: Seq<Seq<char>>, p2: Seq<Seq<char>>, i: int) -> int
    decreases (if p1.len() > p2.len() {
        p1.len()
    } else {
        p2.len()
    }) - i,
{
    if i >= p1.len() && i >= p2.len() {
        0
    } else {
        let v1 = if i < p1.len() {
            version_part_val(p1[i])
        } else {
            0
        };
        let v2 = if i < p2.len() {
            version_part_val(p2[i])
        } else {
            0
        };
        if v1 < v2 {
            -1
        } else if v2 < v1 {
            1
        } else {
            s_version_cmp_at(p1, p2, i + 1)
        }
    }
}

pub open spec fn s_version_cmp(a: Seq<char>, b: Seq<char>) -> int {
    s_version_cmp_at(
        split_on(prefix_to_char(a, '-'), '.'),
        split_on(prefix_to_char(b, '-'), '.'),
        0,
    )
}

pub open spec fn s_version_pass(value: JsonV, target: JsonV, op: OperatorType) -> bool {
    let c = s_version_cmp(string_of(value), string_of(target));
    if op == OperatorType::VersionGt {
        c > 0
    } else if op == OperatorType::VersionGte {
        c >= 0
    } else if op == OperatorType::VersionLt {
        c < 0
    } else if op == OperatorType::VersionLte {
        c <= 0
    } else if op == OperatorType::VersionEq {
        c == 0
    } else {
        c != 0
    }
}

/// One target element's string form matches the value's string form,
/// exactly or up to ASCII case.
pub open spec fn elem_matches(e: JsonV, value: JsonV, case_sensitive: bool) -> bool {
    if case_sensitive {
        string_of(e) == string_of(value)
    } else {
        eq_nocase(string_of(e), string_of(value))
    }
}

/// Membership of the value's string form in a target array, by string forms;
/// ASCII-case-insensitively unless `case_sensitive`.
pub open spec fn s_any_match(value: JsonV, target: JsonV, case_sensitive: bool) -> bool {
    match target {
        JsonV::Arr(elems) => exists|i: int|
            0 <= i < elems.len() && #[trigger] elem_matches(elems[i], value, case_sensitive),
        _ => false,
    }
}

pub proof fn lemma_any_match_intro(value: JsonV, elems: Seq<JsonV>, cs: bool, i: int)
    requires
        0 <= i < elems.len(),
        elem_matches(elems[i], value, cs),
    ensures
        s_any_match(value, JsonV::Arr(elems), cs),
{
    let t = JsonV::Arr(elems);
    assert(t->Arr_0 == elems);
    assert(elem_matches(t->Arr_0[i], value, cs));
}

/// The `eq` operator: against a string target, the value must be that very
/// string; against any other target, null and the empty string pass.
pub open spec fn s_eq_pass(value: JsonV, target: JsonV) -> bool {
    match target {
        JsonV::Str(t) => value matches JsonV::Str(s) && s == t,
        _ => value matches JsonV::Null || (value matches JsonV::Str(s) && s.len() == 0),
    }
}

/// Two epoch timestamps fall on the same UTC calendar day exactly when their
/// day numbers floor(t / 86400) agree.
pub open spec fn s_same_utc_day(t1: int, t2: int) -> bool {
    t1 / 86400 == t2 / 86400
}

/// What one locally implemented operator decides over a condition value and
/// the condition's target. The target reads as null when missing.
pub open spec fn s_op_pass(value: JsonV, target: Option<JsonV>, op: OperatorType) -> bool {
    let t = match target {
        Some(v) => v,
        None => JsonV::Null,
    };
    if op == OperatorType::Gt || op == OperatorType::Gte || op == OperatorType::Lt || op
        == OperatorType::Lte {
        s_num_pass(value, t, op)
    } else if op == OperatorType::VersionGt || op == OperatorType::VersionGte || op
        == OperatorType::VersionLt || op == OperatorType::VersionLte || op
        == OperatorType::VersionEq || op == OperatorType::VersionNeq {
        s_version_pass(value, t, op)
    } else if op == OperatorType::Any {
        s_any_match(value, t, false)
    } else if op == OperatorType::NoneOf {
        match t {
            JsonV::Arr(_) => !s_any_match(value, t, false),
            _ => true,
        }
    } else if op == OperatorType::AnyCaseSensitive {
        s_any_match(value, t, true)
    } else if op == OperatorType::NoneCaseSensitive {
        match t {
            JsonV::Arr(_) => !s_any_match(value, t, true),
            _ => true,
        }
    } else if op == OperatorType::Eq {
        s_eq_pass(value, t)
    } else if op == OperatorType::Neq {
        !s_eq_pass(value, t)
    } else if op == OperatorType::Before {
        epoch_of(value) < epoch_of(t)
    } else if op == OperatorType::After {
        epoch_of(value) > epoch_of(t)
    } else {
        s_same_utc_day(epoch_of(value), epoch_of(t))
    }
}

// ---------------------------------------------------------------------------
// Condition values
// ---------------------------------------------------------------------------

/// Read a referenced gate's name out of a condition's target value: only a
/// string counts.
pub open spec fn target_str(target: Option<JsonValue>) -> Option<Seq<char>> {
    match target {
        Some(v) => match json_view(v) {
            JsonV::Str(s) => Some(s),
            _ => None,
        },
        None => None,
    }
}

/// The value a non-gate condition compares: a user or environment field, the
/// current time, the user's bucket, or the unit id.
pub open spec fn s_cond_value(user: StatsigUser, cond: ConfigCondition, now: u64) -> JsonV {
    match cond.condition_type {
        ConditionType::UserField => JsonV::Str(s_user_field(user, opt_str(cond.field))),
        ConditionType::EnvironmentField => JsonV::Str(
            s_env_field(user.statsig_environment, opt_str(cond.field)),
        ),
        ConditionType::CurrentTime => JsonV::Num(dec_str(now as int)),
        ConditionType::UserBucket => match cond.additional_values {
            Some(m) => match sm_lookup(m@, "salt"@) {
                Some(salt) => JsonV::Num(dec_str(s_user_bucket(salt, user, cond.id_type@))),
                None => JsonV::Null,
            },
            None => JsonV::Null,
        },
        ConditionType::UnitId => JsonV::Str(s_unit_id(user, cond.id_type@)),
        _ => JsonV::Null,
    }
}

// ---------------------------------------------------------------------------
// Evaluation
// ---------------------------------------------------------------------------

/// Evaluate one condition. Conditions the local evaluator cannot decide
/// (ipBased, uaBased, unknown types, unimplemented operators) defer to the
/// control plane. A passGate/failGate condition evaluates the referenced gate
/// and appends a synthesized exposure for it after the sub-evaluation's own.
pub open spec fn s_eval_condition(
    gates: Seq<(String, ConfigSpec)>,
    user: StatsigUser,
    cond: ConfigCondition,
    now: u64,
    depth: nat,
) -> EvalResultV
    decreases depth, 0int, 0int,
{
    match cond.condition_type {
        ConditionType::Public => ev_new(true, false),
        ConditionType::PassGate | ConditionType::FailGate => match target_str(cond.target_value) {
            None => ev_new(false, false),
            Some(name) => {
                let sub = if depth == 0 {
                    ev_new(false, false)
                } else {
                    s_check_gate_d(gates, user, name, now, (depth - 1) as nat)
                };
                if sub.fetch_from_server {
                    ev_new(false, true)
                } else {
                    let want = cond.condition_type == ConditionType::PassGate;
                    EvalResultV {
                        pass: want == sub.pass,
                        secondary_exposures: sub.secondary_exposures.push(
                            ExposureV {
                                gate: name,
                                gate_value: bool_str(sub.pass),
                                rule_id: sub.id,
                            },
                        ),
                        ..ev_new(false, false)
                    }
                }
            },
        },
        ConditionType::IpBased => ev_new(false, true),
        ConditionType::UaBased => ev_new(false, true),
        ConditionType::Unknown => ev_new(false, true),
        _ => {
            let value = s_cond_value(user, cond, now);
            match cond.operator {
                Some(op) => if op_forces_fetch(op) {
                    ev_new(false, true)
                } else {
                    ev_new(s_op_pass(value, crate::evaluator::models::opt_json(cond.target_value), op), false)
                },
                None => ev_new(false, true),
            }
        },
    }
}

/// Fold a rule's conditions from `i` on into `acc`: every condition must
/// pass, any condition may demand the control plane, and the synthesized
/// exposures concatenate in condition order.
pub open spec fn s_eval_conds(
    gates: Seq<(String, ConfigSpec)>,
    user: StatsigUser,
    conds: Seq<ConfigCondition>,
    i: int,
    acc: EvalResultV,
    now: u64,
    depth: nat,
) -> EvalResultV
    decreases depth, 1int, conds.len() - i,
{
    if i < 0 || i >= conds.len() {
        acc
    } else {
        let cr = s_eval_condition(gates, user, conds[i], now, depth);
        let acc2 = EvalResultV {
            pass: acc.pass && cr.pass,
            fetch_from_server: acc.fetch_from_server || cr.fetch_from_server,
            secondary_exposures: acc.secondary_exposures + cr.secondary_exposures,
            ..acc
        };
        s_eval_conds(gates, user, conds, i + 1, acc2, now, depth)
    }
}

/// Evaluate one rule: the conjunction of its conditions, with exposures
/// collected from every condition (no short-circuit).
pub open spec fn s_eval_rule(
    gates: Seq<(String, ConfigSpec)>,
    user: StatsigUser,
    rule: ConfigRule,
    now: u64,
    depth: nat,
) -> EvalResultV
    decreases depth, 2int, 0int,
{
    s_eval_conds(gates, user, rule.conditions@, 0, ev_new(true, false), now, depth)
}

/// The result when no rule matched: a failing result carrying the coerced
/// default value and the exposures accumulated so far.
pub open spec fn s_no_rule_result(spec: ConfigSpec, acc: Seq<ExposureV>) -> EvalResultV {
    EvalResultV {
        config_value: config_value_of(json_view(spec.default_value), spec.spec_type),
        secondary_exposures: acc,
        ..ev_new(false, false)
    }
}

/// Walk a spec's rules from `i` on, accumulating exposures. The first rule
/// whose conditions pass decides: its percentage bucket picks between the
/// rule's return value and the spec's default. A rule that defers to the
/// control plane aborts the walk and its result stands unchanged.
pub open spec fn s_eval_rules(
    gates: Seq<(String, ConfigSpec)>,
    user: StatsigUser,
    spec: ConfigSpec,
    rules: Seq<ConfigRule>,
    i: int,
    acc: Seq<ExposureV>,
    now: u64,
    depth: nat,
) -> EvalResultV
    decreases depth, 3int, rules.len() - i,
{
    if i < 0 || i >= rules.len() {
        s_no_rule_result(spec, acc)
    } else {
        let rr = s_eval_rule(gates, user, rules[i], now, depth);
        if rr.fetch_from_server {
            rr
        } else {
            let acc2 = acc + rr.secondary_exposures;
            if rr.pass {
                if s_eval_pass_percent(user, rules[i], spec) {
                    EvalResultV {
                        pass: true,
                        config_value: config_value_of(
                            json_view(rules[i].return_value),
                            spec.spec_type,
                        ),
                        fetch_from_server: false,
                        id: rules[i].id@,
                        secondary_exposures: acc2,
                        group: rules[i].name@,
                        group_name: crate::evaluator::models::opt_view(rules[i].group_name),
                        rule_id: rules[i].id@,
                    }
                } else {
                    EvalResultV {
                        pass: false,
                        config_value: config_value_of(json_view(spec.default_value), spec.spec_type),
                        id: rules[i].id@,
                        secondary_exposures: acc2,
                        ..ev_new(false, false)
                    }
                }
            } else {
                s_eval_rules(gates, user, spec, rules, i + 1, acc2, now, depth)
            }
        }
    }
}

/// Evaluate a spec for a user. A disabled spec reports id "disabled" with the
/// coerced default value.
pub open spec fn s_eval_spec(
    gates: Seq<(String, ConfigSpec)>,
    user: StatsigUser,
    spec: ConfigSpec,
    now: u64,
    depth: nat,
) -> EvalResultV
    decreases depth, 4int, 0int,
{
    if !spec.enabled {
        EvalResultV {
            config_value: config_value_of(json_view(spec.default_value), spec.spec_type),
            id: "disabled"@,
            ..ev_new(false, false)
        }
    } else {
        match spec.rules {
            Some(rules) => s_eval_rules(gates, user, spec, rules@, 0, Seq::empty(), now, depth),
            None => s_no_rule_result(spec, Seq::empty()),
        }
    }
}

/// Check a gate by name against a catalog: a missing name is a clean fail.
pub open spec fn s_check_gate_d(
    gates: Seq<(String, ConfigSpec)>,
    user: StatsigUser,
    name: Seq<char>,
    now: u64,
    depth: nat,
) -> EvalResultV
    decreases depth, 5int, 0int,
{
    match specs_lookup(gates, name) {
        Some(spec) => s_eval_spec(gates, user, spec, now, depth),
        None => ev_new(false, false),
    }
}

/// Check a gate by name at the standard recursion budget.
pub open spec fn s_check_gate(
    gates: Seq<(String, ConfigSpec)>,
    user: StatsigUser,
    name: Seq<char>,
    now: u64,
) -> EvalResultV {
    s_check_gate_d(gates, user, name, now, EVAL_DEPTH as nat)
}

/// Evaluate a dynamic config by name. The config is looked up in the config
/// catalog; any gate conditions inside it are resolved against the gates.
pub open spec fn s_check_config(
    configs: Seq<(String, ConfigSpec)>,
    gates: Seq<(String, ConfigSpec)>,
    user: StatsigUser,
    name: Seq<char>,
    now: u64,
) -> EvalResultV {
    match specs_lookup(configs, name) {
        Some(spec) => s_eval_spec(gates, user, spec, now, EVAL_DEPTH as nat),
        None => ev_new(false, false),
    }
}

} // verus!
