pub mod getters;
pub mod models;
pub mod semantics;

use vstd::prelude::*;
use vstd::string::*;

use crate::evaluator::getters::{get_config_value, get_hash, get_string, get_unix_epoch, num_order, NumOrder};
use crate::evaluator::models::{
    ev_new, expo_views, ConditionType, ConfigCondition, ConfigData, ConfigRule, ConfigSpec,
    EvalResult, EvalResultV, ExposureV, OperatorType, SecondaryExposure,
};
use crate::evaluator::semantics::{
    keyed_by_name, s_any_match, s_bucket_input, s_check_config, s_check_gate, s_check_gate_d,
    s_cond_value, s_eq_pass, s_eval_condition, s_eval_conds, s_eval_pass_percent, s_eval_rule,
    s_eval_rules, s_eval_spec, s_num_pass, s_same_utc_day, s_version_cmp, s_version_cmp_at,
    s_version_pass, specs_lookup, EVAL_DEPTH,
};
use crate::jsonval::{json_view, json_views, JsonV, JsonValue};
use crate::models::StatsigUser;
use crate::strutil::{
    bool_to_string, parse_version_part, split_before_char, split_char, str_eq, str_eq_nocase,
    str_views, u64_to_dec,
};

verus! {

broadcast use crate::jsonval::lemma_json_views_len, crate::jsonval::lemma_json_views_index;

// ---------------------------------------------------------------------------
// Operator helpers
// ---------------------------------------------------------------------------

/// Numeric comparison of a condition value against its target.
#[verifier::loop_isolation(false)]
fn compare_numbers(value: &JsonValue, target: &JsonValue, op: OperatorType) -> (r: bool)
    requires
        op == OperatorType::Gt || op == OperatorType::Gte || op == OperatorType::Lt || op
            == OperatorType::Lte,
    ensures
        r == s_num_pass(value@, target@, op),
{
    let a: Option<&String> = match value {
        JsonValue::Num(s) => Some(s),
        JsonValue::Str(s) => Some(s),
        _ => None,
    };
    let b: Option<&String> = match target {
        JsonValue::Num(s) => Some(s),
        JsonValue::Str(s) => Some(s),
        _ => None,
    };
    match (a, b) {
        (Some(x), Some(y)) => {
            let o = num_order(x.as_str(), y.as_str());
            if op == OperatorType::Gt {
                o == NumOrder::Greater
            } else if op == OperatorType::Gte {
                o == NumOrder::Greater || o == NumOrder::Equal
            } else if op == OperatorType::Lt {
                o == NumOrder::Less
            } else {
                o == NumOrder::Less || o == NumOrder::Equal
            }
        },
        _ => false,
    }
}

/// Compare two version strings componentwise.
#[verifier::loop_isolation(false)]
fn version_cmp(a: &str, b: &str) -> (c: i32)
    ensures
        c as int == s_version_cmp(a@, b@),
{
    let a1 = split_before_char(a, '-');
    let b1 = split_before_char(b, '-');
    let p1 = split_char(a1, '.');
    let p2 = split_char(b1, '.');
    let ghost sp1 = str_views(p1@);
    let ghost sp2 = str_views(p2@);
    let n1 = p1.len();
    let n2 = p2.len();
    let n: usize = if n1 > n2 {
        n1
    } else {
        n2
    };
    let mut i: usize = 0;
    let mut ret: i32 = 0;
    while ret == 0 && i < n
        invariant
            i <= n,
            ret == 0 || ret == -1 || ret == 1,
            ret == 0 ==> s_version_cmp_at(sp1, sp2, 0) == s_version_cmp_at(sp1, sp2, i as int),
            ret != 0 ==> s_version_cmp_at(sp1, sp2, 0) == ret as int,
        decreases n - i,
    {
        let v1: i32 = if i < n1 {
            parse_version_part(p1[i].as_str())
        } else {
            0
        };
        let v2: i32 = if i < n2 {
            parse_version_part(p2[i].as_str())
        } else {
            0
        };
        if v1 < v2 {
            ret = -1;
        } else if v2 < v1 {
            ret = 1;
        }
        i += 1;
    }
    proof {
        if ret == 0 {
            assert(i >= sp1.len() && i >= sp2.len());
        }
    }
    ret
}

/// Version comparison of a condition value against its target.
fn compare_versions(value: &JsonValue, target: &JsonValue, op: OperatorType) -> (r: bool)
    requires
        op == OperatorType::VersionGt || op == OperatorType::VersionGte || op
            == OperatorType::VersionLt || op == OperatorType::VersionLte || op
            == OperatorType::VersionEq || op == OperatorType::VersionNeq,
    ensures
        r == s_version_pass(value@, target@, op),
{
    let vs = get_string(value);
    let ts = get_string(target);
    let c = version_cmp(vs.as_str(), ts.as_str());
    if op == OperatorType::VersionGt {
        c > 0
    } else if op == OperatorType::VersionGte {
        c >= 0
    } else if op == OperatorType::VersionLt {
        c < 0
    } else if op == OperatorType::VersionLte {
        c <= 0
    } else if op == OperatorType::VersionEq {
        c == 0
    } else {
        c != 0
    }
}

/// Is the value's string form among the target array's elements' string
/// forms?
#[verifier::loop_isolation(false)]
fn any_match(value: &JsonValue, target: &JsonValue, case_sensitive: bool) -> (r: bool)
    ensures
        r == s_any_match(value@, target@, case_sensitive),
{
    let vs = get_string(value);
    match target {
        JsonValue::Arr(elems) => {
            let n = elems.len();
            let mut i: usize = 0;
            while i < n
                invariant
                    i <= n,
                    forall|j: int|
                        0 <= j < i ==> !crate::evaluator::semantics::elem_matches(
                            json_views(elems@)[j],
                            value@,
                            case_sensitive,
                        ),
                decreases n - i,
            {
                let es = get_string(&elems[i]);
                let m = if case_sensitive {
                    str_eq(es.as_str(), vs.as_str())
                } else {
                    str_eq_nocase(es.as_str(), vs.as_str())
                };
                proof {
                    assert(json_views(elems@)[i as int] == json_view(elems@[i as int]));
                }
                if m {
                    proof {
                        assert(crate::evaluator::semantics::elem_matches(
                            json_views(elems@)[i as int],
                            value@,
                            case_sensitive,
                        ));
                        crate::evaluator::semantics::lemma_any_match_intro(
                            value@,
                            json_views(elems@),
                            case_sensitive,
                            i as int,
                        );
                        assert(target@ == JsonV::Arr(json_views(elems@)));
                    }
                    return true;
                }
                i += 1;
            }
            false
        },
        _ => false,
    }
}

/// The `eq` operator against a possibly missing target.
fn eq_match(value: &JsonValue, target: &JsonValue) -> (r: bool)
    ensures
        r == s_eq_pass(value@, target@),
{
    match target {
        JsonValue::Str(t) => match value {
            JsonValue::Str(s) => str_eq(s.as_str(), t.as_str()),
            _ => false,
        },
        _ => match value {
            JsonValue::Null => true,
            JsonValue::Str(s) => s.as_str().is_empty(),
            _ => false,
        },
    }
}

/// The UTC calendar day a timestamp falls in: floor(t / 86400).
fn floor_div_day(t: i64) -> (q: i64)
    ensures
        q as int == (t as int) / 86400,
{
    if t >= 0 {
        let q = (t as u64) / 86400u64;
        q as i64
    } else {
        let n: i128 = -(t as i128);
        let qm: i128 = (n + 86399) / 86400;
        proof {
            let d = 86400int;
            let a = (n as int) / d;
            let b = (n as int) % d;
            vstd::arithmetic::div_mod::lemma_fundamental_div_mod(n as int, d);
            if b == 0 {
                vstd::arithmetic::div_mod::lemma_fundamental_div_mod_converse(
                    n as int + d - 1,
                    d,
                    a,
                    d - 1,
                );
                vstd::arithmetic::div_mod::lemma_fundamental_div_mod_converse(
                    t as int,
                    d,
                    -a,
                    0,
                );
            } else {
                vstd::arithmetic::div_mod::lemma_fundamental_div_mod_converse(
                    n as int + d - 1,
                    d,
                    a + 1,
                    b - 1,
                );
                vstd::arithmetic::div_mod::lemma_fundamental_div_mod_converse(
                    t as int,
                    d,
                    -(a + 1),
                    d - b,
                );
            }
        }
        (-(qm)) as i64
    }
}

/// Do two epoch timestamps fall on the same UTC calendar day?
fn same_utc_day(t1: i64, t2: i64) -> (r: bool)
    ensures
        r == s_same_utc_day(t1 as int, t2 as int),
{
    floor_div_day(t1) == floor_div_day(t2)
}

/// Does the user's bucket for this rule land below its pass percentage?
fn eval_pass_percent(user: &StatsigUser, rule: &ConfigRule, spec: &ConfigSpec) -> (r: bool)
    ensures
        r == s_eval_pass_percent(*user, *rule, *spec),
{
    let mut input = spec.salt.clone();
    input.append(".");
    if rule.salt.as_str().is_empty() {
        input.append(rule.id.as_str());
    } else {
        input.append(rule.salt.as_str());
    }
    input.append(".");
    let uid = user.get_unit_id(&rule.id_type);
    input.append(uid.as_str());
    proof {
        reveal_strlit(".");
        assert("."@ =~= seq!['.']);
        assert(input@ == s_bucket_input(*spec, *rule, *user));
    }
    let h = get_hash(input);
    (h % 10000) < (rule.pass_percentage_bp as u64)
}

// ---------------------------------------------------------------------------
// The evaluator and its catalog
// ---------------------------------------------------------------------------

/// The catalogs an evaluator holds, each a name-keyed list of specs.
pub struct EvaluatorV {
    pub gates: Seq<(String, ConfigSpec)>,
    pub dynamic_configs: Seq<(String, ConfigSpec)>,
    pub layer_configs: Seq<(String, ConfigSpec)>,
}

/// The local rule evaluator: three catalogs replaced wholesale on refresh,
/// and a pure, deterministic evaluation over them.
pub struct Evaluator {
    gates: Vec<(String, ConfigSpec)>,
    dynamic_configs: Vec<(String, ConfigSpec)>,
    layer_configs: Vec<(String, ConfigSpec)>,
}

impl View for Evaluator {
    type V = EvaluatorV;

    closed spec fn view(&self) -> EvaluatorV {
        EvaluatorV {
            gates: self.gates@,
            dynamic_configs: self.dynamic_configs@,
            layer_configs: self.layer_configs@,
        }
    }
}

pub open spec fn opt_specs(o: Option<Vec<ConfigSpec>>) -> Seq<ConfigSpec> {
    match o {
        Some(v) => v@,
        None => Seq::empty(),
    }
}

/// Key a list of specs by name, in order.
#[verifier::loop_isolation(false)]
fn key_specs(v: Option<Vec<ConfigSpec>>) -> (r: Vec<(String, ConfigSpec)>)
    ensures
        r@ == keyed_by_name(opt_specs(v)),
{
    let mut r: Vec<(String, ConfigSpec)> = Vec::new();
    match v {
        None => {
            proof {
                assert(r@ =~= keyed_by_name(opt_specs(v)));
            }
            r
        },
        Some(mut specs) => {
            let ghost orig = specs@;
            while specs.len() > 0
                invariant
                    orig == v->Some_0@,
                    keyed_by_name(orig) =~= r@ + keyed_by_name(specs@),
                decreases specs.len(),
            {
                let s = specs.remove(0);
                let name = s.name.clone();
                r.push((name, s));
                proof {
                    assert(keyed_by_name(seq![s].add(specs@)) =~= seq![(s.name, s)] + keyed_by_name(
                        specs@,
                    ));
                }
            }
            proof {
                assert(keyed_by_name(specs@) =~= Seq::<(String, ConfigSpec)>::empty());
                assert(r@ =~= keyed_by_name(opt_specs(v)));
            }
            r
        },
    }
}

/// First spec under a name in a catalog.
#[verifier::loop_isolation(false)]
fn lookup_spec<'a>(v: &'a Vec<(String, ConfigSpec)>, name: &str) -> (r: Option<&'a ConfigSpec>)
    ensures
        match r {
            Some(s) => specs_lookup(v@, name@) == Some(*s),
            None => specs_lookup(v@, name@) is None,
        },
{
    let n = v.len();
    proof {
        assert(v@.skip(0) =~= v@);
    }
    let mut i: usize = 0;
    while i < n
        invariant
            i <= n,
            n == v@.len(),
            specs_lookup(v@, name@) == specs_lookup(v@.skip(i as int), name@),
        decreases n - i,
    {
        proof {
            assert(v@.skip(i as int)[0] == v@[i as int]);
            assert(v@.skip(i as int).skip(1) =~= v@.skip(i + 1));
        }
        if str_eq(v[i].0.as_str(), name) {
            return Some(&v[i].1);
        }
        i += 1;
    }
    None
}

impl Evaluator {
    /// An evaluator with empty catalogs.
    pub fn new() -> (r: Self)
        ensures
            r@.gates == Seq::<(String, ConfigSpec)>::empty(),
            r@.dynamic_configs == Seq::<(String, ConfigSpec)>::empty(),
            r@.layer_configs == Seq::<(String, ConfigSpec)>::empty(),
    {
        let r = Evaluator { gates: Vec::new(), dynamic_configs: Vec::new(), layer_configs: Vec::new() };
        proof {
            assert(r@.gates =~= Seq::<(String, ConfigSpec)>::empty());
            assert(r@.dynamic_configs =~= Seq::<(String, ConfigSpec)>::empty());
            assert(r@.layer_configs =~= Seq::<(String, ConfigSpec)>::empty());
        }
        r
    }

    /// Replace all three catalogs with the given snapshot, atomically from
    /// the point of view of any later evaluation: afterwards the catalogs are
    /// exactly the snapshot's specs keyed by name, and nothing of the old
    /// catalogs remains.
    pub fn refresh_configs(&mut self, data: ConfigData)
        ensures
            final(self)@.gates == keyed_by_name(opt_specs(data.feature_gates)),
            final(self)@.dynamic_configs == keyed_by_name(opt_specs(data.dynamic_configs)),
            final(self)@.layer_configs == keyed_by_name(opt_specs(data.layer_configs)),
    {
        let ConfigData { dynamic_configs, feature_gates, layer_configs, has_updates: _, time: _ } =
            data;
        self.dynamic_configs = key_specs(dynamic_configs);
        self.gates = key_specs(feature_gates);
        self.layer_configs = key_specs(layer_configs);
    }

    /// Evaluate the named gate for a user at time `now` (unix seconds).
    /// A name the catalog lacks is a clean fail.
    pub fn check_gate_internal(&self, user: &StatsigUser, gate_name: &String, now: u64) -> (res:
        EvalResult)
        ensures
            res@ == s_check_gate(self@.gates, *user, gate_name@, now),
    {
        self.check_gate_depth(user, gate_name.as_str(), now, EVAL_DEPTH)
    }

    /// Evaluate the named dynamic config for a user at time `now`.
    pub fn get_dynamic_config_internal(&self, user: &StatsigUser, config_name: &String, now: u64) -> (res:
        EvalResult)
        ensures
            res@ == s_check_config(self@.dynamic_configs, self@.gates, *user, config_name@, now),
    {
        match lookup_spec(&self.dynamic_configs, config_name.as_str()) {
            Some(spec) => self.eval_spec_depth(user, spec, now, EVAL_DEPTH),
            None => EvalResult::fail(),
        }
    }

    fn check_gate_depth(&self, user: &StatsigUser, name: &str, now: u64, depth: u64) -> (res:
        EvalResult)
        ensures
            res@ == s_check_gate_d(self@.gates, *user, name@, now, depth as nat),
        decreases depth, 5int, 0int,
    {
        match lookup_spec(&self.gates, name) {
            Some(spec) => self.eval_spec_depth(user, spec, now, depth),
            None => EvalResult::fail(),
        }
    }

    #[verifier::loop_isolation(false)]
    fn eval_spec_depth(&self, user: &StatsigUser, spec: &ConfigSpec, now: u64, depth: u64) -> (res:
        EvalResult)
        ensures
            res@ == s_eval_spec(self@.gates, *user, *spec, now, depth as nat),
        decreases depth, 4int, 0int,
    {
        if !spec.enabled {
            let mut r = EvalResult::fail();
            r.id = String::from_str("disabled");
            r.config_value = get_config_value(&spec.default_value, spec.spec_type);
            return r;
        }
        match &spec.rules {
            None => {
                let mut r = EvalResult::fail();
                r.config_value = get_config_value(&spec.default_value, spec.spec_type);
                r
            },
            Some(rules) => {
                let ghost g = self@.gates;
                let ghost d = depth as nat;
                let n = rules.len();
                let mut exposures: Vec<SecondaryExposure> = Vec::new();
                let mut i: usize = 0;
                proof {
                    assert(expo_views(exposures@) =~= Seq::<ExposureV>::empty());
                }
                while i < n
                    invariant
                        i <= n,
                        s_eval_rules(g, *user, *spec, rules@, 0, Seq::empty(), now, d)
                            == s_eval_rules(g, *user, *spec, rules@, i as int, expo_views(exposures@), now, d),
                    decreases n - i,
                {
                    let rr = self.eval_rule_depth(user, &rules[i], now, depth);
                    if rr.fetch_from_server {
                        return rr;
                    }
                    let ghost acc_before = expo_views(exposures@);
                    let ghost rr_v = rr@;
                    let rule_pass = rr.pass;
                    let mut rex = rr.secondary_exposures;
                    exposures.append(&mut rex);
                    proof {
                        assert(expo_views(exposures@) =~= acc_before + rr_v.secondary_exposures);
                    }
                    if rule_pass {
                        let bucket_pass = eval_pass_percent(user, &rules[i], spec);
                        if bucket_pass {
                            let r = EvalResult {
                                pass: true,
                                config_value: get_config_value(&rules[i].return_value, spec.spec_type),
                                fetch_from_server: false,
                                id: rules[i].id.clone(),
                                secondary_exposures: exposures,
                                group: rules[i].name.clone(),
                                group_name: match &rules[i].group_name {
                                    Some(gn) => Some(gn.clone()),
                                    None => None,
                                },
                                rule_id: rules[i].id.clone(),
                            };
                            return r;
                        } else {
                            let r = EvalResult {
                                pass: false,
                                config_value: get_config_value(&spec.default_value, spec.spec_type),
                                fetch_from_server: false,
                                id: rules[i].id.clone(),
                                secondary_exposures: exposures,
                                group: String::from_str("default"),
                                group_name: Some(String::from_str("default")),
                                rule_id: String::from_str("default"),
                            };
                            return r;
                        }
                    }
                    i += 1;
                }
                let r = EvalResult {
                    pass: false,
                    config_value: get_config_value(&spec.default_value, spec.spec_type),
                    fetch_from_server: false,
                    id: String::from_str("default"),
                    secondary_exposures: exposures,
                    group: String::from_str("default"),
                    group_name: Some(String::from_str("default")),
                    rule_id: String::from_str("default"),
                };
                r
            },
        }
    }

    #[verifier::loop_isolation(false)]
    fn eval_rule_depth(&self, user: &StatsigUser, rule: &ConfigRule, now: u64, depth: u64) -> (res:
        EvalResult)
        ensures
            res@ == s_eval_rule(self@.gates, *user, *rule, now, depth as nat),
        decreases depth, 2int, 0int,
    {
        let ghost g = self@.gates;
        let ghost d = depth as nat;
        let mut pass = true;
        let mut fetch = false;
        let mut exposures: Vec<SecondaryExposure> = Vec::new();
        let n = rule.conditions.len();
        let mut i: usize = 0;
        proof {
            assert(expo_views(exposures@) =~= Seq::<ExposureV>::empty());
        }
        while i < n
            invariant
                i <= n,
                s_eval_conds(g, *user, rule.conditions@, 0, ev_new(true, false), now, d)
                    == s_eval_conds(
                    g,
                    *user,
                    rule.conditions@,
                    i as int,
                    EvalResultV {
                        pass: pass,
                        fetch_from_server: fetch,
                        secondary_exposures: expo_views(exposures@),
                        ..ev_new(true, false)
                    },
                    now,
                    d,
                ),
            decreases n - i,
        {
            let cr = self.eval_condition_depth(user, &rule.conditions[i], now, depth);
            let ghost acc_before = expo_views(exposures@);
            let ghost cr_v = cr@;
            if !cr.pass {
                pass = false;
            }
            if cr.fetch_from_server {
                fetch = true;
            }
            let mut cex = cr.secondary_exposures;
            exposures.append(&mut cex);
            proof {
                assert(expo_views(exposures@) =~= acc_before + cr_v.secondary_exposures);
            }
            i += 1;
        }
        let r = EvalResult {
            pass,
            fetch_from_server: fetch,
            config_value: None,
            id: String::from_str("default"),
            secondary_exposures: exposures,
            group: String::from_str("default"),
            group_name: Some(String::from_str("default")),
            rule_id: String::from_str("default"),
        };
        r
    }

    /// Evaluate one condition for a user at time `now`.
    pub fn eval_condition(&self, user: &StatsigUser, condition: &ConfigCondition, now: u64) -> (res:
        EvalResult)
        ensures
            res@ == s_eval_condition(self@.gates, *user, *condition, now, EVAL_DEPTH as nat),
    {
        self.eval_condition_depth(user, condition, now, EVAL_DEPTH)
    }

    fn eval_condition_depth(&self, user: &StatsigUser, condition: &ConfigCondition, now: u64, depth: u64) -> (res:
        EvalResult)
        ensures
            res@ == s_eval_condition(self@.gates, *user, *condition, now, depth as nat),
        decreases depth, 0int, 0int,
    {
        match condition.condition_type {
            ConditionType::Public => EvalResult::pass(),
            ConditionType::PassGate | ConditionType::FailGate => {
                let name_opt: Option<&String> = match &condition.target_value {
                    Some(JsonValue::Str(s)) => Some(s),
                    _ => None,
                };
                match name_opt {
                    None => EvalResult::fail(),
                    Some(name) => {
                        let sub = if depth == 0 {
                            EvalResult::fail()
                        } else {
                            self.check_gate_depth(user, name.as_str(), now, depth - 1)
                        };
                        if sub.fetch_from_server {
                            EvalResult::fetch_from_server()
                        } else {
                            let want = condition.condition_type == ConditionType::PassGate;
                            let pass = want == sub.pass;
                            let sub_pass = sub.pass;
                            let sub_id = sub.id;
                            let ghost sub_id_v = sub_id@;
                            let mut exposures = sub.secondary_exposures;
                            let ghost sub_expos = expo_views(exposures@);
                            exposures.push(
                                SecondaryExposure {
                                    gate: name.clone(),
                                    gate_value: bool_to_string(sub_pass),
                                    rule_id: sub_id,
                                },
                            );
                            proof {
                                assert(expo_views(exposures@) =~= sub_expos.push(
                                    ExposureV {
                                        gate: name@,
                                        gate_value: crate::strutil::bool_str(sub_pass),
                                        rule_id: sub_id_v,
                                    },
                                ));
                            }
                            let r = EvalResult {
                                pass,
                                fetch_from_server: false,
                                config_value: None,
                                id: String::from_str("default"),
                                secondary_exposures: exposures,
                                group: String::from_str("default"),
                                group_name: Some(String::from_str("default")),
                                rule_id: String::from_str("default"),
                            };
                            r
                        }
                    },
                }
            },
            ConditionType::IpBased => EvalResult::fetch_from_server(),
            ConditionType::UaBased => EvalResult::fetch_from_server(),
            ConditionType::Unknown => EvalResult::fetch_from_server(),
            _ => {
                let value: JsonValue = match condition.condition_type {
                    ConditionType::UserField => {
                        let f = match &condition.field {
                            Some(s) => s.clone(),
                            None => String::new(),
                        };
                        JsonValue::Str(user.get_field(&f))
                    },
                    ConditionType::EnvironmentField => {
                        let f = match &condition.field {
                            Some(s) => s.clone(),
                            None => String::new(),
                        };
                        JsonValue::Str(user.statsig_environment.get_field(f.as_str()))
                    },
                    ConditionType::CurrentTime => JsonValue::Num(u64_to_dec(now)),
                    ConditionType::UserBucket => {
                        match &condition.additional_values {
                            Some(m) => match m.get("salt") {
                                Some(salt) => {
                                    let mut input = salt.clone();
                                    input.append(".");
                                    let uid = user.get_unit_id(&condition.id_type);
                                    input.append(uid.as_str());
                                    proof {
                                        reveal_strlit(".");
                                        assert("."@ =~= seq!['.']);
                                    }
                                    let h = get_hash(input) % 1000;
                                    JsonValue::Num(u64_to_dec(h))
                                },
                                None => JsonValue::Null,
                            },
                            None => JsonValue::Null,
                        }
                    },
                    ConditionType::UnitId => JsonValue::Str(user.get_unit_id(&condition.id_type)),
                    _ => JsonValue::Null,
                };
                proof {
                    assert(value@ == s_cond_value(*user, *condition, now));
                }
                match &condition.operator {
                    None => EvalResult::fetch_from_server(),
                    Some(op_ref) => {
                        let op = *op_ref;
                        if op == OperatorType::StrStartsWithAny || op == OperatorType::StrEndsWithAny
                            || op == OperatorType::StrContainsAny || op
                            == OperatorType::StrContainsNone || op == OperatorType::StrMatches || op
                            == OperatorType::InSegmentList || op == OperatorType::NotInSegmentList
                            || op == OperatorType::Unknown {
                            EvalResult::fetch_from_server()
                        } else {
                            let null_val = JsonValue::Null;
                            let t: &JsonValue = match &condition.target_value {
                                Some(v) => v,
                                None => &null_val,
                            };
                            let pass: bool = if op == OperatorType::Gt || op == OperatorType::Gte
                                || op == OperatorType::Lt || op == OperatorType::Lte {
                                compare_numbers(&value, t, op)
                            } else if op == OperatorType::VersionGt || op == OperatorType::VersionGte
                                || op == OperatorType::VersionLt || op == OperatorType::VersionLte
                                || op == OperatorType::VersionEq || op
                                == OperatorType::VersionNeq {
                                compare_versions(&value, t, op)
                            } else if op == OperatorType::Any {
                                any_match(&value, t, false)
                            } else if op == OperatorType::NoneOf {
                                match t {
                                    JsonValue::Arr(_) => !any_match(&value, t, false),
                                    _ => true,
                                }
                            } else if op == OperatorType::AnyCaseSensitive {
                                any_match(&value, t, true)
                            } else if op == OperatorType::NoneCaseSensitive {
                                match t {
                                    JsonValue::Arr(_) => !any_match(&value, t, true),
                                    _ => true,
                                }
                            } else if op == OperatorType::Eq {
                                eq_match(&value, t)
                            } else if op == OperatorType::Neq {
                                !eq_match(&value, t)
                            } else if op == OperatorType::Before {
                                get_unix_epoch(&value) < get_unix_epoch(t)
                            } else if op == OperatorType::After {
                                get_unix_epoch(&value) > get_unix_epoch(t)
                            } else {
                                same_utc_day(get_unix_epoch(&value), get_unix_epoch(t))
                            };
                            if pass {
                                EvalResult::pass()
                            } else {
                                EvalResult::fail()
                            }
                        }
                    },
                }
            },
        }
    }
}

} // verus!
