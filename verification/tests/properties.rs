use std::time::{Duration, SystemTime};

use statsig_rdp::client::{config_result, gate_exposure_event, EventQueue, MAX_LOG_EVENTS};
use statsig_rdp::evaluator::getters::{get_hash, get_string, get_unix_epoch};
use statsig_rdp::evaluator::models::{
    ConditionType, ConfigCondition, ConfigData, ConfigRule, ConfigSpec, ConfigSpecType,
    OperatorType,
};
use statsig_rdp::evaluator::Evaluator;
use statsig_rdp::jsonval::JsonValue;
use statsig_rdp::models::StatsigUser;
use statsig_rdp::strmap::StringMap;

fn now_secs() -> u64 {
    SystemTime::now()
        .duration_since(SystemTime::UNIX_EPOCH)
        .unwrap_or(Duration::from_secs(0))
        .as_secs()
}

fn jstr(s: &str) -> JsonValue {
    JsonValue::Str(s.to_string())
}

fn cond(
    condition_type: ConditionType,
    operator: Option<OperatorType>,
    field: Option<&str>,
    target_value: Option<JsonValue>,
    id_type: &str,
) -> ConfigCondition {
    ConfigCondition {
        condition_type,
        operator,
        field: field.map(|f| f.to_string()),
        target_value,
        additional_values: None,
        id_type: id_type.to_string(),
    }
}

fn one_rule_gate(name: &str, rule_id: &str, pass_bp: u32, conditions: Vec<ConfigCondition>) -> ConfigSpec {
    ConfigSpec {
        name: name.to_string(),
        spec_type: ConfigSpecType::FeatureGate,
        salt: "salt".to_string(),
        enabled: true,
        default_value: JsonValue::Bool(false),
        id_type: Some("userID".to_string()),
        rules: Some(vec![ConfigRule {
            name: "rule".to_string(),
            group_name: Some("group".to_string()),
            id: rule_id.to_string(),
            salt: "rule_salt".to_string(),
            pass_percentage_bp: pass_bp,
            id_type: "userID".to_string(),
            return_value: JsonValue::Bool(true),
            conditions,
        }]),
    }
}

fn gates_only(gates: Vec<ConfigSpec>) -> ConfigData {
    ConfigData {
        dynamic_configs: None,
        feature_gates: Some(gates),
        layer_configs: None,
        has_updates: true,
        time: None,
    }
}

#[test]
fn hash_is_sha256_big_endian() {
    // SHA-256("") begins e3 b0 c4 42 98 fc 1c 14; SHA-256("abc") begins
    // ba 78 16 bf 8f 01 cf ea. The first eight bytes read big-endian.
    assert_eq!(get_hash(String::new()), 0xe3b0c44298fc1c14u64);
    assert_eq!(get_hash("abc".to_string()), 0xba7816bf8f01cfeau64);
}

#[test]
fn numeric_compare_is_numeric_not_lexicographic() {
    // "9" > "10" lexicographically, but not numerically.
    let evaluator = Evaluator::new();
    let mut custom = StringMap::new();
    custom.insert("n".to_string(), "9".to_string());
    let mut user = StatsigUser::new("u".to_string(), "production".to_string());
    user.custom = Some(custom);
    let c = cond(
        ConditionType::UserField,
        Some(OperatorType::Gt),
        Some("n"),
        Some(jstr("10")),
        "userid",
    );
    assert!(!evaluator.eval_condition(&user, &c, now_secs()).pass);
    let c = cond(
        ConditionType::UserField,
        Some(OperatorType::Lt),
        Some("n"),
        Some(jstr("10")),
        "userid",
    );
    assert!(evaluator.eval_condition(&user, &c, now_secs()).pass);
}

#[test]
fn version_eq_strips_prerelease_suffix() {
    let evaluator = Evaluator::new();
    let mut user = StatsigUser::new("u".to_string(), "production".to_string());
    user.app_version = Some("1.2.3-beta".to_string());
    let c = cond(
        ConditionType::UserField,
        Some(OperatorType::VersionEq),
        Some("appVersion"),
        Some(jstr("1.2.3")),
        "userid",
    );
    assert!(evaluator.eval_condition(&user, &c, now_secs()).pass);
}

#[test]
fn any_is_case_insensitive_and_any_case_sensitive_is_not() {
    let evaluator = Evaluator::new();
    let mut user = StatsigUser::new("u".to_string(), "production".to_string());
    user.email = Some("abc".to_string());
    let target = JsonValue::Arr(vec![jstr("ABC")]);
    let c = cond(
        ConditionType::UserField,
        Some(OperatorType::Any),
        Some("email"),
        Some(target),
        "userid",
    );
    assert!(evaluator.eval_condition(&user, &c, now_secs()).pass);
    let target = JsonValue::Arr(vec![jstr("ABC")]);
    let c = cond(
        ConditionType::UserField,
        Some(OperatorType::AnyCaseSensitive),
        Some("email"),
        Some(target),
        "userid",
    );
    assert!(!evaluator.eval_condition(&user, &c, now_secs()).pass);
}

#[test]
fn eq_with_missing_target() {
    let evaluator = Evaluator::new();
    let user = StatsigUser::new("u".to_string(), "production".to_string());
    // Missing email coerces to the empty string: eq with no target passes.
    let c = cond(
        ConditionType::UserField,
        Some(OperatorType::Eq),
        Some("email"),
        None,
        "userid",
    );
    assert!(evaluator.eval_condition(&user, &c, now_secs()).pass);
    // A userBucket condition without a salt yields a null value: passes too.
    let c = cond(
        ConditionType::UserBucket,
        Some(OperatorType::Eq),
        None,
        None,
        "userid",
    );
    assert!(evaluator.eval_condition(&user, &c, now_secs()).pass);
    // A non-empty value fails.
    let mut user = StatsigUser::new("u".to_string(), "production".to_string());
    user.email = Some("x".to_string());
    let c = cond(
        ConditionType::UserField,
        Some(OperatorType::Eq),
        Some("email"),
        None,
        "userid",
    );
    assert!(!evaluator.eval_condition(&user, &c, now_secs()).pass);
}

#[test]
fn epoch_seconds_millisecond_heuristic() {
    assert_eq!(
        get_unix_epoch(&jstr("1700000000000")),
        1700000000i64
    );
    assert_eq!(
        get_unix_epoch(&JsonValue::Num("1700000000000".to_string())),
        1700000000i64
    );
    assert_eq!(get_unix_epoch(&jstr("12345")), 12345i64);
    assert_eq!(get_unix_epoch(&jstr("not a number")), 0i64);
    assert_eq!(get_unix_epoch(&JsonValue::Null), 0i64);
    // The magnitude decides: pre-1970 millisecond timestamps divide too,
    // truncating toward zero.
    assert_eq!(
        get_unix_epoch(&jstr("-1700000000000")),
        -1700000000i64
    );
    assert_eq!(
        get_unix_epoch(&JsonValue::Num("-1700000000000".to_string())),
        -1700000000i64
    );
    assert_eq!(get_unix_epoch(&jstr("-2147483647")), -2147483647i64);
    assert_eq!(
        get_unix_epoch(&JsonValue::Num("-2147483648".to_string())),
        -2147483i64
    );
    assert_eq!(get_unix_epoch(&jstr("-2999")), -2999i64);
}

#[test]
fn epoch_seconds_truncates_numbers() {
    // A JSON number coerces to its integer part, truncated toward zero; a
    // string keeps the strict integer parse.
    assert_eq!(get_unix_epoch(&JsonValue::Num("2.9".to_string())), 2i64);
    assert_eq!(get_unix_epoch(&JsonValue::Num("-2.9".to_string())), -2i64);
    assert_eq!(get_unix_epoch(&JsonValue::Num("1e3".to_string())), 1000i64);
    assert_eq!(
        get_unix_epoch(&JsonValue::Num("1e16".to_string())),
        10000000000000i64
    );
    assert_eq!(get_unix_epoch(&JsonValue::Num("2.5e3".to_string())), 2500i64);
    assert_eq!(get_unix_epoch(&JsonValue::Num("1e-7".to_string())), 0i64);
    assert_eq!(get_unix_epoch(&JsonValue::Num("1e30".to_string())), 0i64);
    assert_eq!(get_unix_epoch(&jstr("2.9")), 0i64);
}

#[test]
fn empty_custom_ids_falls_back_to_user_id() {
    let mut user = StatsigUser::new("the_user".to_string(), "production".to_string());
    user.custom_ids = Some(StringMap::new());
    assert_eq!(user.get_unit_id(&"companyID".to_string()), "the_user".to_string());
}

#[test]
fn string_coercion() {
    assert_eq!(get_string(&JsonValue::Null), "".to_string());
    assert_eq!(get_string(&JsonValue::Bool(true)), "true".to_string());
    assert_eq!(get_string(&JsonValue::Bool(false)), "false".to_string());
    assert_eq!(get_string(&JsonValue::Num("42".to_string())), "42".to_string());
    assert_eq!(get_string(&jstr("x")), "x".to_string());
    assert_eq!(get_string(&JsonValue::Arr(vec![])), "".to_string());
}

#[test]
fn pass_fraction_tracks_pass_percentage() {
    // Over many user ids, the fraction passing a 50% rule approaches one
    // half; the bound here is loose enough to be stable.
    let mut evaluator = Evaluator::new();
    evaluator.refresh_configs(gates_only(vec![one_rule_gate(
        "half",
        "r1",
        5000,
        vec![cond(ConditionType::Public, None, None, None, "userid")],
    )]));
    let now = now_secs();
    let mut passed: u32 = 0;
    let total: u32 = 2000;
    for i in 0..total {
        let user = StatsigUser::new(format!("user{}", i), "production".to_string());
        if evaluator
            .check_gate_internal(&user, &"half".to_string(), now)
            .pass
        {
            passed += 1;
        }
    }
    let frac = passed as f64 / total as f64;
    assert!(frac > 0.4 && frac < 0.6, "fraction was {}", frac);
}

#[test]
fn public_gate_full_percentage_passes_and_exposes_rule_id() {
    let mut evaluator = Evaluator::new();
    evaluator.refresh_configs(gates_only(vec![one_rule_gate(
        "g",
        "rule_1",
        10000,
        vec![cond(ConditionType::Public, None, None, None, "userid")],
    )]));
    let now = now_secs();
    let user = StatsigUser::new("u1".to_string(), "production".to_string());
    let res = evaluator.check_gate_internal(&user, &"g".to_string(), now);
    assert!(res.pass);
    assert_eq!(res.id, "rule_1".to_string());
    let ev = gate_exposure_event("g".to_string(), user, &res, now);
    assert_eq!(ev.event_name, "statsig::gate_exposure".to_string());
    assert_eq!(ev.value, "true".to_string());
    assert_eq!(ev.time, now.to_string());
    assert_eq!(ev.metadata.get("gate"), Some(&"g".to_string()));
    assert_eq!(ev.metadata.get("gateValue"), Some(&"true".to_string()));
    assert_eq!(ev.metadata.get("ruleID"), Some(&"rule_1".to_string()));
    let mut queue = EventQueue::new();
    assert!(!queue.push(ev));
    assert_eq!(queue.len(), 1);
}

#[test]
fn public_gate_zero_percentage_fails_with_rule_id() {
    let mut evaluator = Evaluator::new();
    evaluator.refresh_configs(gates_only(vec![one_rule_gate(
        "g",
        "rule_1",
        0,
        vec![cond(ConditionType::Public, None, None, None, "userid")],
    )]));
    let now = now_secs();
    let user = StatsigUser::new("u1".to_string(), "production".to_string());
    let res = evaluator.check_gate_internal(&user, &"g".to_string(), now);
    assert!(!res.pass);
    assert_eq!(res.id, "rule_1".to_string());
    let ev = gate_exposure_event("g".to_string(), user, &res, now);
    assert_eq!(ev.value, "false".to_string());
    assert_eq!(ev.metadata.get("gateValue"), Some(&"false".to_string()));
    assert_eq!(ev.metadata.get("ruleID"), Some(&"rule_1".to_string()));
}

#[test]
fn pass_gate_condition_collects_secondary_exposure() {
    let gate_b = one_rule_gate(
        "B",
        "b1",
        10000,
        vec![cond(ConditionType::Public, None, None, None, "userid")],
    );
    let gate_a = one_rule_gate(
        "A",
        "a1",
        10000,
        vec![cond(
            ConditionType::PassGate,
            None,
            Some("field"),
            Some(jstr("B")),
            "userid",
        )],
    );
    let mut evaluator = Evaluator::new();
    evaluator.refresh_configs(gates_only(vec![gate_a, gate_b]));
    let user = StatsigUser::new("u1".to_string(), "production".to_string());
    let res = evaluator.check_gate_internal(&user, &"A".to_string(), now_secs());
    assert!(res.pass);
    assert_eq!(res.secondary_exposures.len(), 1);
    assert_eq!(res.secondary_exposures[0].gate, "B".to_string());
    assert_eq!(res.secondary_exposures[0].gate_value, "true".to_string());
    assert_eq!(res.secondary_exposures[0].rule_id, "b1".to_string());
}

#[test]
fn fetch_from_server_on_first_rule_discards_later_rules() {
    // strMatches is not implemented locally: the whole spec defers, and no
    // exposures survive.
    let spec = ConfigSpec {
        name: "g".to_string(),
        spec_type: ConfigSpecType::FeatureGate,
        salt: "salt".to_string(),
        enabled: true,
        default_value: JsonValue::Bool(false),
        id_type: None,
        rules: Some(vec![
            ConfigRule {
                name: "r1".to_string(),
                group_name: None,
                id: "r1".to_string(),
                salt: "s1".to_string(),
                pass_percentage_bp: 10000,
                id_type: "userID".to_string(),
                return_value: JsonValue::Bool(true),
                conditions: vec![cond(
                    ConditionType::UserField,
                    Some(OperatorType::StrMatches),
                    Some("email"),
                    Some(jstr(".*")),
                    "userid",
                )],
            },
            ConfigRule {
                name: "r2".to_string(),
                group_name: None,
                id: "r2".to_string(),
                salt: "s2".to_string(),
                pass_percentage_bp: 10000,
                id_type: "userID".to_string(),
                return_value: JsonValue::Bool(true),
                conditions: vec![cond(ConditionType::Public, None, None, None, "userid")],
            },
        ]),
    };
    let mut evaluator = Evaluator::new();
    evaluator.refresh_configs(gates_only(vec![spec]));
    let user = StatsigUser::new("u1".to_string(), "production".to_string());
    let res = evaluator.check_gate_internal(&user, &"g".to_string(), now_secs());
    assert!(res.fetch_from_server);
    assert!(res.secondary_exposures.is_empty());
}

#[test]
fn disabled_spec_reports_disabled_rule_id() {
    let mut spec = one_rule_gate(
        "g",
        "r1",
        10000,
        vec![cond(ConditionType::Public, None, None, None, "userid")],
    );
    spec.enabled = false;
    let mut evaluator = Evaluator::new();
    evaluator.refresh_configs(gates_only(vec![spec]));
    let user = StatsigUser::new("u1".to_string(), "production".to_string());
    let res = evaluator.check_gate_internal(&user, &"g".to_string(), now_secs());
    assert!(!res.pass);
    assert_eq!(res.id, "disabled".to_string());
}

#[test]
fn queue_threshold_schedules_flush_without_blocking() {
    let mut queue = EventQueue::new();
    let user = StatsigUser::new("u".to_string(), "production".to_string());
    let mut evaluator = Evaluator::new();
    evaluator.refresh_configs(gates_only(vec![one_rule_gate(
        "g",
        "r1",
        10000,
        vec![cond(ConditionType::Public, None, None, None, "userid")],
    )]));
    let now = now_secs();
    let res = evaluator.check_gate_internal(&user, &"g".to_string(), now);
    for i in 0..MAX_LOG_EVENTS - 1 {
        let ev = gate_exposure_event("g".to_string(), user.clone(), &res, now);
        assert!(!queue.push(ev), "flush scheduled early at {}", i);
    }
    let ev = gate_exposure_event("g".to_string(), user.clone(), &res, now);
    assert!(queue.push(ev), "flush not scheduled at the threshold");
    // Producers are not blocked past the threshold.
    let ev = gate_exposure_event("g".to_string(), user.clone(), &res, now);
    assert!(queue.push(ev));
    assert_eq!(queue.len(), MAX_LOG_EVENTS + 1);
    let batch = queue.drain();
    assert_eq!(batch.len(), MAX_LOG_EVENTS + 1);
    assert_eq!(queue.len(), 0);
    // The queue keeps accepting events after a drain.
    let ev = gate_exposure_event("g".to_string(), user, &res, now);
    assert!(!queue.push(ev));
    assert_eq!(queue.len(), 1);
}

#[test]
fn dynamic_config_rule_and_default_values() {
    // A config whose first rule rejects an email at 0%, and whose second
    // matches a user id and a custom id at 100%.
    let reject_email = ConfigRule {
        name: "test_reject_email_name".to_string(),
        group_name: Some("test_reject_email".to_string()),
        id: "id_reject_email".to_string(),
        salt: "salt_email".to_string(),
        pass_percentage_bp: 0,
        id_type: "userID".to_string(),
        return_value: JsonValue::Obj(vec![("value".to_string(), jstr("EMAIL"))]),
        conditions: vec![cond(
            ConditionType::UserField,
            Some(OperatorType::Any),
            Some("email"),
            Some(JsonValue::Arr(vec![jstr("test@example.com")])),
            "userID",
        )],
    };
    let match_1239 = ConfigRule {
        name: "test_1239_name".to_string(),
        group_name: Some("test_1239".to_string()),
        id: "id_1239_name".to_string(),
        salt: "salt_1239".to_string(),
        pass_percentage_bp: 10000,
        id_type: "userID".to_string(),
        return_value: JsonValue::Obj(vec![("value".to_string(), jstr("1239"))]),
        conditions: vec![
            cond(
                ConditionType::UserField,
                Some(OperatorType::Any),
                Some("userID"),
                Some(JsonValue::Arr(vec![jstr("1239")])),
                "userID",
            ),
            cond(
                ConditionType::UserField,
                Some(OperatorType::Any),
                Some("secondaryId"),
                Some(JsonValue::Arr(vec![jstr("secretid")])),
                "userID",
            ),
        ],
    };
    let config = ConfigSpec {
        name: "test_dynamic_config".to_string(),
        spec_type: ConfigSpecType::DynamicConfig,
        salt: "salt".to_string(),
        enabled: true,
        default_value: JsonValue::Obj(vec![("value".to_string(), jstr("DEFAULT"))]),
        id_type: Some("userID".to_string()),
        rules: Some(vec![reject_email, match_1239]),
    };
    let mut evaluator = Evaluator::new();
    evaluator.refresh_configs(ConfigData {
        dynamic_configs: Some(vec![config]),
        feature_gates: None,
        layer_configs: None,
        has_updates: true,
        time: None,
    });
    let now = now_secs();

    // Matches the second rule: the rule's return value.
    let mut custom = StringMap::new();
    custom.insert("secondaryId".to_string(), "secretid".to_string());
    let mut user = StatsigUser::new("1239".to_string(), "production".to_string());
    user.custom = Some(custom);
    user.email = Some("something@example.com".to_string());
    let res = evaluator.get_dynamic_config_internal(&user, &"test_dynamic_config".to_string(), now);
    assert_eq!(
        res.config_value,
        Some(JsonValue::Obj(vec![("value".to_string(), jstr("1239"))]))
    );
    let c = config_result(&"test_dynamic_config".to_string(), &res);
    assert_eq!(c.name, "test_dynamic_config".to_string());
    assert_eq!(c.rule_id, "id_1239_name".to_string());

    // Matches the first rule, which never passes its bucket: the default.
    let mut user = StatsigUser::new("1239".to_string(), "production".to_string());
    user.email = Some("test@example.com".to_string());
    let res = evaluator.get_dynamic_config_internal(&user, &"test_dynamic_config".to_string(), now);
    assert_eq!(
        res.config_value,
        Some(JsonValue::Obj(vec![("value".to_string(), jstr("DEFAULT"))]))
    );

    // Matches nothing: the default.
    let user = StatsigUser::new("1239".to_string(), "production".to_string());
    let res = evaluator.get_dynamic_config_internal(&user, &"test_dynamic_config".to_string(), now);
    assert_eq!(
        res.config_value,
        Some(JsonValue::Obj(vec![("value".to_string(), jstr("DEFAULT"))]))
    );
}

#[test]
fn same_check_is_deterministic() {
    let mut evaluator = Evaluator::new();
    evaluator.refresh_configs(gates_only(vec![one_rule_gate(
        "g",
        "r1",
        7000,
        vec![cond(ConditionType::Public, None, None, None, "userid")],
    )]));
    let now = now_secs();
    for i in 0..50 {
        let user = StatsigUser::new(format!("user{}", i), "production".to_string());
        let a = evaluator.check_gate_internal(&user, &"g".to_string(), now);
        let b = evaluator.check_gate_internal(&user, &"g".to_string(), now);
        assert_eq!(a.pass, b.pass);
        assert_eq!(a.id, b.id);
    }
}

#[test]
fn options_defaults() {
    let o = statsig_rdp::models::StatsigOptions::default();
    assert!(!o.disable_cache);
    assert!(o.api_url.is_none() && o.cdn_url.is_none() && o.events_url.is_none());
    assert!(o.config_sync_interval.is_none());
    let o = statsig_rdp::models::StatsigOptions::cache_disabled();
    assert!(o.disable_cache);
}

#[test]
fn config_exposure_event_metadata() {
    let mut evaluator = Evaluator::new();
    evaluator.refresh_configs(gates_only(vec![one_rule_gate(
        "g",
        "r9",
        10000,
        vec![cond(ConditionType::Public, None, None, None, "userid")],
    )]));
    let now = now_secs();
    let user = StatsigUser::new("u1".to_string(), "production".to_string());
    let res = evaluator.check_gate_internal(&user, &"g".to_string(), now);
    let ev = statsig_rdp::client::config_exposure_event("g".to_string(), user, &res, now);
    assert_eq!(ev.event_name, "statsig::config_exposure".to_string());
    assert_eq!(ev.metadata.get("config"), Some(&"g".to_string()));
    assert_eq!(ev.metadata.get("ruleID"), Some(&"r9".to_string()));
    assert_eq!(ev.time, now.to_string());
}

#[test]
fn version_comparison_zero_pads_and_ignores_junk() {
    let evaluator = Evaluator::new();
    let mut user = StatsigUser::new("u".to_string(), "production".to_string());
    user.app_version = Some("300.10".to_string());
    // "300.10" == "300.10.0" once the shorter side is zero-padded.
    let c = cond(
        ConditionType::UserField,
        Some(OperatorType::VersionEq),
        Some("appVersion"),
        Some(jstr("300.10.0")),
        "userid",
    );
    assert!(evaluator.eval_condition(&user, &c, now_secs()).pass);
    // Non-numeric components read as 0.
    let mut user = StatsigUser::new("u".to_string(), "production".to_string());
    user.app_version = Some("1.x.2".to_string());
    let c = cond(
        ConditionType::UserField,
        Some(OperatorType::VersionEq),
        Some("appVersion"),
        Some(jstr("1.0.2")),
        "userid",
    );
    assert!(evaluator.eval_condition(&user, &c, now_secs()).pass);
}

#[test]
fn missing_operator_and_segment_lists_defer() {
    let evaluator = Evaluator::new();
    let user = StatsigUser::new("u".to_string(), "production".to_string());
    let c = cond(
        ConditionType::UserField,
        None,
        Some("email"),
        None,
        "userid",
    );
    assert!(evaluator.eval_condition(&user, &c, now_secs()).fetch_from_server);
    let c = cond(
        ConditionType::UserField,
        Some(OperatorType::InSegmentList),
        Some("email"),
        None,
        "userid",
    );
    assert!(evaluator.eval_condition(&user, &c, now_secs()).fetch_from_server);
    let c = cond(ConditionType::IpBased, None, None, None, "userid");
    assert!(evaluator.eval_condition(&user, &c, now_secs()).fetch_from_server);
}
