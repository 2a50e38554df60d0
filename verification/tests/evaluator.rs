use std::time::{Duration, SystemTime};

use statsig_rdp::evaluator::models::{
    ConditionType, ConfigCondition, ConfigData, ConfigRule, ConfigSpec, ConfigSpecType,
    OperatorType,
};
use statsig_rdp::evaluator::Evaluator;
use statsig_rdp::jsonval::JsonValue;
use statsig_rdp::models::StatsigUser;
use statsig_rdp::strmap::StringMap;

fn now_secs() -> u64 {
    SystemTime::now()
        .duration_since(SystemTime::UNIX_EPOCH)
        .unwrap_or(Duration::from_secs(0))
        .as_secs()
}

fn jstr(s: &str) -> JsonValue {
    JsonValue::Str(s.to_string())
}

fn jnum(n: u64) -> JsonValue {
    JsonValue::Num(n.to_string())
}

fn jarr(elems: Vec<JsonValue>) -> JsonValue {
    JsonValue::Arr(elems)
}

fn cond(
    condition_type: ConditionType,
    operator: Option<OperatorType>,
    field: Option<&str>,
    target_value: Option<JsonValue>,
    id_type: &str,
    additional_values: Option<StringMap>,
) -> ConfigCondition {
    ConfigCondition {
        condition_type,
        operator,
        field: field.map(|f| f.to_string()),
        target_value,
        additional_values,
        id_type: id_type.to_string(),
    }
}

fn salt_map(salt: &str) -> StringMap {
    let mut m = StringMap::new();
    m.insert("salt".to_string(), salt.to_string());
    m
}

fn unit_id_gate(name: &str, rule_id: &str, group: &str, op: OperatorType) -> ConfigSpec {
    ConfigSpec {
        name: name.to_string(),
        spec_type: ConfigSpecType::FeatureGate,
        salt: "salt".to_string(),
        enabled: true,
        default_value: JsonValue::Null,
        id_type: None,
        rules: Some(vec![ConfigRule {
            name: name.to_string(),
            group_name: Some(group.to_string()),
            id: rule_id.to_string(),
            salt: "salt".to_string(),
            pass_percentage_bp: 10000,
            id_type: "userID".to_string(),
            return_value: JsonValue::Null,
            conditions: vec![cond(
                ConditionType::UnitId,
                Some(op),
                Some("field"),
                Some(jstr("user_id")),
                "userid",
                None,
            )],
        }]),
    }
}

fn default_evaluator() -> Evaluator {
    let mut evaluator = Evaluator::new();
    evaluator.refresh_configs(ConfigData {
        dynamic_configs: None,
        layer_configs: None,
        has_updates: true,
        time: None,
        feature_gates: Some(vec![
            unit_id_gate("user_id_match", "user_id_id", "User id match", OperatorType::Eq),
            unit_id_gate(
                "user_id_not_match",
                "user_id_not_match_id",
                "User id not match",
                OperatorType::Neq,
            ),
        ]),
    });
    evaluator
}

fn check_condition(
    name: &str,
    user: &StatsigUser,
    condition: &ConfigCondition,
    expected_pass: bool,
    expected_fetch: bool,
) -> Result<(), String> {
    let evaluator = default_evaluator();
    let result = evaluator.eval_condition(user, condition, now_secs());
    if result.pass != expected_pass || result.fetch_from_server != expected_fetch {
        Err(format!("{}: failed", name))
    } else {
        Ok(())
    }
}

fn table_user() -> StatsigUser {
    let mut custom_ids = StringMap::new();
    custom_ids.insert("not_userid".to_string(), "not_userid".to_string());
    custom_ids.insert("ALL_CAPS".to_string(), "ALL_CAPS".to_string());
    let mut custom = StringMap::new();
    custom.insert("totalDeposit".to_string(), "30".to_string());
    let mut user = StatsigUser::new("user_id".to_string(), "production".to_string());
    user.custom_ids = Some(custom_ids);
    user.custom = Some(custom);
    user.app_version = Some("300.10.2".to_string());
    user
}

#[test]
fn test_eval_condition_table() -> Result<(), String> {
    let user = table_user();
    let now = now_secs();
    let cases: Vec<(&str, ConfigCondition, bool, bool)> = vec![
        (
            "public",
            cond(ConditionType::Public, None, None, None, "userid", None),
            true,
            false,
        ),
        (
            "unknown_condition",
            cond(ConditionType::Unknown, None, None, None, "userid", None),
            false,
            true,
        ),
        (
            "user_bucket_pass",
            cond(
                ConditionType::UserBucket,
                Some(OperatorType::Gt),
                None,
                Some(jnum(500)),
                "userID",
                Some(salt_map("cool_salt12")),
            ),
            true,
            false,
        ),
        (
            "user_bucket_fail",
            cond(
                ConditionType::UserBucket,
                Some(OperatorType::Lte),
                None,
                Some(jnum(500)),
                "userID",
                Some(salt_map("cool_salt12")),
            ),
            false,
            false,
        ),
        (
            "gt_pass",
            cond(
                ConditionType::UserField,
                Some(OperatorType::Gt),
                Some("totalDeposit"),
                Some(jstr("15")),
                "userid",
                None,
            ),
            true,
            false,
        ),
        (
            "gt_fail",
            cond(
                ConditionType::UserField,
                Some(OperatorType::Gt),
                Some("totalDeposit"),
                Some(jstr("40")),
                "userid",
                None,
            ),
            false,
            false,
        ),
        (
            "gt_fail_empty_field",
            cond(
                ConditionType::UserField,
                Some(OperatorType::Gt),
                Some("somethingElse"),
                Some(jstr("-5")),
                "userid",
                None,
            ),
            false,
            false,
        ),
        (
            "gte_pass",
            cond(
                ConditionType::UserField,
                Some(OperatorType::Gte),
                Some("totalDeposit"),
                Some(jstr("30")),
                "userid",
                None,
            ),
            true,
            false,
        ),
        (
            "gte_fail",
            cond(
                ConditionType::UserField,
                Some(OperatorType::Gte),
                Some("totalDeposit"),
                Some(jstr("40")),
                "userid",
                None,
            ),
            false,
            false,
        ),
        (
            "lt_pass",
            cond(
                ConditionType::UserField,
                Some(OperatorType::Lt),
                Some("totalDeposit"),
                Some(jstr("40")),
                "userid",
                None,
            ),
            true,
            false,
        ),
        (
            "lt_fail",
            cond(
                ConditionType::UserField,
                Some(OperatorType::Lt),
                Some("totalDeposit"),
                Some(jstr("20")),
                "userid",
                None,
            ),
            false,
            false,
        ),
        (
            "lte_pass",
            cond(
                ConditionType::UserField,
                Some(OperatorType::Lte),
                Some("totalDeposit"),
                Some(jstr("30")),
                "userid",
                None,
            ),
            true,
            false,
        ),
        (
            "lte_fail",
            cond(
                ConditionType::UserField,
                Some(OperatorType::Lte),
                Some("totalDeposit"),
                Some(jstr("20")),
                "userid",
                None,
            ),
            false,
            false,
        ),
        (
            "environment_pass",
            cond(
                ConditionType::EnvironmentField,
                Some(OperatorType::Any),
                Some("tier"),
                Some(jarr(vec![jstr("production"), jstr("staging")])),
                "userid",
                None,
            ),
            true,
            false,
        ),
        (
            "environment_fail",
            cond(
                ConditionType::EnvironmentField,
                Some(OperatorType::Any),
                Some("tier"),
                Some(jarr(vec![jstr("staging")])),
                "userid",
                None,
            ),
            false,
            false,
        ),
        (
            "version_gt_pass",
            cond(
                ConditionType::UserField,
                Some(OperatorType::VersionGt),
                Some("appVersion"),
                Some(jstr("300.9.1")),
                "userid",
                None,
            ),
            true,
            false,
        ),
        (
            "version_gt_fail",
            cond(
                ConditionType::UserField,
                Some(OperatorType::VersionGt),
                Some("appVersion"),
                Some(jstr("300.10.2")),
                "userid",
                None,
            ),
            false,
            false,
        ),
        (
            "version_gte_pass",
            cond(
                ConditionType::UserField,
                Some(OperatorType::VersionGte),
                Some("appVersion"),
                Some(jstr("300.10.1")),
                "userid",
                None,
            ),
            true,
            false,
        ),
        (
            "version_gte_pass_equal",
            cond(
                ConditionType::UserField,
                Some(OperatorType::VersionGte),
                Some("appVersion"),
                Some(jstr("300.10.2")),
                "userid",
                None,
            ),
            true,
            false,
        ),
        (
            "version_gte_fail",
            cond(
                ConditionType::UserField,
                Some(OperatorType::VersionGte),
                Some("appVersion"),
                Some(jstr("300.11.0")),
                "userid",
                None,
            ),
            false,
            false,
        ),
        (
            "version_lt_pass",
            cond(
                ConditionType::UserField,
                Some(OperatorType::VersionLt),
                Some("appVersion"),
                Some(jstr("300.10.3")),
                "userid",
                None,
            ),
            true,
            false,
        ),
        (
            "version_lt_fail",
            cond(
                ConditionType::UserField,
                Some(OperatorType::VersionLt),
                Some("appVersion"),
                Some(jstr("200.10.2")),
                "userid",
                None,
            ),
            false,
            false,
        ),
        (
            "version_lte_pass",
            cond(
                ConditionType::UserField,
                Some(OperatorType::VersionLte),
                Some("appVersion"),
                Some(jstr("300.10.3")),
                "userid",
                None,
            ),
            true,
            false,
        ),
        (
            "version_lte_pass_equal",
            cond(
                ConditionType::UserField,
                Some(OperatorType::VersionLte),
                Some("appVersion"),
                Some(jstr("300.10.2")),
                "userid",
                None,
            ),
            true,
            false,
        ),
        (
            "version_lte_fail",
            cond(
                ConditionType::UserField,
                Some(OperatorType::VersionLte),
                Some("appVersion"),
                Some(jstr("300.10.1")),
                "userid",
                None,
            ),
            false,
            false,
        ),
        (
            "any_pass",
            cond(
                ConditionType::UnitId,
                Some(OperatorType::Any),
                Some("field"),
                Some(jarr(vec![jstr("not_userid"), jstr("user_iD")])),
                "userid",
                None,
            ),
            true,
            false,
        ),
        (
            "any_pass_number",
            cond(
                ConditionType::UserField,
                Some(OperatorType::Any),
                Some("totalDeposit"),
                Some(jarr(vec![jnum(15), jnum(30)])),
                "userid",
                None,
            ),
            true,
            false,
        ),
        (
            "any_fail",
            cond(
                ConditionType::UnitId,
                Some(OperatorType::Any),
                Some("field"),
                Some(jarr(vec![jstr("not_userid"), jstr("not_user_id2")])),
                "userid",
                None,
            ),
            false,
            false,
        ),
        (
            "none_pass",
            cond(
                ConditionType::UnitId,
                Some(OperatorType::NoneOf),
                None,
                Some(jarr(vec![jstr("not_userid"), jstr("not_user_id2")])),
                "userid",
                None,
            ),
            true,
            false,
        ),
        (
            "none_fail",
            cond(
                ConditionType::UnitId,
                Some(OperatorType::NoneOf),
                None,
                Some(jarr(vec![jstr("not_userid"), jstr("user_iD")])),
                "userid",
                None,
            ),
            false,
            false,
        ),
        (
            "eq_pass",
            cond(
                ConditionType::UnitId,
                Some(OperatorType::Eq),
                Some("field"),
                Some(jstr("user_id")),
                "userid",
                None,
            ),
            true,
            false,
        ),
        (
            "eq_fail_null",
            cond(
                ConditionType::UnitId,
                Some(OperatorType::Eq),
                Some("field"),
                None,
                "userid",
                None,
            ),
            false,
            false,
        ),
        (
            "eq_fail_different",
            cond(
                ConditionType::UnitId,
                Some(OperatorType::Eq),
                Some("field"),
                Some(jstr("notid")),
                "userid",
                None,
            ),
            false,
            false,
        ),
        (
            "neq_pass",
            cond(
                ConditionType::UnitId,
                Some(OperatorType::Neq),
                Some("field"),
                Some(jstr("notuser_id")),
                "userid",
                None,
            ),
            true,
            false,
        ),
        (
            "neq_pass_null",
            cond(
                ConditionType::UnitId,
                Some(OperatorType::Neq),
                Some("field"),
                None,
                "userid",
                None,
            ),
            true,
            false,
        ),
        (
            "neq_fail_equal",
            cond(
                ConditionType::UnitId,
                Some(OperatorType::Neq),
                Some("field"),
                Some(jstr("user_id")),
                "userid",
                None,
            ),
            false,
            false,
        ),
        (
            "before_pass",
            cond(
                ConditionType::CurrentTime,
                Some(OperatorType::Before),
                Some("field"),
                Some(jnum((now + 300) * 1000)),
                "userid",
                None,
            ),
            true,
            false,
        ),
        (
            "before_fail",
            cond(
                ConditionType::CurrentTime,
                Some(OperatorType::Before),
                Some("field"),
                Some(jnum((now - 300) * 1000)),
                "userid",
                None,
            ),
            false,
            false,
        ),
        (
            "after_pass",
            cond(
                ConditionType::CurrentTime,
                Some(OperatorType::After),
                Some("field"),
                Some(jnum((now - 300) * 1000)),
                "userid",
                None,
            ),
            true,
            false,
        ),
        (
            "after_fail",
            cond(
                ConditionType::CurrentTime,
                Some(OperatorType::After),
                Some("field"),
                Some(jnum((now + 300) * 1000)),
                "userid",
                None,
            ),
            false,
            false,
        ),
        (
            "on_pass",
            cond(
                ConditionType::CurrentTime,
                Some(OperatorType::On),
                Some("field"),
                Some(jnum(now * 1000)),
                "userid",
                None,
            ),
            true,
            false,
        ),
        (
            "on_fail",
            cond(
                ConditionType::CurrentTime,
                Some(OperatorType::On),
                Some("field"),
                Some(jnum((now + 36 * 60 * 60) * 1000)),
                "userid",
                None,
            ),
            false,
            false,
        ),
        (
            "pass_gate_pass",
            cond(
                ConditionType::PassGate,
                None,
                Some("field"),
                Some(jstr("user_id_match")),
                "userid",
                None,
            ),
            true,
            false,
        ),
        (
            "pass_gate_fail",
            cond(
                ConditionType::PassGate,
                None,
                Some("field"),
                Some(jstr("user_id_not_match")),
                "userid",
                None,
            ),
            false,
            false,
        ),
        (
            "pass_gate_fail_gate_does_not_exist",
            cond(
                ConditionType::PassGate,
                None,
                Some("field"),
                Some(jstr("invalid_gate")),
                "userid",
                None,
            ),
            false,
            false,
        ),
        (
            "fail_gate_pass",
            cond(
                ConditionType::FailGate,
                None,
                Some("field"),
                Some(jstr("user_id_not_match")),
                "userid",
                None,
            ),
            true,
            false,
        ),
        (
            "fail_gate_fail",
            cond(
                ConditionType::FailGate,
                None,
                Some("field"),
                Some(jstr("user_id_match")),
                "userid",
                None,
            ),
            false,
            false,
        ),
        (
            "fail_gate_fail_empty_target",
            cond(
                ConditionType::FailGate,
                None,
                Some("field"),
                None,
                "userid",
                None,
            ),
            false,
            false,
        ),
    ];
    for (name, condition, expected_pass, expected_fetch) in cases.iter() {
        check_condition(name, &user, condition, *expected_pass, *expected_fetch)?;
    }
    Ok(())
}

fn public_gate(name: &str, pass_percentage_bp: u32) -> ConfigSpec {
    ConfigSpec {
        name: name.to_string(),
        spec_type: ConfigSpecType::FeatureGate,
        salt: "salt".to_string(),
        enabled: true,
        default_value: JsonValue::Bool(false),
        id_type: Some("userID".to_string()),
        rules: Some(vec![ConfigRule {
            name: "public".to_string(),
            group_name: Some("public".to_string()),
            id: "public1".to_string(),
            salt: "salt_rule".to_string(),
            pass_percentage_bp,
            id_type: "userID".to_string(),
            return_value: JsonValue::Bool(true),
            conditions: vec![cond(ConditionType::Public, None, None, None, "userid", None)],
        }]),
    }
}

#[test]
fn test_check_gate_pass() {
    let gate = public_gate("test_gate", 10000);
    let user = &StatsigUser::new("user_id".to_string(), "production".to_string());
    let mut evaluator = Evaluator::new();
    evaluator.refresh_configs(ConfigData {
        feature_gates: Some(vec![gate]),
        dynamic_configs: None,
        layer_configs: None,
        has_updates: false,
        time: None,
    });
    let now = now_secs();
    assert!(
        evaluator
            .check_gate_internal(user, &"test_gate".to_string(), now)
            .pass
    );
    assert!(
        !evaluator
            .check_gate_internal(user, &"test_gate2".to_string(), now)
            .pass
    );

    let gate = public_gate("test_gate", 0);
    let user = &StatsigUser::new("user_id".to_string(), "production".to_string());
    evaluator.refresh_configs(ConfigData {
        feature_gates: Some(vec![gate]),
        dynamic_configs: None,
        layer_configs: None,
        has_updates: false,
        time: None,
    });
    assert!(
        !evaluator
            .check_gate_internal(user, &"test_gate".to_string(), now)
            .pass
    );
}
