use vstd::prelude::*;
use vstd::string::*;

use crate::jsonval::{json_view, JsonV, JsonValue};
use crate::strmap::StringMap;

verus! {

/// One snapshot of the rule catalog, as the control plane ships it.
#[derive(Debug)]
pub struct ConfigData {
    pub dynamic_configs: Option<Vec<ConfigSpec>>,
    pub feature_gates: Option<Vec<ConfigSpec>>,
    pub layer_configs: Option<Vec<ConfigSpec>>,
    pub has_updates: bool,
    pub time: Option<u64>,
}

/// A gate or dynamic config: a named, salted, ordered list of rules.
#[derive(Debug)]
pub struct ConfigSpec {
    pub name: String,
    pub spec_type: ConfigSpecType,
    pub salt: String,
    pub enabled: bool,
    pub rules: Option<Vec<ConfigRule>>,
    pub default_value: JsonValue,
    pub id_type: Option<String>,
}

#[derive(Debug, Clone, Copy, PartialEq, Eq, Structural)]
pub enum ConfigSpecType {
    DynamicConfig,
    FeatureGate,
    Unknown,
}

/// One rule of a spec. `pass_percentage_bp` is the rule's pass percentage in
/// hundredths of a percent (basis points): a bucket in [0, 10000) passes when
/// it is below this bound, so 10000 is always-on and 0 is always-off.
#[derive(Debug)]
pub struct ConfigRule {
    pub name: String,
    pub id: String,
    pub salt: String,
    pub pass_percentage_bp: u32,
    pub conditions: Vec<ConfigCondition>,
    pub return_value: JsonValue,
    pub id_type: String,
    pub group_name: Option<String>,
}

/// One condition of a rule; all of a rule's conditions must pass.
#[derive(Debug)]
pub struct ConfigCondition {
    pub condition_type: ConditionType,
    pub operator: Option<OperatorType>,
    pub field: Option<String>,
    pub target_value: Option<JsonValue>,
    pub additional_values: Option<StringMap>,
    pub id_type: String,
}

#[derive(Debug, Clone, Copy, PartialEq, Eq, Structural)]
pub enum ConditionType {
    Public,
    FailGate,
    PassGate,
    IpBased,
    UaBased,
    UserField,
    EnvironmentField,
    CurrentTime,
    UserBucket,
    UnitId,
    Unknown,
}

#[derive(Debug, Clone, Copy, PartialEq, Eq, Structural)]
pub enum OperatorType {
    Gt,
    Gte,
    Lt,
    Lte,
    VersionGt,
    VersionGte,
    VersionLt,
    VersionLte,
    VersionEq,
    VersionNeq,
    Any,
    NoneOf,
    AnyCaseSensitive,
    NoneCaseSensitive,
    StrStartsWithAny,
    StrEndsWithAny,
    StrContainsAny,
    StrContainsNone,
    StrMatches,
    Eq,
    Neq,
    Before,
    After,
    On,
    InSegmentList,
    NotInSegmentList,
    Unknown,
}

/// An exposure synthesized while a gate was evaluated as a sub-condition of
/// another evaluation: the triple (gate, gateValue, ruleID).
#[derive(Debug, Clone, PartialEq)]
pub struct SecondaryExposure {
    pub gate: String,
    pub gate_value: String,
    pub rule_id: String,
}

/// The shape of a secondary exposure.
pub struct ExposureV {
    pub gate: Seq<char>,
    pub gate_value: Seq<char>,
    pub rule_id: Seq<char>,
}

impl View for SecondaryExposure {
    type V = ExposureV;

    open spec fn view(&self) -> ExposureV {
        ExposureV { gate: self.gate@, gate_value: self.gate_value@, rule_id: self.rule_id@ }
    }
}

/// The shapes of a list of secondary exposures, in order.
pub open spec fn expo_views(s: Seq<SecondaryExposure>) -> Seq<ExposureV> {
    s.map_values(|e: SecondaryExposure| e@)
}

/// What one evaluation decided. When `fetch_from_server` is set every other
/// field is meaningless and must be ignored.
#[derive(Debug)]
pub struct EvalResult {
    pub pass: bool,
    pub config_value: Option<JsonValue>,
    pub fetch_from_server: bool,
    pub id: String,
    pub secondary_exposures: Vec<SecondaryExposure>,
    pub group: String,
    pub group_name: Option<String>,
    pub rule_id: String,
}

/// The shape of an evaluation result.
pub struct EvalResultV {
    pub pass: bool,
    pub config_value: Option<JsonV>,
    pub fetch_from_server: bool,
    pub id: Seq<char>,
    pub secondary_exposures: Seq<ExposureV>,
    pub group: Seq<char>,
    pub group_name: Option<Seq<char>>,
    pub rule_id: Seq<char>,
}

pub open spec fn opt_view(o: Option<String>) -> Option<Seq<char>> {
    match o {
        Some(s) => Some(s@),
        None => None,
    }
}

pub open spec fn opt_json(o: Option<JsonValue>) -> Option<JsonV> {
    match o {
        Some(v) => Some(json_view(v)),
        None => None,
    }
}

impl View for EvalResult {
    type V = EvalResultV;

    open spec fn view(&self) -> EvalResultV {
        EvalResultV {
            pass: self.pass,
            config_value: opt_json(self.config_value),
            fetch_from_server: self.fetch_from_server,
            id: self.id@,
            secondary_exposures: expo_views(self.secondary_exposures@),
            group: self.group@,
            group_name: opt_view(self.group_name),
            rule_id: self.rule_id@,
        }
    }
}

/// An evaluation result with all fields at their defaults but the two flags:
/// no config value, no exposures, every label `"default"`.
pub open spec fn ev_new(pass: bool, fetch_from_server: bool) -> EvalResultV {
    EvalResultV {
        pass,
        config_value: None,
        fetch_from_server,
        id: "default"@,
        secondary_exposures: Seq::empty(),
        group: "default"@,
        group_name: Some("default"@),
        rule_id: "default"@,
    }
}

impl EvalResult {
    /// A passing result with default labels.
    pub fn pass() -> (r: Self)
        ensures
            r@ == ev_new(true, false),
    {
        Self::new(true, false)
    }

    /// A failing result with default labels.
    pub fn fail() -> (r: Self)
        ensures
            r@ == ev_new(false, false),
    {
        Self::new(false, false)
    }

    /// A result that defers the whole check to the control plane.
    pub fn fetch_from_server() -> (r: Self)
        ensures
            r@ == ev_new(false, true),
    {
        Self::new(false, true)
    }

    fn new(pass: bool, fetch_from_server: bool) -> (r: Self)
        ensures
            r@ == ev_new(pass, fetch_from_server),
    {
        let r = EvalResult {
            pass,
            fetch_from_server,
            config_value: None,
            id: String::from_str("default"),
            secondary_exposures: Vec::new(),
            group: String::from_str("default"),
            group_name: Some(String::from_str("default")),
            rule_id: String::from_str("default"),
        };
        proof {
            assert(expo_views(r.secondary_exposures@) =~= Seq::<ExposureV>::empty());
        }
        r
    }
}

impl Default for EvalResult {
    fn default() -> (r: Self)
        ensures
            r@ == ev_new(false, false),
    {
        Self::fail()
    }
}

} // verus!
