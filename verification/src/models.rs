use vstd::prelude::*;

use crate::strmap::{sm_lookup, sm_lookup_lowered, StringMap};
use crate::strutil::{is_lowered, str_is_lowered};

verus! {

/// The environment a user carries; only its tier is recognized.
#[derive(Debug, Clone, PartialEq)]
pub struct StatsigEnvironment {
    pub tier: String,
}

pub open spec fn opt_str(o: Option<String>) -> Seq<char> {
    match o {
        Some(s) => s@,
        None => Seq::empty(),
    }
}

/// An environment field lookup: the tier under the name "tier" (in any ASCII
/// case), the empty string for every other name.
pub open spec fn s_env_field(env: StatsigEnvironment, field: Seq<char>) -> Seq<char> {
    if is_lowered("tier"@, field) {
        env.tier@
    } else {
        Seq::empty()
    }
}

impl StatsigEnvironment {
    /// Look an environment field up by its case-insensitive name.
    pub fn get_field(&self, field: &str) -> (r: String)
        ensures
            r@ == s_env_field(*self, field@),
    {
        if str_is_lowered("tier", field) {
            self.tier.clone()
        } else {
            String::new()
        }
    }
}

/// The subject of a check: a user id, optional profile fields, and the
/// custom / customIDs / privateAttributes maps.
#[derive(Debug, Clone, PartialEq)]
pub struct StatsigUser {
    pub user_id: String,
    pub email: Option<String>,
    pub ip: Option<String>,
    pub user_agent: Option<String>,
    pub country: Option<String>,
    pub locale: Option<String>,
    pub app_version: Option<String>,
    pub custom: Option<StringMap>,
    pub private_atributes: Option<StringMap>,
    pub custom_ids: Option<StringMap>,
    pub statsig_environment: StatsigEnvironment,
}

/// The unit id that seeds bucketing for `id_type`: the user id when the type
/// is "userid" in any ASCII case; else the customIDs entry under the type as
/// given, then under its lowercase form; else the user id.
pub open spec fn s_unit_id(user: StatsigUser, id_type: Seq<char>) -> Seq<char> {
    if is_lowered("userid"@, id_type) {
        user.user_id@
    } else {
        match user.custom_ids {
            Some(m) => match sm_lookup(m@, id_type) {
                Some(v) => v,
                None => match sm_lookup_lowered(m@, id_type) {
                    Some(v) => v,
                    None => user.user_id@,
                },
            },
            None => user.user_id@,
        }
    }
}

/// A user field lookup by case-insensitive name: the fixed fields first, then
/// the custom map (exact key, then lowercased key), then — only when there is
/// no custom map at all — the private attributes the same way; the empty
/// string when nothing matches.
pub open spec fn s_user_field(user: StatsigUser, field: Seq<char>) -> Seq<char> {
    if is_lowered("userid"@, field) || is_lowered("user_id"@, field) {
        user.user_id@
    } else if is_lowered("email"@, field) {
        opt_str(user.email)
    } else if is_lowered("ip"@, field) || is_lowered("ipaddress"@, field) || is_lowered(
        "ip_address"@,
        field,
    ) {
        opt_str(user.ip)
    } else if is_lowered("useragent"@, field) || is_lowered("user_agent"@, field) {
        opt_str(user.user_agent)
    } else if is_lowered("country"@, field) {
        opt_str(user.country)
    } else if is_lowered("locale"@, field) {
        opt_str(user.locale)
    } else if is_lowered("appversion"@, field) || is_lowered("app_version"@, field) {
        opt_str(user.app_version)
    } else {
        match user.custom {
            Some(m) => match sm_lookup(m@, field) {
                Some(v) => v,
                None => match sm_lookup_lowered(m@, field) {
                    Some(v) => v,
                    None => Seq::empty(),
                },
            },
            None => match user.private_atributes {
                Some(m) => match sm_lookup(m@, field) {
                    Some(v) => v,
                    None => match sm_lookup_lowered(m@, field) {
                        Some(v) => v,
                        None => Seq::empty(),
                    },
                },
                None => Seq::empty(),
            },
        }
    }
}

impl StatsigUser {
    /// A user with just an id and an environment tier.
    pub fn new(user_id: String, tier: String) -> (r: Self)
        ensures
            r.user_id == user_id,
            r.email is None,
            r.ip is None,
            r.user_agent is None,
            r.country is None,
            r.locale is None,
            r.app_version is None,
            r.custom is None,
            r.private_atributes is None,
            r.custom_ids is None,
            r.statsig_environment.tier == tier,
    {
        StatsigUser {
            user_id,
            email: None,
            ip: None,
            user_agent: None,
            country: None,
            locale: None,
            app_version: None,
            custom: None,
            private_atributes: None,
            custom_ids: None,
            statsig_environment: StatsigEnvironment { tier },
        }
    }

    /// Fetch the id of `id_type` for the user; defaults to the user id.
    pub fn get_unit_id(&self, id_type: &String) -> (r: String)
        ensures
            r@ == s_unit_id(*self, id_type@),
    {
        if str_is_lowered("userid", id_type.as_str()) {
            return self.user_id.clone();
        }
        match &self.custom_ids {
            Some(m) => {
                match m.get(id_type.as_str()) {
                    Some(v) => v.clone(),
                    None => match m.get_lowered(id_type.as_str()) {
                        Some(v) => v.clone(),
                        None => self.user_id.clone(),
                    },
                }
            },
            None => self.user_id.clone(),
        }
    }

    /// Look a user field up by its case-insensitive name.
    pub fn get_field(&self, field: &String) -> (r: String)
        ensures
            r@ == s_user_field(*self, field@),
    {
        let f = field.as_str();
        if str_is_lowered("userid", f) || str_is_lowered("user_id", f) {
            self.user_id.clone()
        } else if str_is_lowered("email", f) {
            clone_or_empty(&self.email)
        } else if str_is_lowered("ip", f) || str_is_lowered("ipaddress", f) || str_is_lowered(
            "ip_address",
            f,
        ) {
            clone_or_empty(&self.ip)
        } else if str_is_lowered("useragent", f) || str_is_lowered("user_agent", f) {
            clone_or_empty(&self.user_agent)
        } else if str_is_lowered("country", f) {
            clone_or_empty(&self.country)
        } else if str_is_lowered("locale", f) {
            clone_or_empty(&self.locale)
        } else if str_is_lowered("appversion", f) || str_is_lowered("app_version", f) {
            clone_or_empty(&self.app_version)
        } else {
            match &self.custom {
                Some(m) => {
                    match m.get(f) {
                        Some(v) => v.clone(),
                        None => match m.get_lowered(f) {
                            Some(v) => v.clone(),
                            None => String::new(),
                        },
                    }
                },
                None => match &self.private_atributes {
                    Some(m) => {
                        match m.get(f) {
                            Some(v) => v.clone(),
                            None => match m.get_lowered(f) {
                                Some(v) => v.clone(),
                                None => String::new(),
                            },
                        }
                    },
                    None => String::new(),
                },
            }
        }
    }
}

fn clone_or_empty(o: &Option<String>) -> (r: String)
    ensures
        r@ == opt_str(*o),
{
    match o {
        Some(s) => s.clone(),
        None => String::new(),
    }
}

/// Options for constructing a client; unset fields take the public defaults.
/// The sync interval is in seconds.
#[derive(Debug, Clone, PartialEq)]
pub struct StatsigOptions {
    pub api_url: Option<String>,
    pub cdn_url: Option<String>,
    pub events_url: Option<String>,
    pub disable_cache: bool,
    pub config_sync_interval: Option<u64>,
}

impl StatsigOptions {
    /// Options that keep the local cache and take every default.
    pub fn default() -> (r: Self)
        ensures
            r.api_url is None,
            r.cdn_url is None,
            r.events_url is None,
            !r.disable_cache,
            r.config_sync_interval is None,
    {
        Self {
            api_url: None,
            cdn_url: None,
            disable_cache: false,
            config_sync_interval: None,
            events_url: None,
        }
    }

    /// Options that disable the local cache: every call goes to the transport.
    pub fn cache_disabled() -> (r: Self)
        ensures
            r.api_url is None,
            r.cdn_url is None,
            r.events_url is None,
            r.disable_cache,
            r.config_sync_interval is None,
    {
        Self {
            api_url: None,
            cdn_url: None,
            disable_cache: true,
            config_sync_interval: None,
            events_url: None,
        }
    }
}

/// The value and group metadata a config check reports.
#[derive(Debug)]
pub struct StatsigConfig {
    pub value: Option<crate::jsonval::JsonValue>,
    pub name: String,
    pub group_name: Option<String>,
    pub rule_id: String,
    pub group: String,
}

/// A batch of events for the log endpoint.
#[derive(Debug, Clone, PartialEq)]
pub struct StatsigPost {
    pub events: Vec<StatsigEvent>,
}

/// One telemetry event: a name, a value, a time in unix seconds as a decimal
/// string, the full user, and a string-to-string metadata map.
#[derive(Debug, Clone, PartialEq)]
pub struct StatsigEvent {
    pub event_name: String,
    pub value: String,
    pub time: String,
    pub user: StatsigUser,
    pub metadata: StringMap,
}

} // verus!
