//! The processor's configuration: the settings read from the environment and
//! the application configuration served by the Moesif API.

use vstd::prelude::*;
use crate::headers::{find_header, get_header, pair_views};
use crate::map::{lookup, StringMap};
use crate::text::{concat, parse_usize, parse_usize_spec, split_char, split_spec, str_eq};

verus! {

/// The processor's configuration.
pub struct Config {
    pub env: EnvConfig,
    pub event_queue_id: u32,
}

/// The settings read from the environment.
pub struct EnvConfig {
    pub moesif_application_id: String,
    pub user_id_header: Option<String>,
    pub company_id_header: Option<String>,
    pub batch_max_size: usize,
    pub batch_max_wait: usize,
    pub upstream: String,
    pub base_uri: String,
    pub debug: bool,
    pub connection_timeout: usize,
}

/// The raw values of the environment variables the configuration is read
/// from (`None` for a variable that is unset or not valid Unicode):
/// MOESIF_APPLICATION_ID, USER_ID_HEADER, COMPANY_ID_HEADER, BATCH_MAX_SIZE,
/// BATCH_MAX_WAIT, UPSTREAM, DEBUG and CONNECTION_TIMEOUT.
pub struct EnvVars {
    pub moesif_application_id: Option<String>,
    pub user_id_header: Option<String>,
    pub company_id_header: Option<String>,
    pub batch_max_size: Option<String>,
    pub batch_max_wait: Option<String>,
    pub upstream: Option<String>,
    pub debug: Option<String>,
    pub connection_timeout: Option<String>,
}

pub fn default_batch_max_size() -> (n: usize)
    ensures
        n == 100,
{
    100
}

pub fn default_batch_max_wait() -> (n: usize)
    ensures
        n == 2000,
{
    2000
}

pub fn default_upstream() -> (s: String)
    ensures
        s@ == "moesif_api"@,
{
    "moesif_api".to_string()
}

pub fn default_base_uri() -> (s: String)
    ensures
        s@ == "api.moesif.net"@,
{
    "api.moesif.net".to_string()
}

pub fn default_debug() -> (b: bool)
    ensures
        !b,
{
    false
}

pub fn connection_timeout() -> (n: usize)
    ensures
        n == 5000,
{
    5000
}

/// The base URI named by an upstream of the form `outbound|443||host`: the
/// text after the third `|`, behind `https://`; `None` unless the upstream
/// has exactly four `|`-separated parts.
pub open spec fn upstream_base_uri(upstream: Seq<char>) -> Option<Seq<char>> {
    let parts = split_spec(upstream, '|');
    if parts.len() == 4 {
        Some("https://"@ + parts[3])
    } else {
        None
    }
}

/// A number setting: the variable's value when it parses as a `usize`, the
/// default otherwise.
pub open spec fn number_setting(v: Option<Seq<char>>, default: usize) -> usize {
    match v {
        Some(s) => match parse_usize_spec(s) {
            Some(n) => n,
            None => default,
        },
        None => default,
    }
}

/// A text setting: the variable's value when set, the default otherwise.
pub open spec fn text_setting(v: Option<Seq<char>>, default: Seq<char>) -> Seq<char> {
    match v {
        Some(s) => s,
        None => default,
    }
}

fn number_or(v: &Option<String>, default: usize) -> (n: usize)
    ensures
        n == number_setting(v.deep_view(), default),
{
    match v {
        Some(s) => match parse_usize(s.as_str()) {
            Some(n) => n,
            None => default,
        },
        None => default,
    }
}

impl EnvConfig {
    /// The settings the environment gives: each variable's value when it is
    /// set (numbers when they parse), the documented default otherwise; the
    /// base URI from the upstream when it has the `outbound|443||host` form,
    /// `api.moesif.net` otherwise; debug on only for the value `true`.
    pub fn new(vars: EnvVars) -> (c: Self)
        ensures
            c.moesif_application_id@ == text_setting(
                vars.moesif_application_id.deep_view(),
                Seq::empty(),
            ),
            c.user_id_header.deep_view() == vars.user_id_header.deep_view(),
            c.company_id_header.deep_view() == vars.company_id_header.deep_view(),
            c.batch_max_size == number_setting(vars.batch_max_size.deep_view(), 100),
            c.batch_max_wait == number_setting(vars.batch_max_wait.deep_view(), 2000),
            c.upstream@ == text_setting(vars.upstream.deep_view(), "moesif_api"@),
            c.base_uri@ == match upstream_base_uri(c.upstream@) {
                Some(u) => u,
                None => "api.moesif.net"@,
            },
            c.debug == (vars.debug.deep_view() == Some("true"@)),
            c.connection_timeout == number_setting(vars.connection_timeout.deep_view(), 5000),
    {
        let moesif_application_id = match vars.moesif_application_id {
            Some(s) => s,
            None => String::new(),
        };
        let batch_max_size = number_or(&vars.batch_max_size, default_batch_max_size());
        let batch_max_wait = number_or(&vars.batch_max_wait, default_batch_max_wait());
        let upstream = match vars.upstream {
            Some(s) => s,
            None => default_upstream(),
        };
        let base_uri = match Self::parse_upstream_url(upstream.as_str()) {
            Ok(u) => u,
            Err(_) => default_base_uri(),
        };
        let debug = match &vars.debug {
            Some(v) => str_eq(v.as_str(), "true"),
            None => default_debug(),
        };
        let connection_timeout = number_or(&vars.connection_timeout, connection_timeout());
        EnvConfig {
            moesif_application_id,
            user_id_header: vars.user_id_header,
            company_id_header: vars.company_id_header,
            batch_max_size,
            batch_max_wait,
            upstream,
            base_uri,
            debug,
            connection_timeout,
        }
    }

    /// `https://host` for an upstream `outbound|443||host` (four
    /// `|`-separated parts); an error for any other shape.
    pub fn parse_upstream_url(upstream: &str) -> (r: Result<String, ()>)
        ensures
            match r {
                Ok(u) => upstream_base_uri(upstream@) == Some(u@),
                Err(_) => upstream_base_uri(upstream@) is None,
            },
    {
        let parts = split_char(upstream, '|');
        if parts.len() == 4 {
            Ok(concat("https://", parts[3].as_str()))
        } else {
            Err(())
        }
    }

    /// The empty settings `EnvConfig::default()` gives.
    pub fn empty() -> (c: Self)
        ensures
            c.moesif_application_id@ == Seq::<char>::empty(),
            c.user_id_header is None,
            c.company_id_header is None,
            c.batch_max_size == 0,
            c.batch_max_wait == 0,
            c.upstream@ == Seq::<char>::empty(),
            c.base_uri@ == Seq::<char>::empty(),
            !c.debug,
            c.connection_timeout == 0,
    {
        EnvConfig {
            moesif_application_id: String::new(),
            user_id_header: None,
            company_id_header: None,
            batch_max_size: 0,
            batch_max_wait: 0,
            upstream: String::new(),
            base_uri: String::new(),
            debug: false,
            connection_timeout: 0,
        }
    }

    /// A copy of the settings.
    pub fn duplicate(&self) -> (c: Self)
        ensures
            c.moesif_application_id@ == self.moesif_application_id@,
            c.user_id_header.deep_view() == self.user_id_header.deep_view(),
            c.company_id_header.deep_view() == self.company_id_header.deep_view(),
            c.batch_max_size == self.batch_max_size,
            c.batch_max_wait == self.batch_max_wait,
            c.upstream@ == self.upstream@,
            c.base_uri@ == self.base_uri@,
            c.debug == self.debug,
            c.connection_timeout == self.connection_timeout,
    {
        EnvConfig {
            moesif_application_id: self.moesif_application_id.clone(),
            user_id_header: crate::event::duplicate_opt(&self.user_id_header),
            company_id_header: crate::event::duplicate_opt(&self.company_id_header),
            batch_max_size: self.batch_max_size,
            batch_max_wait: self.batch_max_wait,
            upstream: self.upstream.clone(),
            base_uri: self.base_uri.clone(),
            debug: self.debug,
            connection_timeout: self.connection_timeout,
        }
    }
}

/// The application configuration served by the Moesif API.
pub struct AppConfigResponse {
    pub org_id: String,
    pub app_id: String,
    pub sample_rate: i32,
    pub block_bot_traffic: bool,
    pub user_sample_rate: StringMap<i32>,
    pub company_sample_rate: StringMap<i32>,
    pub user_rules: StringMap<Vec<EntityRuleValues>>,
    pub company_rules: StringMap<Vec<EntityRuleValues>>,
    pub ip_addresses_blocked_by_name: StringMap<String>,
    pub regex_config: Vec<RegexRule>,
    pub billing_config_jsons: StringMap<String>,
    pub e_tag: Option<String>,
}

/// The rules that apply to one user or company, with their values.
pub struct EntityRuleValues {
    pub rules: String,
    pub values: Option<StringMap<String>>,
}

/// A sampling rule: a sample rate for requests that meet all conditions.
pub struct RegexRule {
    pub conditions: Vec<RegexCondition>,
    pub sample_rate: i32,
}

/// One condition of a sampling rule: a request field and a regex.
pub struct RegexCondition {
    pub path: String,
    pub value: String,
}

/// The sampling percentage for a user and a company: the user's rate when the
/// user has one, else the company's rate when it has one, else the default.
pub open spec fn sampling_percentage(
    user_rates: Seq<(Seq<char>, i32)>,
    company_rates: Seq<(Seq<char>, i32)>,
    default: i32,
    user_id: Option<Seq<char>>,
    company_id: Option<Seq<char>>,
) -> i32 {
    if user_id is Some && lookup(user_rates, user_id->0) is Some {
        lookup(user_rates, user_id->0)->0
    } else if company_id is Some && lookup(company_rates, company_id->0) is Some {
        lookup(company_rates, company_id->0)->0
    } else {
        default
    }
}

impl AppConfigResponse {
    /// An empty configuration that samples every request (rate 100).
    pub fn new() -> (c: Self)
        ensures
            c.org_id@ == Seq::<char>::empty(),
            c.app_id@ == Seq::<char>::empty(),
            c.sample_rate == 100,
            !c.block_bot_traffic,
            c.user_sample_rate@.len() == 0,
            c.company_sample_rate@.len() == 0,
            c.user_rules@.len() == 0,
            c.company_rules@.len() == 0,
            c.ip_addresses_blocked_by_name@.len() == 0,
            c.regex_config@.len() == 0,
            c.billing_config_jsons@.len() == 0,
            c.e_tag is None,
    {
        AppConfigResponse {
            org_id: String::new(),
            app_id: String::new(),
            sample_rate: 100,
            block_bot_traffic: false,
            user_sample_rate: StringMap::new(),
            company_sample_rate: StringMap::new(),
            user_rules: StringMap::new(),
            company_rules: StringMap::new(),
            ip_addresses_blocked_by_name: StringMap::new(),
            regex_config: Vec::new(),
            billing_config_jsons: StringMap::new(),
            e_tag: None,
        }
    }

    /// The percentage of requests to sample: the user's rate if the user has
    /// one, else the company's, else the application's.
    pub fn get_sampling_percentage(&self, user_id: Option<&str>, company_id: Option<&str>) -> (r:
        i32)
        ensures
            r == sampling_percentage(
                self.user_sample_rate@,
                self.company_sample_rate@,
                self.sample_rate,
                match user_id {
                    Some(u) => Some(u@),
                    None => None,
                },
                match company_id {
                    Some(c) => Some(c@),
                    None => None,
                },
            ),
    {
        if let Some(user_id) = user_id {
            if let Some(user_rate) = self.user_sample_rate.get(user_id) {
                return *user_rate;
            }
        }
        if let Some(company_id) = company_id {
            if let Some(company_rate) = self.company_sample_rate.get(company_id) {
                return *company_rate;
            }
        }
        self.sample_rate
    }
}

impl AppConfigResponse {
    /// Takes the configuration's entity tag from the `X-Moesif-Config-Etag`
    /// header of the API's reply (names compared up to ASCII case); no tag
    /// when the reply has none.
    pub fn set_e_tag_from(&mut self, headers: &Vec<(String, String)>)
        ensures
            final(self).e_tag.deep_view() == find_header(
                pair_views(headers@),
                "X-Moesif-Config-Etag"@,
            ),
            final(self).sample_rate == old(self).sample_rate,
            final(self).user_sample_rate@ == old(self).user_sample_rate@,
            final(self).company_sample_rate@ == old(self).company_sample_rate@,
    {
        self.e_tag = get_header(headers, "X-Moesif-Config-Etag");
    }
}

} // verus!
