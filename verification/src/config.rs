//! The service configuration: its sections, their defaults, and how the
//! values read from `config.toml` become a `Config`.
use vstd::prelude::*;
use vstd::string::*;

verus! {

/// The whole configuration of the service.
#[derive(Debug, Clone)]
pub struct Config {
    pub host: String,
    pub port: u16,
    pub database_path: String,
    pub log_level: String,
    pub unicom: UnicomConfig,
    pub notify: NotifyConfig,
}

/// How the carrier's API is reached.
#[derive(Debug, Clone)]
pub struct UnicomConfig {
    pub login_url: String,
    pub query_url: String,
    pub balance_url: String,
    pub timeout: u64,
    pub connect_timeout: u64,
    pub user_agent: String,
    pub cookie_ttl: u64,
}

/// Service-wide notification settings and the origins allowed to call the API.
#[derive(Debug, Clone)]
pub struct NotifyConfig {
    pub telegram_bot_token: Option<String>,
    pub telegram_chat_id: Option<String>,
    pub allowed_origins: Vec<String>,
}

pub open spec fn default_login_url_text() -> Seq<char> {
    "https://m.client.10010.com/mobileService/onLine.htm"@
}

pub open spec fn default_query_url_text() -> Seq<char> {
    "https://m.client.10010.com/servicequerybusiness/operationservice/queryOcsPackageFlowLeftContentRevisedInJune"@
}

pub open spec fn default_balance_url_text() -> Seq<char> {
    "https://m.client.10010.com/servicequerybusiness/balancenew/accountBalancenew.htm"@
}

pub open spec fn default_user_agent_text() -> Seq<char> {
    "Mozilla/5.0 (iPhone; CPU iPhone OS 15_0 like Mac OS X) AppleWebKit/605.1.15"@
}

/// The database file used when none is configured.
pub fn default_database_path() -> (r: String)
    ensures
        r@ == "unicom.db"@,
{
    "unicom.db".to_owned()
}

/// The log level used when none is configured.
pub fn default_log_level() -> (r: String)
    ensures
        r@ == "info"@,
{
    "info".to_owned()
}

/// The carrier's login endpoint.
pub fn default_login_url() -> (r: String)
    ensures
        r@ == default_login_url_text(),
{
    "https://m.client.10010.com/mobileService/onLine.htm".to_owned()
}

/// The carrier's flow query endpoint.
pub fn default_query_url() -> (r: String)
    ensures
        r@ == default_query_url_text(),
{
    "https://m.client.10010.com/servicequerybusiness/operationservice/queryOcsPackageFlowLeftContentRevisedInJune".to_owned()
}

/// The carrier's balance query endpoint.
pub fn default_balance_url() -> (r: String)
    ensures
        r@ == default_balance_url_text(),
{
    "https://m.client.10010.com/servicequerybusiness/balancenew/accountBalancenew.htm".to_owned()
}

/// Request timeout in seconds.
pub fn default_timeout() -> (r: u64)
    ensures
        r == 30,
{
    30
}

/// Connection timeout in seconds.
pub fn default_connect_timeout() -> (r: u64)
    ensures
        r == 10,
{
    10
}

/// The user agent sent to the carrier.
pub fn default_user_agent() -> (r: String)
    ensures
        r@ == default_user_agent_text(),
{
    "Mozilla/5.0 (iPhone; CPU iPhone OS 15_0 like Mac OS X) AppleWebKit/605.1.15".to_owned()
}

/// How long a login cookie lives, in seconds.
pub fn default_cookie_ttl() -> (r: u64)
    ensures
        r == 7200,
{
    7200
}

/// Whether a carrier section holds the defaults everywhere.
pub open spec fn is_default_unicom(c: UnicomConfig) -> bool {
    &&& c.login_url@ == default_login_url_text()
    &&& c.query_url@ == default_query_url_text()
    &&& c.balance_url@ == default_balance_url_text()
    &&& c.timeout == 30
    &&& c.connect_timeout == 10
    &&& c.user_agent@ == default_user_agent_text()
    &&& c.cookie_ttl == 7200
}

impl Default for UnicomConfig {
    fn default() -> (r: Self)
        ensures
            is_default_unicom(r),
    {
        UnicomConfig {
            login_url: default_login_url(),
            query_url: default_query_url(),
            balance_url: default_balance_url(),
            timeout: default_timeout(),
            connect_timeout: default_connect_timeout(),
            user_agent: default_user_agent(),
            cookie_ttl: default_cookie_ttl(),
        }
    }
}

impl Default for NotifyConfig {
    fn default() -> (r: Self)
        ensures
            r.telegram_bot_token is None,
            r.telegram_chat_id is None,
            r.allowed_origins@.len() == 0,
    {
        NotifyConfig { telegram_bot_token: None, telegram_chat_id: None, allowed_origins: Vec::new() }
    }
}

/// The carrier section as read from the file: a key that is absent is `None`.
pub struct UnicomSource {
    pub login_url: Option<String>,
    pub query_url: Option<String>,
    pub balance_url: Option<String>,
    pub timeout: Option<u64>,
    pub connect_timeout: Option<u64>,
    pub user_agent: Option<String>,
    pub cookie_ttl: Option<u64>,
}

/// The notification section as read from the file.
pub struct NotifySource {
    pub telegram_bot_token: Option<String>,
    pub telegram_chat_id: Option<String>,
    pub allowed_origins: Option<Vec<String>>,
}

/// The configuration file as read: each key that is absent is `None`, and
/// a section that is absent is `None` too.
pub struct ConfigSource {
    pub host: Option<String>,
    pub port: Option<i64>,
    pub database_path: Option<String>,
    pub log_level: Option<String>,
    pub unicom: Option<UnicomSource>,
    pub notify: Option<NotifySource>,
}

/// Why a configuration was refused.
#[derive(Debug, PartialEq, Eq)]
pub enum ConfigError {
    /// A key without a default is absent (`host` or `port`).
    MissingField(String),
    /// `port` is not a valid port number.
    InvalidPort(i64),
}

impl ConfigError {
    /// The error's message.
    pub fn message(&self) -> (r: String)
        ensures
            self matches ConfigError::MissingField(f) ==> r@ == "missing field `"@ + f@ + "`"@,
            self matches ConfigError::InvalidPort(_) ==> r@ == "invalid value for field `port`"@,
    {
        match self {
            ConfigError::MissingField(f) => {
                let mut s = "missing field `".to_owned();
                s.append(f.as_str());
                s.append("`");
                s
            },
            ConfigError::InvalidPort(_) => "invalid value for field `port`".to_owned(),
        }
    }
}

pub open spec fn text_or(v: Option<String>, d: Seq<char>) -> Seq<char> {
    match v {
        Some(s) => s@,
        None => d,
    }
}

pub open spec fn num_or(v: Option<u64>, d: u64) -> u64 {
    match v {
        Some(n) => n,
        None => d,
    }
}

/// The carrier section that a source section yields: each absent key takes its default.
pub open spec fn unicom_from(s: UnicomSource, c: UnicomConfig) -> bool {
    &&& c.login_url@ == text_or(s.login_url, default_login_url_text())
    &&& c.query_url@ == text_or(s.query_url, default_query_url_text())
    &&& c.balance_url@ == text_or(s.balance_url, default_balance_url_text())
    &&& c.timeout == num_or(s.timeout, 30)
    &&& c.connect_timeout == num_or(s.connect_timeout, 10)
    &&& c.user_agent@ == text_or(s.user_agent, default_user_agent_text())
    &&& c.cookie_ttl == num_or(s.cookie_ttl, 7200)
}

/// The notification section that a source section yields.
pub open spec fn notify_from(s: NotifySource, c: NotifyConfig) -> bool {
    &&& c.telegram_bot_token == s.telegram_bot_token
    &&& c.telegram_chat_id == s.telegram_chat_id
    &&& c.allowed_origins@ == (match s.allowed_origins {
        Some(v) => v@,
        None => Seq::<String>::empty(),
    })
}

fn string_or(v: Option<String>, d: String) -> (r: String)
    ensures
        r@ == text_or(v, d@),
{
    match v {
        Some(s) => s,
        None => d,
    }
}

fn u64_or(v: Option<u64>, d: u64) -> (r: u64)
    ensures
        r == num_or(v, d),
{
    match v {
        Some(n) => n,
        None => d,
    }
}

impl UnicomConfig {
    /// The carrier section from its source, defaults filled in.
    pub fn from_source(s: UnicomSource) -> (r: UnicomConfig)
        ensures
            unicom_from(s, r),
    {
        UnicomConfig {
            login_url: string_or(s.login_url, default_login_url()),
            query_url: string_or(s.query_url, default_query_url()),
            balance_url: string_or(s.balance_url, default_balance_url()),
            timeout: u64_or(s.timeout, default_timeout()),
            connect_timeout: u64_or(s.connect_timeout, default_connect_timeout()),
            user_agent: string_or(s.user_agent, default_user_agent()),
            cookie_ttl: u64_or(s.cookie_ttl, default_cookie_ttl()),
        }
    }
}

impl NotifyConfig {
    /// The notification section from its source; no origin list means none.
    pub fn from_source(s: NotifySource) -> (r: NotifyConfig)
        ensures
            notify_from(s, r),
    {
        let origins = match s.allowed_origins {
            Some(v) => v,
            None => Vec::new(),
        };
        NotifyConfig {
            telegram_bot_token: s.telegram_bot_token,
            telegram_chat_id: s.telegram_chat_id,
            allowed_origins: origins,
        }
    }
}

/// The configuration a source yields, or why it is refused: `host` and
/// `port` must be present and `port` must fit in 16 bits; every other key
/// and section takes its default when absent.
pub open spec fn loaded(src: ConfigSource, r: Result<Config, ConfigError>) -> bool {
    match src.host {
        None => r matches Err(ConfigError::MissingField(f)) && f@ == "host"@,
        Some(h) => match src.port {
            None => r matches Err(ConfigError::MissingField(f)) && f@ == "port"@,
            Some(p) => if !(0 <= p <= 65535) {
                r == Err::<Config, ConfigError>(ConfigError::InvalidPort(p))
            } else {
                r matches Ok(c) && c.host@ == h@ && c.port == p
                    && c.database_path@ == text_or(src.database_path, "unicom.db"@)
                    && c.log_level@ == text_or(src.log_level, "info"@)
                    && (match src.unicom {
                        Some(u) => unicom_from(u, c.unicom),
                        None => is_default_unicom(c.unicom),
                    })
                    && (match src.notify {
                        Some(n) => notify_from(n, c.notify),
                        None => c.notify.telegram_bot_token is None && c.notify.telegram_chat_id is None
                            && c.notify.allowed_origins@.len() == 0,
                    })
            },
        },
    }
}

impl Config {
    /// Builds the configuration from the values read from the file.
    pub fn load(src: ConfigSource) -> (r: Result<Config, ConfigError>)
        ensures
            loaded(src, r),
    {
        let host = match src.host {
            Some(h) => h,
            None => return Err(ConfigError::MissingField("host".to_owned())),
        };
        let p = match src.port {
            Some(p) => p,
            None => return Err(ConfigError::MissingField("port".to_owned())),
        };
        if p < 0 || p > 65535 {
            return Err(ConfigError::InvalidPort(p));
        }
        let unicom = match src.unicom {
            Some(u) => UnicomConfig::from_source(u),
            None => UnicomConfig::default(),
        };
        let notify = match src.notify {
            Some(n) => NotifyConfig::from_source(n),
            None => NotifyConfig::default(),
        };
        Ok(Config {
            host,
            port: p as u16,
            database_path: string_or(src.database_path, default_database_path()),
            log_level: string_or(src.log_level, default_log_level()),
            unicom,
            notify,
        })
    }
}

} // verus!
