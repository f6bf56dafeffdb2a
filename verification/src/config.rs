//! The bot's settings and how they are read from its environment variables.
use crate::text::{chars_of, parse_unsigned, parse_unsigned_chars};
use vstd::prelude::*;

verus! {

/// The bot's settings.
#[derive(Debug, Clone)]
pub struct AppConfig {
    /// Where state files are kept.
    pub state_dir: String,
    pub log_level: String,
    /// The iLink base URL.
    pub base_url: String,
    pub app_id: String,
    /// The client version, dotted.
    pub version: String,
    /// The port of the HTTP admin interface.
    pub http_port: u16,
    /// The XHS-Downloader service's URL.
    pub xhs_api_url: String,
    /// Cookie for Xiaohongshu requests (may be empty).
    pub xhs_cookie: String,
    /// Proxy for Xiaohongshu requests (may be empty).
    pub xhs_proxy: String,
    /// Timeout of XHS-Downloader calls (milliseconds).
    pub xhs_timeout_ms: u64,
}

/// The values of the bot's environment variables (`None` for one that is
/// unset or not valid Unicode).
pub struct EnvValues {
    pub state_dir: Option<String>,
    pub log_level: Option<String>,
    pub base_url: Option<String>,
    pub app_id: Option<String>,
    pub version: Option<String>,
    pub http_port: Option<String>,
    pub xhs_api_url: Option<String>,
    pub xhs_cookie: Option<String>,
    pub xhs_proxy: Option<String>,
    pub xhs_timeout_ms: Option<String>,
}

/// A variable's value, or `default`.
pub open spec fn value_or(v: Option<String>, default: Seq<char>) -> Seq<char> {
    match v {
        Some(s) => s@,
        None => default,
    }
}

/// A numeric variable's value when it reads as a number at most `max`, else
/// `default`.
pub open spec fn number_or(v: Option<String>, max: nat, default: nat) -> nat {
    match v {
        Some(s) => match parse_unsigned(s@, max) {
            Some(n) => n,
            None => default,
        },
        None => default,
    }
}

fn string_or(v: Option<String>, default: &str) -> (r: String)
    ensures
        r@ == value_or(v, default@),
{
    match v {
        Some(s) => s,
        None => String::from_str(default),
    }
}

fn u64_or(v: &Option<String>, max: u64, default: u64) -> (r: u64)
    requires
        default <= max,
    ensures
        r == number_or(*v, max as nat, default as nat),
        r <= max,
{
    match v {
        Some(s) => match parse_unsigned_chars(&chars_of(s.as_str()), max) {
            Some(n) => n,
            None => default,
        },
        None => default,
    }
}

impl Default for AppConfig {
    fn default() -> (r: AppConfig)
        ensures
            r.state_dir@ == "./state"@,
            r.log_level@ == "info"@,
            r.base_url@ == "https://ilinkai.weixin.qq.com"@,
            r.app_id@ == "bot"@,
            r.version@ == "1.0.0"@,
            r.http_port == 3000,
            r.xhs_api_url@ == "http://127.0.0.1:5556"@,
            r.xhs_cookie@ == Seq::<char>::empty(),
            r.xhs_proxy@ == Seq::<char>::empty(),
            r.xhs_timeout_ms == 60_000,
    {
        AppConfig {
            state_dir: String::from_str("./state"),
            log_level: String::from_str("info"),
            base_url: String::from_str("https://ilinkai.weixin.qq.com"),
            app_id: String::from_str("bot"),
            version: String::from_str("1.0.0"),
            http_port: 3000,
            xhs_api_url: String::from_str("http://127.0.0.1:5556"),
            xhs_cookie: String::new(),
            xhs_proxy: String::new(),
            xhs_timeout_ms: 60_000,
        }
    }
}

impl AppConfig {
    /// The settings from the environment's values: each unset variable takes
    /// its default, and a number that does not read as one (or does not fit)
    /// too.
    pub fn from_values(env: EnvValues) -> (r: AppConfig)
        ensures
            r.state_dir@ == value_or(env.state_dir, "./state"@),
            r.log_level@ == value_or(env.log_level, "info"@),
            r.base_url@ == value_or(env.base_url, "https://ilinkai.weixin.qq.com"@),
            r.app_id@ == value_or(env.app_id, "bot"@),
            r.version@ == value_or(env.version, "1.0.0"@),
            r.http_port == number_or(env.http_port, 65535, 3000),
            r.xhs_api_url@ == value_or(env.xhs_api_url, "http://127.0.0.1:5556"@),
            r.xhs_cookie@ == value_or(env.xhs_cookie, Seq::empty()),
            r.xhs_proxy@ == value_or(env.xhs_proxy, Seq::empty()),
            r.xhs_timeout_ms == number_or(env.xhs_timeout_ms, u64::MAX as nat, 60_000),
    {
        let port = u64_or(&env.http_port, 65535, 3000);
        let timeout = u64_or(&env.xhs_timeout_ms, u64::MAX, 60_000);
        AppConfig {
            state_dir: string_or(env.state_dir, "./state"),
            log_level: string_or(env.log_level, "info"),
            base_url: string_or(env.base_url, "https://ilinkai.weixin.qq.com"),
            app_id: string_or(env.app_id, "bot"),
            version: string_or(env.version, "1.0.0"),
            http_port: port as u16,
            xhs_api_url: string_or(env.xhs_api_url, "http://127.0.0.1:5556"),
            xhs_cookie: match env.xhs_cookie {
                Some(c) => c,
                None => String::new(),
            },
            xhs_proxy: match env.xhs_proxy {
                Some(p) => p,
                None => String::new(),
            },
            xhs_timeout_ms: timeout,
        }
    }
}

} // verus!
