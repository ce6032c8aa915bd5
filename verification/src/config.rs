//! The proxy's settings, and how they are read from the texts that the
//! environment gives for them.

use crate::privacy_mode::{spec_parse_mode, PrivacyMode};
use vstd::prelude::*;
use vstd::string::StringExecFns;

verus! {

/// The settings of a running proxy. They are fixed before it starts to serve.
#[derive(Clone, Debug)]
pub struct Config {
    /// The upstream JSON-RPC endpoint.
    pub quicknode_url: String,
    /// The upstream WebSocket endpoint, if there is one.
    pub quicknode_ws_url: Option<String>,
    pub privacy_mode: PrivacyMode,
    /// The time for which a cached response is served, in seconds.
    pub cache_ttl: u64,
    /// The time allowed for one attempt to reach the upstream, in milliseconds.
    pub request_timeout: u64,
    /// The number of attempts made to forward a request.
    pub retry_attempts: usize,
    /// The address on which the proxy listens.
    pub bind_addr: String,
}

/// What is used where the environment names no usable privacy level.
pub open spec fn default_privacy_mode() -> PrivacyMode {
    PrivacyMode::Balanced
}

/// The time-to-live used where the environment gives none, in seconds.
pub const DEFAULT_CACHE_TTL_SECONDS: u64 = 5;

/// The timeout used where the environment gives none, in milliseconds.
pub const DEFAULT_REQUEST_TIMEOUT_MS: u64 = 8000;

/// The number of attempts used where the environment gives none.
pub const DEFAULT_RETRY_ATTEMPTS: usize = 3;

/// The address used where the environment gives none.
pub open spec fn default_bind_addr() -> Seq<char> {
    "0.0.0.0:8080"@
}

/// What `str::parse::<u64>` reads from a text: `None` where it reports an error.
pub uninterp spec fn parsed_u64(text: Seq<char>) -> Option<u64>;

/// `str::parse::<u64>` of the standard library, its error dropped. What it
/// reads depends on the text alone, which is all that the contract claims.
#[verifier::external_body]
fn parse_u64(text: &str) -> (number: Option<u64>)
    ensures
        number == parsed_u64(text@),
{
    text.parse::<u64>().ok()
}

/// The characters of an optional text.
pub open spec fn raw_view(raw: Option<String>) -> Option<Seq<char>> {
    match raw {
        Some(text) => Some(text@),
        None => None,
    }
}

/// The number that a setting's text holds, if it holds one.
pub open spec fn spec_read_number(raw: Option<Seq<char>>) -> Option<u64> {
    match raw {
        Some(text) => parsed_u64(text),
        None => None,
    }
}

/// The privacy level that a setting's text names, if it names one.
pub open spec fn spec_read_mode(raw: Option<Seq<char>>) -> Option<PrivacyMode> {
    match raw {
        Some(text) => spec_parse_mode(text),
        None => None,
    }
}

/// A number that was read, or `default` where none was.
pub open spec fn spec_number_or(number: Option<u64>, default: u64) -> u64 {
    match number {
        Some(n) => n,
        None => default,
    }
}

/// A count that was read, or `default` where none was or where it is more
/// than a count can hold.
pub open spec fn spec_count_or(number: Option<u64>, default: usize) -> usize {
    match number {
        Some(n) if n <= usize::MAX => n as usize,
        _ => default,
    }
}

fn read_number(raw: &Option<String>) -> (number: Option<u64>)
    ensures
        number == spec_read_number(raw_view(*raw)),
{
    match raw {
        Some(text) => parse_u64(text.as_str()),
        None => None,
    }
}

fn read_mode(raw: &Option<String>) -> (mode: Option<PrivacyMode>)
    ensures
        mode == spec_read_mode(raw_view(*raw)),
{
    match raw {
        Some(text) => match PrivacyMode::parse(text.as_str()) {
            Ok(mode) => Some(mode),
            Err(_) => None,
        },
        None => None,
    }
}

impl Config {
    /// The settings for what was read from the environment: the upstream
    /// endpoints as given, every other setting as read, or at its default
    /// where nothing was read.
    pub fn from_parsed(
        quicknode_url: String,
        privacy_mode: Option<PrivacyMode>,
        quicknode_ws_url: Option<String>,
        cache_ttl_seconds: Option<u64>,
        request_timeout_ms: Option<u64>,
        retry_attempts: Option<u64>,
        bind_addr: Option<String>,
    ) -> (config: Config)
        ensures
            config.quicknode_url@ == quicknode_url@,
            raw_view(config.quicknode_ws_url) == raw_view(quicknode_ws_url),
            config.privacy_mode == match privacy_mode {
                Some(mode) => mode,
                None => default_privacy_mode(),
            },
            config.cache_ttl == spec_number_or(
                cache_ttl_seconds,
                DEFAULT_CACHE_TTL_SECONDS,
            ),
            config.request_timeout == spec_number_or(
                request_timeout_ms,
                DEFAULT_REQUEST_TIMEOUT_MS,
            ),
            config.retry_attempts == spec_count_or(retry_attempts, DEFAULT_RETRY_ATTEMPTS),
            config.bind_addr@ == match raw_view(bind_addr) {
                Some(addr) => addr,
                None => default_bind_addr(),
            },
    {
        Config {
            quicknode_url,
            quicknode_ws_url,
            privacy_mode: match privacy_mode {
                Some(mode) => mode,
                None => PrivacyMode::Balanced,
            },
            cache_ttl: match cache_ttl_seconds {
                Some(seconds) => seconds,
                None => DEFAULT_CACHE_TTL_SECONDS,
            },
            request_timeout: match request_timeout_ms {
                Some(millis) => millis,
                None => DEFAULT_REQUEST_TIMEOUT_MS,
            },
            retry_attempts: match retry_attempts {
                Some(count) if count <= usize::MAX as u64 => count as usize,
                _ => DEFAULT_RETRY_ATTEMPTS,
            },
            bind_addr: match bind_addr {
                Some(addr) => addr,
                None => String::from_str("0.0.0.0:8080"),
            },
        }
    }

    /// The settings for the texts that the environment holds: the upstream
    /// endpoints as given; every other setting read from its text, or at
    /// its default where the text is missing or cannot be read.
    pub fn from_values(
        quicknode_url: String,
        privacy_mode: Option<String>,
        quicknode_ws_url: Option<String>,
        cache_ttl_seconds: Option<String>,
        request_timeout_ms: Option<String>,
        retry_attempts: Option<String>,
        bind_addr: Option<String>,
    ) -> (config: Config)
        ensures
            config.quicknode_url@ == quicknode_url@,
            raw_view(config.quicknode_ws_url) == raw_view(quicknode_ws_url),
            config.privacy_mode == match spec_read_mode(raw_view(privacy_mode)) {
                Some(mode) => mode,
                None => default_privacy_mode(),
            },
            config.cache_ttl == spec_number_or(
                spec_read_number(raw_view(cache_ttl_seconds)),
                DEFAULT_CACHE_TTL_SECONDS,
            ),
            config.request_timeout == spec_number_or(
                spec_read_number(raw_view(request_timeout_ms)),
                DEFAULT_REQUEST_TIMEOUT_MS,
            ),
            config.retry_attempts == spec_count_or(
                spec_read_number(raw_view(retry_attempts)),
                DEFAULT_RETRY_ATTEMPTS,
            ),
            config.bind_addr@ == match raw_view(bind_addr) {
                Some(addr) => addr,
                None => default_bind_addr(),
            },
    {
        Config::from_parsed(
            quicknode_url,
            read_mode(&privacy_mode),
            quicknode_ws_url,
            read_number(&cache_ttl_seconds),
            read_number(&request_timeout_ms),
            read_number(&retry_attempts),
            bind_addr,
        )
    }

    /// The time-to-live in milliseconds, and no more than fits.
    pub fn cache_ttl_ms(&self) -> (ttl: u64)
        ensures
            ttl == if self.cache_ttl * 1000 <= u64::MAX {
                (self.cache_ttl * 1000) as u64
            } else {
                u64::MAX
            },
    {
        if self.cache_ttl <= u64::MAX / 1000 {
            self.cache_ttl * 1000
        } else {
            u64::MAX
        }
    }
}

} // verus!
