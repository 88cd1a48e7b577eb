use vstd::prelude::*;
use crate::config::ProxyConfig;

verus! {

/// The value of a decimal digit character.
pub open spec fn digit_value(c: char) -> int {
    (c as u32) as int - ('0' as u32) as int
}

pub open spec fn is_digit(c: char) -> bool {
    '0' <= c && c <= '9'
}

/// The number that a run of decimal digits writes.
pub open spec fn digits_value(s: Seq<char>) -> int
    decreases s.len(),
{
    if s.len() == 0 {
        0
    } else {
        digits_value(s.drop_last()) * 10 + digit_value(s.last())
    }
}

/// The digits of an unsigned integer text: an optional `+`, then the rest.
pub open spec fn unsigned_digits(s: Seq<char>) -> Seq<char> {
    if s.len() > 0 && s[0] == '+' {
        s.drop_first()
    } else {
        s
    }
}

/// The unsigned integer that `s` writes, as std reads one: an optional `+` and at least one
/// decimal digit, nothing else, and a value no greater than `max`.
pub open spec fn parse_unsigned(s: Seq<char>, max: int) -> Option<int> {
    let d = unsigned_digits(s);
    if d.len() > 0 && (forall|i: int| 0 <= i < d.len() ==> is_digit(#[trigger] d[i])) && digits_value(d)
        <= max {
        Some(digits_value(d))
    } else {
        None
    }
}

proof fn lemma_digits_nonnegative(s: Seq<char>)
    requires
        forall|i: int| 0 <= i < s.len() ==> is_digit(#[trigger] s[i]),
    ensures
        digits_value(s) >= 0,
    decreases s.len(),
{
    if s.len() > 0 {
        lemma_digits_nonnegative(s.drop_last());
    }
}

/// A longer run of digits never writes a smaller number.
proof fn lemma_digits_grow(s: Seq<char>, k: int)
    requires
        0 <= k <= s.len(),
        forall|i: int| 0 <= i < s.len() ==> is_digit(#[trigger] s[i]),
    ensures
        digits_value(s.subrange(0, k)) <= digits_value(s),
    decreases s.len() - k,
{
    if k < s.len() {
        let t = s.drop_last();
        assert(t.subrange(0, k) =~= s.subrange(0, k));
        lemma_digits_grow(t, k);
        lemma_digits_nonnegative(t);
    } else {
        assert(s.subrange(0, k) =~= s);
    }
}

/// Reads an unsigned integer no greater than `max`, as std's `str::parse` does for an
/// unsigned type whose largest value is `max`.
pub fn parse_unsigned_text(s: &str, max: u64) -> (r: Option<u64>)
    ensures
        match r {
            Some(v) => parse_unsigned(s@, max as int) == Some(v as int),
            None => parse_unsigned(s@, max as int) is None,
        },
{
    let n = s.unicode_len();
    let mut i: usize = 0;
    if n > 0 && s.get_char(0) == '+' {
        i = 1;
    }
    let start = i;
    let ghost d = unsigned_digits(s@);
    proof {
        assert(d =~= s@.subrange(start as int, n as int));
    }
    if start == n {
        return None;
    }
    let mut v: u64 = 0;
    proof {
        assert(d.subrange(0, 0) =~= Seq::<char>::empty());
    }
    while i < n
        invariant
            n == s@.len(),
            start <= i <= n,
            d == s@.subrange(start as int, n as int),
            d == unsigned_digits(s@),
            forall|k: int| 0 <= k < i - start ==> is_digit(#[trigger] d[k]),
            v as int == digits_value(d.subrange(0, i - start)),
            v <= max,
        decreases n - i,
    {
        let c = s.get_char(i);
        let ghost t = d.subrange(0, i - start + 1);
        proof {
            assert(t.drop_last() =~= d.subrange(0, i - start));
            assert(t.last() == c);
        }
        if !('0' <= c && c <= '9') {
            proof {
                assert(!is_digit(d[i - start]));
                assert(!(forall|k: int| 0 <= k < d.len() ==> is_digit(#[trigger] d[k])));
            }
            return None;
        }
        let digit = (c as u32 - '0' as u32) as u64;
        if digit > max || v > (max - digit) / 10 {
            proof {
                assert(v * 10 + digit > max) by (nonlinear_arith)
                    requires
                        digit > max || v > (max - digit) / 10,
                        0 <= v,
                        0 <= digit <= 9;
                assert forall|k: int| 0 <= k < i - start + 1 implies is_digit(#[trigger] d[k]) by {}
                if forall|k: int| 0 <= k < d.len() ==> is_digit(#[trigger] d[k]) {
                    lemma_digits_grow(d, i - start + 1);
                    assert(digits_value(d) > max);
                }
            }
            return None;
        }
        proof {
            assert(v * 10 + digit <= max) by (nonlinear_arith)
                requires
                    v <= (max - digit) / 10,
                    digit <= max;
        }
        v = v * 10 + digit;
        i = i + 1;
    }
    proof {
        assert(d.subrange(0, n - start) =~= d);
    }
    Some(v)
}

/// Reads `true` or `false`, as std's `str::parse` for `bool` does.
pub fn parse_bool_text(s: &str) -> (r: Option<bool>)
    ensures
        r == (if s@ == "true"@ {
            Some(true)
        } else if s@ == "false"@ {
            Some(false)
        } else {
            None::<bool>
        }),
{
    if crate::json::str_eq(s, "true") {
        Some(true)
    } else if crate::json::str_eq(s, "false") {
        Some(false)
    } else {
        None
    }
}

/// A setting whose text does not read as a value of its type.
#[derive(Debug, Clone, Copy, PartialEq, Eq)]
pub enum Setting {
    Timeout,
    FailOpen,
    LogRequests,
    CacheValidations,
    CacheTtlSeconds,
    MaxRequestSize,
}

/// Why the gateway's settings cannot be loaded.
#[derive(Debug, Clone, Copy, PartialEq, Eq)]
pub enum SettingsError {
    /// No API key is set.
    MissingApiKey,
    Invalid(Setting),
}

impl SettingsError {
    /// The message that reports the error.
    pub open spec fn text(&self) -> Seq<char> {
        match self {
            SettingsError::MissingApiKey => "Javelin API key required. Set JAVELIN_API_KEY environment variable."@,
            SettingsError::Invalid(Setting::Timeout) => "Invalid timeout value"@,
            SettingsError::Invalid(Setting::FailOpen) => "Invalid fail_open value"@,
            SettingsError::Invalid(Setting::LogRequests) => "Invalid log_requests value"@,
            SettingsError::Invalid(Setting::CacheValidations) => "Invalid cache_validations value"@,
            SettingsError::Invalid(Setting::CacheTtlSeconds) => "Invalid cache_ttl_seconds value"@,
            SettingsError::Invalid(Setting::MaxRequestSize) => "Invalid max_request_size value"@,
        }
    }

    pub fn message(&self) -> (r: &'static str)
        ensures
            r@ == self.text(),
    {
        match self {
            SettingsError::MissingApiKey => "Javelin API key required. Set JAVELIN_API_KEY environment variable.",
            SettingsError::Invalid(Setting::Timeout) => "Invalid timeout value",
            SettingsError::Invalid(Setting::FailOpen) => "Invalid fail_open value",
            SettingsError::Invalid(Setting::LogRequests) => "Invalid log_requests value",
            SettingsError::Invalid(Setting::CacheValidations) => "Invalid cache_validations value",
            SettingsError::Invalid(Setting::CacheTtlSeconds) => "Invalid cache_ttl_seconds value",
            SettingsError::Invalid(Setting::MaxRequestSize) => "Invalid max_request_size value",
        }
    }
}

/// The gateway's environment variables as found, `None` for each one that is not set:
/// `PROXY_LISTEN_ADDRESS`, `JAVELIN_API_KEY`, `JAVELIN_API_URL`, `JAVELIN_TIMEOUT_SECONDS`,
/// `JAVELIN_FAIL_OPEN`, `PROXY_LOG_REQUESTS`, `PROXY_CACHE_VALIDATIONS`,
/// `PROXY_CACHE_TTL_SECONDS` and `PROXY_MAX_REQUEST_SIZE`.
pub struct EnvSettings {
    pub listen_address: Option<String>,
    pub api_key: Option<String>,
    pub base_url: Option<String>,
    pub timeout_seconds: Option<String>,
    pub fail_open: Option<String>,
    pub log_requests: Option<String>,
    pub cache_validations: Option<String>,
    pub cache_ttl_seconds: Option<String>,
    pub max_request_size: Option<String>,
}

pub open spec fn bool_text(s: Seq<char>) -> Option<bool> {
    if s == "true"@ {
        Some(true)
    } else if s == "false"@ {
        Some(false)
    } else {
        None
    }
}

/// A number setting: its default when unset, what its text reads as otherwise.
pub open spec fn number_setting(o: Option<String>, default: int, max: int) -> Option<int> {
    match o {
        None => Some(default),
        Some(s) => parse_unsigned(s@, max),
    }
}

/// A boolean setting: its default when unset, what its text reads as otherwise.
pub open spec fn bool_setting(o: Option<String>, default: bool) -> Option<bool> {
    match o {
        None => Some(default),
        Some(s) => bool_text(s@),
    }
}

/// The first setting, in the order they are read, whose text does not read as a value.
pub open spec fn first_invalid(e: EnvSettings) -> Option<Setting> {
    if number_setting(e.timeout_seconds, 30, u64::MAX as int) is None {
        Some(Setting::Timeout)
    } else if bool_setting(e.fail_open, true) is None {
        Some(Setting::FailOpen)
    } else if bool_setting(e.log_requests, true) is None {
        Some(Setting::LogRequests)
    } else if bool_setting(e.cache_validations, false) is None {
        Some(Setting::CacheValidations)
    } else if number_setting(e.cache_ttl_seconds, 300, u64::MAX as int) is None {
        Some(Setting::CacheTtlSeconds)
    } else if number_setting(e.max_request_size, 1048576int, usize::MAX as int) is None {
        Some(Setting::MaxRequestSize)
    } else {
        None
    }
}

fn read_number(o: &Option<String>, default: u64, max: u64, which: Setting) -> (r: Result<u64, SettingsError>)
    requires
        default <= max,
    ensures
        r matches Ok(v) ==> v <= max,
        match number_setting(*o, default as int, max as int) {
            Some(v) => (r matches Ok(x) && x as int == v),
            None => r == Err::<u64, SettingsError>(SettingsError::Invalid(which)),
        },
{
    match o {
        None => Ok(default),
        Some(s) => match parse_unsigned_text(s.as_str(), max) {
            Some(v) => Ok(v),
            None => Err(SettingsError::Invalid(which)),
        },
    }
}

fn read_bool(o: &Option<String>, default: bool, which: Setting) -> (r: Result<bool, SettingsError>)
    ensures
        match bool_setting(*o, default) {
            Some(v) => r == Ok::<bool, SettingsError>(v),
            None => r == Err::<bool, SettingsError>(SettingsError::Invalid(which)),
        },
{
    match o {
        None => Ok(default),
        Some(s) => match parse_bool_text(s.as_str()) {
            Some(v) => Ok(v),
            None => Err(SettingsError::Invalid(which)),
        },
    }
}

impl ProxyConfig {
    /// The configuration that the environment describes, over the defaults. An API key is
    /// required; every other setting keeps its default when it is not set.
    pub fn from_env(e: &EnvSettings) -> (r: Result<ProxyConfig, SettingsError>)
        ensures
            e.api_key is None ==> r == Err::<ProxyConfig, SettingsError>(SettingsError::MissingApiKey),
            e.api_key is Some ==> match first_invalid(*e) {
                Some(s) => r == Err::<ProxyConfig, SettingsError>(SettingsError::Invalid(s)),
                None => r matches Ok(c) && {
                    &&& c.listen_address@ == match e.listen_address {
                        Some(a) => a@,
                        None => "127.0.0.1:8080"@,
                    }
                    &&& c.javelin.api_key == e.api_key->0
                    &&& c.javelin.base_url@ == match e.base_url {
                        Some(u) => u@,
                        None => "https://api.getjavelin.com"@,
                    }
                    &&& Some(c.javelin.timeout_seconds as int) == number_setting(e.timeout_seconds, 30, u64::MAX as int)
                    &&& Some(c.javelin.fail_open) == bool_setting(e.fail_open, true)
                    &&& Some(c.behavior.log_requests) == bool_setting(e.log_requests, true)
                    &&& Some(c.behavior.cache_validations) == bool_setting(e.cache_validations, false)
                    &&& Some(c.behavior.cache_ttl_seconds as int) == number_setting(e.cache_ttl_seconds, 300, u64::MAX as int)
                    &&& Some(c.behavior.max_request_size as int) == number_setting(
                        e.max_request_size,
                        1048576int,
                        usize::MAX as int,
                    )
                },
            },
    {
        let mut config = ProxyConfig::default();
        match &e.listen_address {
            Some(a) => {
                config.listen_address = a.clone();
            },
            None => {},
        }
        match &e.api_key {
            Some(k) => {
                config.javelin.api_key = k.clone();
            },
            None => {
                return Err(SettingsError::MissingApiKey);
            },
        }
        match &e.base_url {
            Some(u) => {
                config.javelin.base_url = u.clone();
            },
            None => {},
        }
        config.javelin.timeout_seconds = match read_number(&e.timeout_seconds, 30, u64::MAX, Setting::Timeout) {
            Ok(v) => v,
            Err(err) => return Err(err),
        };
        config.javelin.fail_open = match read_bool(&e.fail_open, true, Setting::FailOpen) {
            Ok(v) => v,
            Err(err) => return Err(err),
        };
        config.behavior.log_requests = match read_bool(&e.log_requests, true, Setting::LogRequests) {
            Ok(v) => v,
            Err(err) => return Err(err),
        };
        config.behavior.cache_validations = match read_bool(
            &e.cache_validations,
            false,
            Setting::CacheValidations,
        ) {
            Ok(v) => v,
            Err(err) => return Err(err),
        };
        config.behavior.cache_ttl_seconds = match read_number(
            &e.cache_ttl_seconds,
            300,
            u64::MAX,
            Setting::CacheTtlSeconds,
        ) {
            Ok(v) => v,
            Err(err) => return Err(err),
        };
        let size = match read_number(&e.max_request_size, 1024 * 1024, usize::MAX as u64, Setting::MaxRequestSize) {
            Ok(v) => v,
            Err(err) => return Err(err),
        };
        assert(size <= usize::MAX);
        config.behavior.max_request_size = size as usize;
        Ok(config)
    }
}

} // verus!
