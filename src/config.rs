use vstd::prelude::*;
use crate::text::{contains, text_contains};

verus! {

/// Configuration of the gateway.
#[derive(Debug, Clone)]
pub struct ProxyConfig {
    /// `host:port` to listen on.
    pub listen_address: String,
    pub javelin: JavelinConfig,
    pub behavior: ProxyBehavior,
}

/// How the Guard service is reached.
#[derive(Debug, Clone)]
pub struct JavelinConfig {
    pub api_key: String,
    pub base_url: String,
    pub timeout_seconds: u64,
    /// Whether a request passes (rather than is denied) when the Guard cannot be asked.
    pub fail_open: bool,
}

/// How the gateway behaves.
#[derive(Debug, Clone)]
pub struct ProxyBehavior {
    pub log_requests: bool,
    pub cache_validations: bool,
    pub cache_ttl_seconds: u64,
    pub max_request_size: usize,
}

/// Why a configuration is refused.
#[derive(Debug, Clone, Copy, PartialEq, Eq)]
pub enum ConfigError {
    EmptyApiKey,
    ZeroTimeout,
    ZeroCacheTtl,
    ZeroMaxRequestSize,
    InvalidListenAddress,
}

impl ConfigError {
    /// The message that reports the error.
    pub open spec fn text(&self) -> Seq<char> {
        match self {
            ConfigError::EmptyApiKey => "API key cannot be empty"@,
            ConfigError::ZeroTimeout => "Timeout must be greater than 0"@,
            ConfigError::ZeroCacheTtl => "Cache TTL must be greater than 0"@,
            ConfigError::ZeroMaxRequestSize => "Max request size must be greater than 0"@,
            ConfigError::InvalidListenAddress => "Invalid listen address format"@,
        }
    }

    pub fn message(&self) -> (r: &'static str)
        ensures
            r@ == self.text(),
    {
        match self {
            ConfigError::EmptyApiKey => "API key cannot be empty",
            ConfigError::ZeroTimeout => "Timeout must be greater than 0",
            ConfigError::ZeroCacheTtl => "Cache TTL must be greater than 0",
            ConfigError::ZeroMaxRequestSize => "Max request size must be greater than 0",
            ConfigError::InvalidListenAddress => "Invalid listen address format",
        }
    }
}

impl Default for JavelinConfig {
    fn default() -> (r: JavelinConfig)
        ensures
            r.api_key@ == Seq::<char>::empty(),
            r.base_url@ == "https://api.getjavelin.com"@,
            r.timeout_seconds == 30,
            r.fail_open,
    {
        JavelinConfig {
            api_key: String::new(),
            base_url: String::from_str("https://api.getjavelin.com"),
            timeout_seconds: 30,
            fail_open: true,
        }
    }
}

impl Default for ProxyBehavior {
    fn default() -> (r: ProxyBehavior)
        ensures
            r.log_requests,
            !r.cache_validations,
            r.cache_ttl_seconds == 300,
            r.max_request_size == 1024 * 1024,
    {
        ProxyBehavior {
            log_requests: true,
            cache_validations: false,
            cache_ttl_seconds: 300,
            max_request_size: 1024 * 1024,
        }
    }
}

impl Default for ProxyConfig {
    fn default() -> (r: ProxyConfig)
        ensures
            r.listen_address@ == "127.0.0.1:8080"@,
            r.javelin.api_key@ == Seq::<char>::empty(),
            r.javelin.base_url@ == "https://api.getjavelin.com"@,
            r.javelin.timeout_seconds == 30,
            r.javelin.fail_open,
            r.behavior.log_requests,
            !r.behavior.cache_validations,
            r.behavior.cache_ttl_seconds == 300,
            r.behavior.max_request_size == 1024 * 1024,
    {
        ProxyConfig {
            listen_address: String::from_str("127.0.0.1:8080"),
            javelin: JavelinConfig::default(),
            behavior: ProxyBehavior::default(),
        }
    }
}

/// The first rule that `c` breaks, if any: an API key is required, the timeout and the
/// cache time to live and the request size limit are positive, and the listen address holds a `:`.
pub open spec fn config_problem(c: ProxyConfig) -> Option<ConfigError> {
    if c.javelin.api_key@.len() == 0 {
        Some(ConfigError::EmptyApiKey)
    } else if c.javelin.timeout_seconds == 0 {
        Some(ConfigError::ZeroTimeout)
    } else if c.behavior.cache_ttl_seconds == 0 {
        Some(ConfigError::ZeroCacheTtl)
    } else if c.behavior.max_request_size == 0 {
        Some(ConfigError::ZeroMaxRequestSize)
    } else if !contains(c.listen_address@, ":"@) {
        Some(ConfigError::InvalidListenAddress)
    } else {
        None
    }
}

impl ProxyConfig {
    /// Checks the configuration.
    pub fn validate(&self) -> (r: Result<(), ConfigError>)
        ensures
            r is Ok <==> config_problem(*self) is None,
            r matches Err(e) ==> config_problem(*self) == Some(e),
    {
        if self.javelin.api_key.as_str().is_empty() {
            return Err(ConfigError::EmptyApiKey);
        }
        if self.javelin.timeout_seconds == 0 {
            return Err(ConfigError::ZeroTimeout);
        }
        if self.behavior.cache_ttl_seconds == 0 {
            return Err(ConfigError::ZeroCacheTtl);
        }
        if self.behavior.max_request_size == 0 {
            return Err(ConfigError::ZeroMaxRequestSize);
        }
        if !text_contains(self.listen_address.as_str(), ":") {
            return Err(ConfigError::InvalidListenAddress);
        }
        Ok(())
    }
}

} // verus!
