use ramparts_proxy::config::{ConfigError, ProxyConfig};
use ramparts_proxy::config_utils;
use ramparts_proxy::config_utils::{McpConfigError, MCPConfig};
use ramparts_proxy::error_utils::{format_error, wrap_error};
use ramparts_proxy::licensing::{
    get_license_status, has_valid_license, validate_api_key_format, validate_license, validate_license_detailed,
    LicenseError,
};
use ramparts_proxy::performance::PerformanceTracker;
use ramparts_proxy::settings::{parse_unsigned_text, EnvSettings, Setting, SettingsError};

#[test]
fn test_config_validation() {
    let config = MCPConfig::default();
    assert!(config_utils::validate_mcp_config(&config).is_ok());

    let invalid_config = MCPConfig { timeout: 0, http_timeout: 30, auth_headers: None };
    assert!(config_utils::validate_mcp_config(&invalid_config).is_err());
}

#[test]
fn mcp_config_errors() {
    let c = MCPConfig { timeout: 10, http_timeout: 0, auth_headers: None };
    assert_eq!(config_utils::validate_mcp_config(&c), Err(McpConfigError::ZeroHttpTimeout));
    let c = MCPConfig { timeout: 10, http_timeout: 30, auth_headers: None };
    assert_eq!(config_utils::validate_mcp_config(&c), Err(McpConfigError::TimeoutBelowHttpTimeout));
    assert_eq!(McpConfigError::ZeroTimeout.message(), "Timeout must be greater than 0");
    let d = MCPConfig::default();
    assert_eq!((d.timeout, d.http_timeout), (60, 30));
}

#[test]
fn test_proxy_config_validation() {
    let mut config = ProxyConfig::default();

    config.javelin.api_key = "test-key".to_string();
    assert!(config.validate().is_ok());

    config.javelin.api_key = "".to_string();
    assert!(config.validate().is_err());

    config.javelin.api_key = "test-key".to_string();
    config.javelin.timeout_seconds = 0;
    assert!(config.validate().is_err());

    config.javelin.timeout_seconds = 30;
    config.listen_address = "invalid-address".to_string();
    assert!(config.validate().is_err());
}

#[test]
fn proxy_config_errors_and_defaults() {
    let mut config = ProxyConfig::default();
    assert_eq!(config.listen_address, "127.0.0.1:8080");
    assert_eq!(config.javelin.base_url, "https://api.getjavelin.com");
    assert!(config.javelin.fail_open);
    assert!(!config.behavior.cache_validations);
    assert_eq!(config.behavior.cache_ttl_seconds, 300);
    assert_eq!(config.behavior.max_request_size, 1_048_576);
    assert_eq!(config.validate(), Err(ConfigError::EmptyApiKey));
    config.javelin.api_key = "k".to_string();
    config.behavior.max_request_size = 0;
    assert_eq!(config.validate(), Err(ConfigError::ZeroMaxRequestSize));
    config.behavior.max_request_size = 1;
    config.behavior.cache_ttl_seconds = 0;
    assert_eq!(config.validate(), Err(ConfigError::ZeroCacheTtl));
    config.behavior.cache_ttl_seconds = 1;
    config.javelin.timeout_seconds = 0;
    assert_eq!(config.validate(), Err(ConfigError::ZeroTimeout));
    config.javelin.timeout_seconds = 1;
    config.listen_address = "localhost".to_string();
    assert_eq!(config.validate(), Err(ConfigError::InvalidListenAddress));
    assert_eq!(ConfigError::InvalidListenAddress.message(), "Invalid listen address format");
}

#[test]
fn api_key_format() {
    assert!(validate_api_key_format("abcdefghij"));
    assert!(!validate_api_key_format("abcdefghi"));
    assert!(!validate_api_key_format(""));
    assert!(!validate_api_key_format("abcde fghij"));
    assert!(!validate_api_key_format("abcdefghij\n"));
    assert!(!validate_api_key_format("abc\tdefghij"));
    assert!(!validate_api_key_format("abcde\u{0b}fghij"));
    assert!(!validate_api_key_format("abcde\u{a0}fghij"));
    assert!(!validate_api_key_format("abcde\u{3000}fghij"));
    assert!(validate_api_key_format("abcdé\u{200b}fghij"));
}

#[test]
fn license_checks() {
    assert_eq!(validate_license_detailed(None).err(), Some(LicenseError::MissingApiKey));
    let info = validate_license_detailed(Some("short")).ok().unwrap();
    assert!(!info.is_valid);
    assert_eq!(info.api_key, "");
    assert_eq!(info.key_source, "JAVELIN_API_KEY");
    assert_eq!(validate_license(Some("short")).err(), Some(LicenseError::InvalidLicense));
    assert_eq!(validate_license(Some("0123456789")).ok(), Some("0123456789".to_string()));
    assert!(has_valid_license(Some("0123456789")));
    assert!(!has_valid_license(None));
    assert_eq!(get_license_status(Some("0123456789")), "Valid license using JAVELIN_API_KEY");
    assert_eq!(get_license_status(Some("x")), "Invalid license");
    assert!(get_license_status(None).starts_with("License error: "));
}

#[test]
fn error_helpers() {
    assert_eq!(format_error("scan", "timeout"), "scan failed: timeout");
    let wrapped: Result<u8, String> = wrap_error(Err("boom".to_string()), "loading");
    assert_eq!(wrapped, Err("loading: boom".to_string()));
    assert_eq!(wrap_error(Ok::<u8, String>(3), "loading"), Ok(3));
}

#[test]
fn performance_tracker_keeps_its_name() {
    let t = PerformanceTracker::start("op");
    assert_eq!(t.name(), "op");
    let _ms = t.finish();
}

fn unset() -> EnvSettings {
    EnvSettings {
        listen_address: None,
        api_key: Some("key-123456".to_string()),
        base_url: None,
        timeout_seconds: None,
        fail_open: None,
        log_requests: None,
        cache_validations: None,
        cache_ttl_seconds: None,
        max_request_size: None,
    }
}

#[test]
fn settings_from_environment() {
    let c = ProxyConfig::from_env(&unset()).ok().unwrap();
    assert_eq!(c.listen_address, "127.0.0.1:8080");
    assert_eq!(c.javelin.api_key, "key-123456");
    assert_eq!(c.javelin.timeout_seconds, 30);
    assert_eq!(c.behavior.max_request_size, 1_048_576);
    let mut e = unset();
    e.api_key = None;
    assert_eq!(ProxyConfig::from_env(&e).err(), Some(SettingsError::MissingApiKey));
    let mut e = unset();
    e.timeout_seconds = Some("+45".to_string());
    e.fail_open = Some("false".to_string());
    e.cache_validations = Some("true".to_string());
    e.cache_ttl_seconds = Some("18446744073709551615".to_string());
    e.base_url = Some("http://guard.local".to_string());
    e.listen_address = Some("0.0.0.0:9".to_string());
    let c = ProxyConfig::from_env(&e).ok().unwrap();
    assert_eq!(c.javelin.timeout_seconds, 45);
    assert!(!c.javelin.fail_open);
    assert!(c.behavior.cache_validations);
    assert_eq!(c.behavior.cache_ttl_seconds, u64::MAX);
    assert_eq!(c.javelin.base_url, "http://guard.local");
    assert_eq!(c.listen_address, "0.0.0.0:9");
    for (bad, which) in [("", Setting::Timeout), ("-1", Setting::Timeout), ("1x", Setting::Timeout), ("+", Setting::Timeout)] {
        let mut e = unset();
        e.timeout_seconds = Some(bad.to_string());
        assert_eq!(ProxyConfig::from_env(&e).err(), Some(SettingsError::Invalid(which)));
    }
    let mut e = unset();
    e.cache_ttl_seconds = Some("18446744073709551616".to_string());
    assert_eq!(ProxyConfig::from_env(&e).err(), Some(SettingsError::Invalid(Setting::CacheTtlSeconds)));
    let mut e = unset();
    e.fail_open = Some("TRUE".to_string());
    assert_eq!(ProxyConfig::from_env(&e).err(), Some(SettingsError::Invalid(Setting::FailOpen)));
    let mut e = unset();
    e.log_requests = Some("1".to_string());
    assert_eq!(ProxyConfig::from_env(&e).err(), Some(SettingsError::Invalid(Setting::LogRequests)));
    let mut e = unset();
    e.max_request_size = Some("x".to_string());
    let err = ProxyConfig::from_env(&e).err().unwrap();
    assert_eq!(err, SettingsError::Invalid(Setting::MaxRequestSize));
    assert_eq!(err.message(), "Invalid max_request_size value");
}

#[test]
fn unsigned_parsing_agrees_with_std() {
    for s in ["0", "7", "+12", "007", "", "+", "-3", "1 ", "99999999999999999999", "18446744073709551615"] {
        assert_eq!(parse_unsigned_text(s, u64::MAX), s.parse::<u64>().ok(), "{s}");
    }
    assert_eq!(parse_unsigned_text("256", 255), None);
    assert_eq!(parse_unsigned_text("255", 255), Some(255));
}
