use scapi::common::error::CommonError;
use scapi::domain::select::config::SelectorType;
use scapi::infra::config::loader::{parse_flag, parse_unsigned, AppConfig};

fn pairs(v: &[(&str, &str)]) -> Vec<(String, String)> {
    v.iter().map(|(k, v)| (k.to_string(), v.to_string())).collect()
}

#[test]
fn unsigned_text_follows_the_standard_form() {
    assert_eq!(parse_unsigned("3000", 65535), Some(3000));
    assert_eq!(parse_unsigned("+12", 100), Some(12));
    assert_eq!(parse_unsigned("007", 100), Some(7));
    assert_eq!(parse_unsigned("", 100), None);
    assert_eq!(parse_unsigned("+", 100), None);
    assert_eq!(parse_unsigned("12a", 100), None);
    assert_eq!(parse_unsigned("-1", 100), None);
    assert_eq!(parse_unsigned("65536", 65535), None);
    assert_eq!(parse_unsigned("65535", 65535), Some(65535));
    assert_eq!(parse_unsigned("18446744073709551615", u64::MAX), Some(u64::MAX));
    assert_eq!(parse_unsigned("18446744073709551616", u64::MAX), None);
}

#[test]
fn flags_are_true_or_false() {
    assert_eq!(parse_flag("true"), Some(true));
    assert_eq!(parse_flag("false"), Some(false));
    assert_eq!(parse_flag("TRUE"), None);
    assert_eq!(parse_flag("1"), None);
}

#[test]
fn defaults_when_nothing_is_set() {
    let c = AppConfig::from_settings(&Vec::new()).unwrap();
    assert_eq!(c.server.port, 3000);
    assert_eq!(c.server.bind_addr, "0.0.0.0");
    assert_eq!(c.server.max_connections, 1000);
    assert_eq!(c.server.request_timeout_secs, 30);
    assert_eq!(c.fetch.timeout_ms, 30000);
    assert_eq!(c.fetch.connect_timeout_ms, 10000);
    assert_eq!(c.fetch.user_agent, "SCAPI/1.0");
    assert!(c.fetch.follow_redirects);
    assert_eq!(c.select.selector_type, SelectorType::Css);
    assert_eq!(c.select.max_results, 10000);
    assert_eq!(c.parse.max_size_bytes, 104857600);
    assert_eq!(c.extract.default_value, None);
}

#[test]
fn settings_override_defaults() {
    let c = AppConfig::from_settings(&pairs(&[
        ("SCAPI_PORT", "8080"),
        ("SCAPI_FETCH_FOLLOW_REDIRECTS", "false"),
        ("SCAPI_FETCH_MAX_REDIRECTS", "oops"),
        ("SCAPI_SELECTOR_TYPE", "XPath"),
        ("SCAPI_EXTRACT_DEFAULT_VALUE", "n/a"),
        ("SCAPI_FETCH_CONNECT_TIMEOUT_SECS", "2"),
    ]))
    .unwrap();
    assert_eq!(c.server.port, 8080);
    assert!(!c.fetch.follow_redirects);
    assert_eq!(c.fetch.max_redirects, 5);
    assert_eq!(c.fetch.connect_timeout_ms, 2000);
    assert_eq!(c.select.selector_type, SelectorType::XPath);
    assert_eq!(c.extract.default_value.as_deref(), Some("n/a"));
}

#[test]
fn invalid_required_numbers_are_config_errors() {
    assert!(matches!(AppConfig::from_settings(&pairs(&[("SCAPI_PORT", "70000")])), Err(CommonError::ConfigError(_))));
    assert!(matches!(
        AppConfig::from_settings(&pairs(&[("SCAPI_REQUEST_TIMEOUT_SECS", "x")])),
        Err(CommonError::ConfigError(_))
    ));
}
