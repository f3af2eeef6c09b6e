use zo_tunnel::caddy::{
    connect_host, decode_endpoint, host_header, parse_url, register_outcome, CaddyConfig,
    CaddyManager,
};

#[test]
fn test_default_disabled() {
    let cfg = CaddyConfig::default();
    assert!(!cfg.enabled);
    assert_eq!(cfg.admin_api, "http://localhost:2019");
}

#[test]
fn test_parse_url_basic() {
    let (host, port, path) = parse_url("http://localhost:2019/config/test").unwrap();
    assert_eq!(host, "localhost");
    assert_eq!(port, 2019);
    assert_eq!(path, "/config/test");
}

#[test]
fn test_parse_url_default_port() {
    let (host, port, path) = parse_url("http://example.com/path").unwrap();
    assert_eq!(host, "example.com");
    assert_eq!(port, 80);
    assert_eq!(path, "/path");
}

#[test]
fn test_parse_url_with_query() {
    let (_, _, path) = parse_url("http://localhost:2615/api/check?domain=test.com").unwrap();
    assert_eq!(path, "/api/check?domain=test.com");
}

#[test]
fn parse_url_rejects_garbage() {
    assert!(parse_url("http://[::1").is_err());
    match parse_url("http://exa mple.com/") {
        Err(e) => assert_eq!(e.message(), "invalid uri character"),
        Ok(_) => panic!("a space is not allowed in a URI"),
    }
    match parse_url("") {
        Err(e) => assert_eq!(e.message(), "empty string"),
        Ok(_) => panic!("an empty URI does not parse"),
    }
}

#[test]
fn detection_enables_integration() {
    assert!(CaddyConfig::from_detection(true, false).enabled);
    assert!(CaddyConfig::from_detection(false, true).enabled);
    assert!(!CaddyConfig::from_detection(false, false).enabled);
}

#[test]
fn endpoint_body_decoding() {
    assert_eq!(decode_endpoint(" \"http://localhost:2615/api/sites/check\" \n"), "http://localhost:2615/api/sites/check");
    assert_eq!(decode_endpoint("\"a\\\"b\""), "a\"b");
    assert_eq!(decode_endpoint("\"unterminated"), "unterminated");
    assert_eq!(decode_endpoint("null"), "null");
}

#[test]
fn registration_keeps_foreign_endpoint_as_fallback() {
    let mut m = CaddyManager::new("http://localhost:2019".into(), "http://127.0.0.1:6220/api/tls-check".into());
    assert_eq!(
        m.endpoint_config_url(),
        "http://localhost:2019/config/apps/tls/automation/on_demand/permission/endpoint"
    );
    assert_eq!(m.registration_body().unwrap(), "\"http://127.0.0.1:6220/api/tls-check\"");
    assert!(m.fallback_check_url("x.com").is_none());
    assert!(m.restore_request().is_none());
    // our own endpoint is never adopted
    m.adopt_existing(200, "\"http://127.0.0.1:6220/api/tls-check\"");
    assert!(m.fallback_check_url("x.com").is_none());
    // a failed read changes nothing
    m.adopt_existing(404, "\"http://other/check\"");
    assert!(m.fallback_check_url("x.com").is_none());
    m.adopt_existing(200, "\"http://localhost:2615/api/check\"");
    assert_eq!(m.fallback_check_url("x.com").unwrap(), "http://localhost:2615/api/check?domain=x.com");
    let (url, body) = m.restore_request().unwrap();
    assert_eq!(url, "http://localhost:2019/config/apps/tls/automation/on_demand/permission/endpoint");
    assert_eq!(body, "\"http://localhost:2615/api/check\"");
}

#[test]
fn watchdog_reregisters_only_when_overwritten() {
    let mut m = CaddyManager::new("http://a".into(), "http://ours".into());
    assert!(m.watchdog_step(200, "\"http://ours\"").is_none());
    assert!(m.watchdog_step(500, "\"http://theirs\"").is_none());
    assert_eq!(m.watchdog_step(200, "\"http://theirs?x=1\"").unwrap(), "\"http://ours\"");
    assert_eq!(m.fallback_check_url("d.io").unwrap(), "http://theirs?x=1&domain=d.io");
    // an empty endpoint re-registers us but keeps the fallback
    assert!(m.watchdog_step(200, "\"\"").is_some());
    assert_eq!(m.fallback_check_url("d.io").unwrap(), "http://theirs?x=1&domain=d.io");
}

#[test]
fn register_outcome_reports_status_and_body_start() {
    assert!(register_outcome(200, "").is_ok());
    let long_body = "x".repeat(300);
    match register_outcome(400, &long_body) {
        Err(e) => {
            let m = e.message();
            assert_eq!(m, format!("Caddy Admin API returned 400 when setting endpoint: {}", "x".repeat(200)));
        }
        Ok(()) => panic!("expected an error"),
    }
}

#[test]
fn http_helpers() {
    assert_eq!(connect_host("localhost"), "127.0.0.1");
    assert_eq!(connect_host("example.com"), "example.com");
    assert_eq!(host_header("example.com", 80), "example.com");
    assert_eq!(host_header("localhost", 2019), "localhost:2019");
}

#[test]
fn registration_body_escapes_the_endpoint() {
    let m = CaddyManager::new("http://a".into(), "x\"y\\z\n\t\u{1}é".into());
    assert_eq!(m.registration_body().unwrap(), "\"x\\\"y\\\\z\\n\\t\\u0001é\"");
}
