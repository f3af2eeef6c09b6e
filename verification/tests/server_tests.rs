use zo_tunnel::metrics::Metrics;
use zo_tunnel::server::{auth_reply, is_dashboard_host, require_domain, Registry, ServerError};
use zo_tunnel::server_config::ServerConfig;

fn config_with(tokens: &[&str], domain: Option<&str>) -> ServerConfig {
    let mut c = ServerConfig::default();
    c.auth.tokens = tokens.iter().map(|t| t.to_string()).collect();
    c.domain = domain.map(|d| d.to_string());
    c
}

#[test]
fn auth_accepts_listed_token() {
    let cfg = config_with(&["secret"], Some("example.com"));
    let mut m = Metrics::new();
    let r = auth_reply(&cfg, "my-api", "secret", &mut m);
    assert!(r.success);
    assert_eq!(r.message, "OK \u{2014} my-api.example.com");
    assert_eq!(r.public_port, Some(6210));
    assert_eq!(r.assigned_route, Some("my-api".to_string()));
    assert_eq!(m.failed_auth, 0);
}

#[test]
fn auth_refuses_other_token_and_counts_it() {
    let cfg = config_with(&["secret"], Some("example.com"));
    let mut m = Metrics::new();
    let r = auth_reply(&cfg, "my-api", "guess", &mut m);
    assert!(!r.success);
    assert_eq!(r.message, "Invalid token");
    assert_eq!(r.public_port, None);
    assert_eq!(r.assigned_route, None);
    assert_eq!(m.failed_auth, 1);
}

#[test]
fn auth_open_without_tokens() {
    let cfg = config_with(&[], None);
    let mut m = Metrics::new();
    let r = auth_reply(&cfg, "x", "anything", &mut m);
    assert!(r.success);
    assert_eq!(r.message, "OK \u{2014} x.");
}

#[test]
fn dashboard_host_detection() {
    assert!(is_dashboard_host(Some("dashboard.example.com"), "example.com"));
    assert!(is_dashboard_host(Some("dashboard.example.com:443"), "example.com"));
    assert!(!is_dashboard_host(Some("api.example.com"), "example.com"));
    assert!(!is_dashboard_host(None, "example.com"));
}

#[test]
fn domain_is_required() {
    assert_eq!(require_domain(&config_with(&[], Some("example.com"))).ok(), Some("example.com".to_string()));
    assert!(matches!(require_domain(&config_with(&[], None)), Err(ServerError::DomainRequired)));
    assert!(matches!(require_domain(&config_with(&[], Some(""))), Err(ServerError::DomainRequired)));
    assert_eq!(
        ServerError::DomainRequired.message(),
        "domain is required \u{2014} run `zo-tunnel-server setup --domain <domain>` first"
    );
}

#[test]
fn registry_register_and_unregister() {
    let mut reg: Registry<u32> = Registry::new();
    assert_eq!(reg.count(), 0);
    assert_eq!(reg.register("a".to_string(), 1), Ok(()));
    assert_eq!(reg.register("b".to_string(), 2), Ok(()));
    assert_eq!(reg.register("a".to_string(), 3), Err("client 'a' is already connected".to_string()));
    assert_eq!(reg.count(), 2);
    assert_eq!(reg.get("a"), Some(&1));
    assert!(reg.contains("b"));
    assert_eq!(reg.client_ids(), vec!["a".to_string(), "b".to_string()]);
    assert_eq!(reg.unregister("a"), Some(1));
    assert_eq!(reg.unregister("a"), None);
    assert!(!reg.contains("a"));
    assert_eq!(reg.get("a"), None);
    assert_eq!(reg.client_ids(), vec!["b".to_string()]);
    assert_eq!(reg.register("a".to_string(), 4), Ok(()));
    assert_eq!(reg.get("a"), Some(&4));
}

#[test]
fn registry_counts_requests_and_streams_per_client() {
    let mut reg: Registry<u32> = Registry::new();
    assert_eq!(reg.register("a".to_string(), 1), Ok(()));
    assert_eq!(reg.register("b".to_string(), 2), Ok(()));
    reg.record_forward("a");
    reg.record_forward("a");
    reg.record_forward("b");
    reg.record_forward("nobody");
    assert_eq!(reg.stats(), vec![("a".to_string(), 2, 2), ("b".to_string(), 1, 1)]);
    reg.record_stream_end("a");
    reg.record_stream_end("nobody");
    assert_eq!(reg.stats(), vec![("a".to_string(), 2, 1), ("b".to_string(), 1, 1)]);
    assert_eq!(reg.get("a"), Some(&1));
    assert_eq!(reg.client_ids(), vec!["a".to_string(), "b".to_string()]);
}
