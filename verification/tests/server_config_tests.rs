use zo_tunnel::server_config::{RoutingMode, ServerConfig, TcpPortConfig};

#[test]
fn test_default_config() {
    let cfg = ServerConfig::default();
    assert_eq!(cfg.control_port, 6200);
    assert_eq!(cfg.public_port, 6210);
    assert_eq!(cfg.dashboard_port, 6220);
    assert_eq!(cfg.routing_mode, RoutingMode::Path);
    assert!(!cfg.tls.enabled);
    assert!(cfg.auth.tokens.is_empty());
    assert!(cfg.dashboard_auth.token.is_empty());
    assert_eq!(cfg.dashboard_auth.session_ttl_secs, 86400);
}

#[test]
fn test_validate_token_empty_allows_all() {
    let cfg = ServerConfig::default();
    assert!(cfg.validate_token("anything"));
    assert!(cfg.validate_token(""));
}

#[test]
fn test_validate_token_checks_list() {
    let mut cfg = ServerConfig::default();
    cfg.auth.tokens = vec!["secret1".into(), "secret2".into()];

    assert!(cfg.validate_token("secret1"));
    assert!(cfg.validate_token("secret2"));
    assert!(!cfg.validate_token("wrong"));
    assert!(!cfg.validate_token(""));
}

#[test]
fn test_tcp_port_config_defaults() {
    let cfg = TcpPortConfig::default();
    assert!(cfg.enabled);
    assert_eq!(cfg.port_start, 10000);
    assert_eq!(cfg.port_end, 10100);
}

#[test]
fn test_dashboard_auth_disabled_by_default() {
    let cfg = ServerConfig::default();
    assert!(!cfg.dashboard_auth_enabled());
    assert!(cfg.validate_dashboard_token("anything"));
}

#[test]
fn test_dashboard_auth_validates_token() {
    let mut cfg = ServerConfig::default();
    cfg.dashboard_auth.token = "super-secret-admin".into();
    assert!(cfg.dashboard_auth_enabled());
    assert!(cfg.validate_dashboard_token("super-secret-admin"));
    assert!(!cfg.validate_dashboard_token("wrong-token"));
    assert!(!cfg.validate_dashboard_token(""));
    assert!(!cfg.validate_dashboard_token("super-secret-admin-extra"));
    assert!(!cfg.validate_dashboard_token("super"));
}

#[test]
fn default_log_level_is_info() {
    let cfg = ServerConfig::default();
    assert_eq!(cfg.log_level, "info");
    assert_eq!(cfg.rate_limit.requests_per_second, 100);
    assert_eq!(cfg.rate_limit.max_connections_per_client, 50);
    assert!(cfg.domain.is_none());
}

#[test]
fn dashboard_token_with_non_ascii_characters() {
    let mut cfg = ServerConfig::default();
    cfg.dashboard_auth.token = "pässwörd".into();
    assert!(cfg.validate_dashboard_token("pässwörd"));
    assert!(!cfg.validate_dashboard_token("passwort"));
}

#[test]
fn zobite_config_tokens() {
    let mut cfg = zo_tunnel::zobite_config::ServerConfig::default();
    assert_eq!(cfg.control_port, 6200);
    assert_eq!(cfg.routing_mode, zo_tunnel::zobite_config::RoutingMode::Path);
    assert!(cfg.validate_token("x"));
    cfg.auth.tokens = vec!["tok1".into()];
    assert!(cfg.validate_token("tok1"));
    assert!(!cfg.validate_token("tok2"));
}

#[test]
fn tokens_from_bytes() {
    assert_eq!(zo_tunnel::server_config::token_from_bytes(&vec![0, 25, 26, 61, 62, 255]), "AZa9AH");
    assert_eq!(zo_tunnel::server_config::token_from_bytes(&vec![]), "");
}

#[test]
fn generated_tokens_are_alphanumeric_and_random() {
    let t = zo_tunnel::server_config::ServerConfig::generate_token(24).unwrap();
    assert_eq!(t.len(), 24);
    assert!(t.chars().all(|c| c.is_ascii_alphanumeric()));
    let u = zo_tunnel::server_config::ServerConfig::generate_token(24).unwrap();
    assert_ne!(t, u);
}
