use zo_tunnel::client::{
    auth_outcome, delay_after_session, inbound_action, resolve_server_name, route_from_auth,
    server_name_outcome, session_ended, tls_server_name, InboundAction, ReconnectAction, TunnelStatus,
    MAX_BACKOFF_SECS,
};
use zo_tunnel::client_config::ClientTlsConfig;

fn tls(name: &str) -> ClientTlsConfig {
    ClientTlsConfig { enabled: true, server_name: name.to_string(), skip_verify: false }
}

#[test]
fn route_from_server_message() {
    assert_eq!(route_from_auth("OK \u{2014} my-api.example.com", Some("my-api")), "http://my-api.example.com");
    assert_eq!(route_from_auth("welcome", Some("my-api")), "http://my-api");
    assert_eq!(route_from_auth("welcome", None), "http://-");
}

#[test]
fn auth_outcome_success_and_failure() {
    assert_eq!(
        auth_outcome(true, "OK \u{2014} a.example.com", Some("a")),
        Ok("http://a.example.com".to_string())
    );
    assert_eq!(
        auth_outcome(false, "Invalid token", None),
        Err("Authentication failed: Invalid token".to_string())
    );
}

#[test]
fn server_name_choice() {
    assert_eq!(tls_server_name(&tls("tunnel.example.com"), "1.2.3.4:6200"), "tunnel.example.com");
    assert_eq!(tls_server_name(&tls(""), "vps.example.com:6200"), "vps.example.com");
    assert_eq!(tls_server_name(&tls(""), "vps.example.com"), "vps.example.com");
}

#[test]
fn server_name_resolution() {
    assert_eq!(resolve_server_name(&tls(""), "vps.example.com:6200"), Ok("vps.example.com".to_string()));
    assert_eq!(resolve_server_name(&tls(""), "10.0.0.1:6200"), Ok("10.0.0.1".to_string()));
    assert_eq!(
        resolve_server_name(&tls(""), "bad name:6200"),
        Err("Invalid TLS server name 'bad name'. If connecting by IP, use --tls-server-name to specify the domain."
            .to_string())
    );
}

#[test]
fn server_name_outcome_values() {
    assert_eq!(server_name_outcome("x".to_string(), true), Ok("x".to_string()));
    assert_eq!(
        server_name_outcome("x y".to_string(), false),
        Err("Invalid TLS server name 'x y'. If connecting by IP, use --tls-server-name to specify the domain."
            .to_string())
    );
}

#[test]
fn clean_session_resets_delay() {
    assert_eq!(delay_after_session(true, 16), 1);
    assert_eq!(delay_after_session(false, 16), 16);
}

#[test]
fn inbound_stream_actions() {
    assert_eq!(inbound_action(Some(2), 2), InboundAction::Pong);
    assert_eq!(inbound_action(Some(1), 2), InboundAction::Proxy);
    assert_eq!(inbound_action(None, 2), InboundAction::Drop);
}

#[test]
fn tunnel_status_defaults_to_stopped() {
    assert!(matches!(TunnelStatus::default(), TunnelStatus::Stopped));
}

#[test]
fn failing_sessions_wait_with_doubling_backoff() {
    let mut backoff = 1u64;
    let mut waits = Vec::new();
    for _ in 0..8 {
        let (status, action) = session_ended(Some("connection refused".to_string()), backoff, false, MAX_BACKOFF_SECS);
        assert!(matches!(&status, TunnelStatus::Error { message } if message == "connection refused"));
        match action {
            ReconnectAction::Retry { wait, next } => {
                waits.push(wait);
                backoff = next;
            }
            ReconnectAction::Stop => panic!("a running tunnel should reconnect"),
        }
    }
    assert_eq!(MAX_BACKOFF_SECS, 30);
    assert_eq!(waits, vec![1, 2, 4, 8, 16, 30, 30, 30]);
}

#[test]
fn clean_session_resets_backoff() {
    let (status, action) = session_ended(None, 16, false, MAX_BACKOFF_SECS);
    assert!(matches!(status, TunnelStatus::Stopped));
    assert_eq!(action, ReconnectAction::Retry { wait: 1, next: 2 });
}

#[test]
fn cancelled_tunnel_stops() {
    let (status, action) = session_ended(Some("boom".to_string()), 8, true, MAX_BACKOFF_SECS);
    assert!(matches!(&status, TunnelStatus::Error { message } if message == "boom"));
    assert_eq!(action, ReconnectAction::Stop);
    let (status, action) = session_ended(None, 8, true, MAX_BACKOFF_SECS);
    assert!(matches!(status, TunnelStatus::Stopped));
    assert_eq!(action, ReconnectAction::Stop);
}
