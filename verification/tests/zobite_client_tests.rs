use zo_tunnel::zobite_client::{ZobiteCli, ZobiteClientConfig};

fn no_flags() -> ZobiteCli {
    ZobiteCli { server: None, local: None, id: None, token: None, tcp: false, no_reconnect: false }
}

#[test]
fn defaults_without_file() {
    let c = ZobiteClientConfig::without_file();
    assert_eq!(c.server, "");
    assert_eq!(c.client_id, "default");
    assert_eq!(c.local_addr, "localhost:3000");
    assert!(!c.tcp_mode);
    assert!(c.reconnect.enabled);
    assert_eq!(c.reconnect.max_interval, 30);
    assert_eq!(c.mode_label(), "HTTP");
    assert_eq!(c.require_server(), Err("Error: --server is required (or set in config/env)".to_string()));
}

#[test]
fn command_line_overrides_file() {
    let mut c = ZobiteClientConfig::without_file();
    c.apply_cli(ZobiteCli {
        server: Some("vps:6200".into()),
        local: Some("localhost:22".into()),
        id: Some("ssh".into()),
        token: Some("secret".into()),
        tcp: true,
        no_reconnect: true,
    });
    assert_eq!(c.server, "vps:6200");
    assert_eq!(c.local_addr, "localhost:22");
    assert_eq!(c.client_id, "ssh");
    assert_eq!(c.token, "secret");
    assert!(c.tcp_mode);
    assert!(!c.reconnect.enabled);
    assert_eq!(c.mode_label(), "TCP");
    assert_eq!(c.require_server(), Ok(()));
}

#[test]
fn absent_flags_keep_file_values() {
    let mut c = ZobiteClientConfig::without_file();
    c.server = "file:1".into();
    c.tcp_mode = true;
    c.apply_cli(no_flags());
    assert_eq!(c.server, "file:1");
    assert!(c.tcp_mode);
    assert!(c.reconnect.enabled);
}

#[test]
fn zobite_auth_answer_checked() {
    assert_eq!(zo_tunnel::zobite_client::zobite_auth_check(true, "welcome"), Ok(()));
    assert_eq!(
        zo_tunnel::zobite_client::zobite_auth_check(false, "bad token"),
        Err("Authentication failed: bad token".to_string())
    );
}
