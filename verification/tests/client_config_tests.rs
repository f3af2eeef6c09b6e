use zo_tunnel::client_config::{
    credentials_dir, credentials_path, pid_path, tunnels_path, ClientTlsConfig, ConfigError,
    ReconnectConfig, SavedCredentials, TunnelEntry, TunnelsConfig,
};

#[test]
fn test_reconnect_defaults() {
    let rc = ReconnectConfig::default();
    assert!(rc.enabled);
    assert_eq!(rc.max_interval, 30);
}

#[test]
fn test_masked_token_long() {
    let creds = SavedCredentials {
        server: "s".into(),
        token: "abcdefgh".into(),
        tls: ClientTlsConfig::default(),
    };
    assert_eq!(creds.masked_token(), "abcd****");
}

#[test]
fn test_masked_token_short() {
    let creds = SavedCredentials {
        server: "s".into(),
        token: "ab".into(),
        tls: ClientTlsConfig::default(),
    };
    assert_eq!(creds.masked_token(), "****");
}

#[test]
fn masked_token_of_exactly_four_bytes() {
    let creds = SavedCredentials {
        server: "s".into(),
        token: "abcd".into(),
        tls: ClientTlsConfig::default(),
    };
    assert_eq!(creds.masked_token(), "****");
}

#[test]
fn test_tunnels_config_add_tunnel() {
    let mut cfg = TunnelsConfig::default();
    let entry = TunnelEntry {
        id: String::new(),
        client_id: "my-api".into(),
        local_addr: "localhost:3000".into(),
        enabled: true,
    };
    let added = cfg.add_tunnel(entry).unwrap();
    assert!(!added.id.is_empty());
    assert_eq!(cfg.tunnels.len(), 1);
}

#[test]
fn test_tunnels_config_add_duplicate_fails() {
    let mut cfg = TunnelsConfig::default();
    let entry1 = TunnelEntry {
        id: "1".into(),
        client_id: "my-api".into(),
        local_addr: "localhost:3000".into(),
        enabled: true,
    };
    cfg.tunnels.push(entry1);

    let entry2 = TunnelEntry {
        id: String::new(),
        client_id: "my-api".into(),
        local_addr: "localhost:8080".into(),
        enabled: true,
    };
    assert!(cfg.add_tunnel(entry2).is_err());
}

#[test]
fn test_tunnels_config_add_empty_client_id_fails() {
    let mut cfg = TunnelsConfig::default();
    let entry = TunnelEntry {
        id: String::new(),
        client_id: "".into(),
        local_addr: "localhost:3000".into(),
        enabled: true,
    };
    assert!(cfg.add_tunnel(entry).is_err());
}

#[test]
fn test_tunnels_config_remove_tunnel() {
    let mut cfg = TunnelsConfig {
        tunnels: vec![TunnelEntry {
            id: "abc".into(),
            client_id: "my-api".into(),
            local_addr: "localhost:3000".into(),
            enabled: true,
        }],
    };
    let removed = cfg.remove_tunnel("abc").unwrap();
    assert_eq!(removed.client_id, "my-api");
    assert!(cfg.tunnels.is_empty());
}

#[test]
fn test_tunnels_config_remove_not_found() {
    let mut cfg = TunnelsConfig::default();
    assert!(cfg.remove_tunnel("nonexistent").is_err());
}

#[test]
fn test_tunnels_config_generate_id() {
    let id = TunnelsConfig::generate_id().unwrap();
    assert_eq!(id.len(), 16);
}

#[test]
fn generated_ids_are_lowercase_hex() {
    let id = TunnelsConfig::generate_id().unwrap();
    assert!(id.chars().all(|c| c.is_ascii_digit() || ('a'..='f').contains(&c)));
}

#[test]
fn add_keeps_given_id_and_rejects_blank_fields() {
    let mut cfg = TunnelsConfig::default();
    let e = TunnelEntry { id: "x1".into(), client_id: "web".into(), local_addr: "localhost:80".into(), enabled: false };
    let added = cfg.add_tunnel(e).unwrap();
    assert_eq!(added.id, "x1");
    assert!(!added.enabled);
    let blank_addr = TunnelEntry { id: String::new(), client_id: "api".into(), local_addr: "   ".into(), enabled: true };
    match cfg.add_tunnel(blank_addr) {
        Err(ConfigError::EmptyLocalAddr) => {}
        other => panic!("unexpected {:?}", other),
    }
    let blank_id = TunnelEntry { id: String::new(), client_id: " \t".into(), local_addr: "x".into(), enabled: true };
    match cfg.add_tunnel(blank_id) {
        Err(e) => assert_eq!(e.message(), "client_id cannot be empty"),
        other => panic!("unexpected {:?}", other),
    }
    let dup = TunnelEntry { id: String::new(), client_id: "web".into(), local_addr: "y".into(), enabled: true };
    match cfg.add_tunnel(dup) {
        Err(e) => assert_eq!(e.message(), "tunnel with client_id 'web' already exists"),
        other => panic!("unexpected {:?}", other),
    }
    assert_eq!(cfg.tunnels.len(), 1);
}

#[test]
fn add_get_update_remove_round_trip() {
    let mut cfg = TunnelsConfig::default();
    let a = cfg
        .add_tunnel(TunnelEntry { id: "a".into(), client_id: "one".into(), local_addr: "l:1".into(), enabled: true })
        .unwrap();
    cfg.add_tunnel(TunnelEntry { id: "b".into(), client_id: "two".into(), local_addr: "l:2".into(), enabled: true })
        .unwrap();
    assert_eq!(cfg.get_tunnel("a").unwrap().client_id, "one");
    let u = cfg.update_tunnel("a", "uno".into(), "l:9".into(), false).unwrap();
    assert_eq!(u.id, a.id);
    let g = cfg.get_tunnel("a").unwrap();
    assert_eq!(g.client_id, "uno");
    assert_eq!(g.local_addr, "l:9");
    assert!(!g.enabled);
    match cfg.update_tunnel("a", "two".into(), "l:1".into(), true) {
        Err(ConfigError::DuplicateClientId(c)) => assert_eq!(c, "two"),
        other => panic!("unexpected {:?}", other),
    }
    // a tunnel may keep its own client ID
    assert!(cfg.update_tunnel("b", "two".into(), "l:3".into(), true).is_ok());
    match cfg.update_tunnel("zz", "three".into(), "l:3".into(), true) {
        Err(e) => assert_eq!(e.message(), "tunnel 'zz' not found"),
        other => panic!("unexpected {:?}", other),
    }
    let removed = cfg.remove_tunnel("a").unwrap();
    assert_eq!(removed.client_id, "uno");
    assert!(cfg.get_tunnel("a").is_none());
    assert_eq!(cfg.tunnels.len(), 1);
}

#[test]
fn paths_under_home() {
    assert_eq!(credentials_dir(Some("/home/u")).unwrap(), "/home/u/.zo-tunnel");
    assert_eq!(credentials_path(Some("/home/u")).unwrap(), "/home/u/.zo-tunnel/credentials.yaml");
    assert_eq!(tunnels_path(Some("/home/u/")).unwrap(), "/home/u/.zo-tunnel/tunnels.yaml");
    assert_eq!(pid_path(Some("/root")).unwrap(), "/root/.zo-tunnel/client.pid");
    match credentials_path(None) {
        Err(e) => assert_eq!(e.message(), "HOME environment variable not set"),
        Ok(p) => panic!("unexpected {}", p),
    }
    assert!(!SavedCredentials::is_present(None));
}

#[test]
fn add_refuses_an_id_in_use() {
    let mut cfg = TunnelsConfig::default();
    let a = TunnelEntry { id: "abc".into(), client_id: "api".into(), local_addr: "localhost:3000".into(), enabled: true };
    cfg.add_tunnel(a).unwrap();
    let b = TunnelEntry { id: "abc".into(), client_id: "web".into(), local_addr: "localhost:8080".into(), enabled: true };
    match cfg.add_tunnel(b) {
        Err(e @ ConfigError::DuplicateId(_)) => assert_eq!(e.message(), "tunnel with id 'abc' already exists"),
        other => panic!("unexpected {:?}", other),
    }
    assert_eq!(cfg.tunnels.len(), 1);
    assert_eq!(cfg.tunnels[0].client_id, "api");
}

#[test]
fn generated_ids_differ_from_existing_ones() {
    let mut cfg = TunnelsConfig::default();
    for name in ["a", "b", "c", "d"] {
        let e = TunnelEntry { id: String::new(), client_id: name.into(), local_addr: "l:1".into(), enabled: true };
        cfg.add_tunnel(e).unwrap();
    }
    let mut ids: Vec<&str> = cfg.tunnels.iter().map(|t| t.id.as_str()).collect();
    ids.sort();
    ids.dedup();
    assert_eq!(ids.len(), 4);
}
