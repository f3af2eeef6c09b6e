use std::time::Instant;
use zo_tunnel::client::{ReconnectAction, TunnelStatus};
use zo_tunnel::client_config::{ClientTlsConfig, ConfigError, TunnelEntry, TunnelsConfig};
use zo_tunnel::tunnel_manager::{ManagerError, TunnelInfo, TunnelManager, TunnelStatusInfo};

fn entry(id: &str, cid: &str, enabled: bool) -> TunnelEntry {
    TunnelEntry { id: id.into(), client_id: cid.into(), local_addr: "localhost:3000".into(), enabled }
}

fn manager(entries: Vec<TunnelEntry>) -> TunnelManager {
    TunnelManager::new("vps:6200".into(), "tok".into(), ClientTlsConfig::default(), TunnelsConfig { tunnels: entries })
}

#[test]
fn status_info_of_each_state() {
    let s = TunnelStatusInfo::from_status(&TunnelStatus::Stopped, false);
    assert_eq!(s.state, "stopped");
    assert!(s.route.is_none() && s.connected_since_secs.is_none() && s.error.is_none());
    assert!(!s.local_reachable);

    let s = TunnelStatusInfo::from_status(&TunnelStatus::Connecting, true);
    assert_eq!(s.state, "connecting");
    assert!(s.local_reachable);

    let s = TunnelStatusInfo::from_status(
        &TunnelStatus::Connected { route: "http://a.example.com".into(), since: Instant::now() },
        true,
    );
    assert_eq!(s.state, "connected");
    assert_eq!(s.route.as_deref(), Some("http://a.example.com"));
    assert_eq!(s.connected_since_secs, Some(0));
    assert!(s.error.is_none());

    let s = TunnelStatusInfo::from_status(&TunnelStatus::Error { message: "boom".into() }, false);
    assert_eq!(s.state, "error");
    assert_eq!(s.error.as_deref(), Some("boom"));
    assert!(s.route.is_none());
}

#[test]
fn tunnel_info_copies_entry() {
    let e = entry("x1", "api", true);
    let st = TunnelStatusInfo::from_status(&TunnelStatus::Stopped, false);
    let info = TunnelInfo::of_entry(&e, st);
    assert_eq!(info.id, "x1");
    assert_eq!(info.client_id, "api");
    assert_eq!(info.local_addr, "localhost:3000");
    assert!(info.enabled);
    assert_eq!(info.status.state, "stopped");
}

#[test]
fn manager_starts_enabled_tunnels() {
    let mut m = manager(vec![entry("1", "a", true), entry("2", "b", false), entry("3", "c", true)]);
    assert_eq!(m.server_addr(), "vps:6200");
    assert_eq!(m.token(), "tok");
    assert_eq!(m.running_count(), 0);
    let started = m.start_all();
    let ids: Vec<&str> = started.iter().map(|e| e.id.as_str()).collect();
    assert_eq!(ids, vec!["1", "3"]);
    assert_eq!(m.running_count(), 2);
    assert!(m.is_running("1") && !m.is_running("2"));
    // a second start_all starts nothing new
    assert!(m.start_all().is_empty());
}

#[test]
fn manager_start_and_stop() {
    let mut m = manager(vec![entry("1", "a", false)]);
    assert_eq!(m.start_tunnel("1").unwrap().client_id, "a");
    match m.start_tunnel("1") {
        Err(e @ ManagerError::AlreadyRunning(_)) => assert_eq!(e.message(), "Tunnel 'a' is already running"),
        other => panic!("unexpected {:?}", other),
    }
    match m.start_tunnel("9") {
        Err(e @ ManagerError::NotInConfig(_)) => assert_eq!(e.message(), "Tunnel '9' not found in config"),
        other => panic!("unexpected {:?}", other),
    }
    assert_eq!(m.stop_tunnel("1").unwrap().id, "1");
    match m.stop_tunnel("1") {
        Err(e @ ManagerError::NotRunning(_)) => assert_eq!(e.message(), "Tunnel '1' is not running"),
        other => panic!("unexpected {:?}", other),
    }
    assert_eq!(m.running_count(), 0);
}

#[test]
fn manager_add_update_remove() {
    let mut m = manager(vec![]);
    let added = m.add_tunnel(entry("", "api", true)).unwrap();
    assert_eq!(added.id.len(), 16);
    assert!(m.is_running(&added.id));
    match m.add_tunnel(entry("", "api", true)) {
        Err(ManagerError::Config(ConfigError::DuplicateClientId(c))) => assert_eq!(c, "api"),
        other => panic!("unexpected {:?}", other),
    }
    let off = m.add_tunnel(entry("", "web", false)).unwrap();
    assert!(!m.is_running(&off.id));
    assert_eq!(m.config().tunnels.len(), 2);

    let u = m.update_tunnel(&added.id, "api2".into(), "localhost:4000".into(), false).unwrap();
    assert_eq!(u.client_id, "api2");
    assert!(!m.is_running(&added.id));
    let u = m.update_tunnel(&added.id, "api2".into(), "localhost:4000".into(), true).unwrap();
    assert!(u.enabled && m.is_running(&added.id));
    match m.update_tunnel("nope", "z".into(), "l".into(), true) {
        Err(e @ ManagerError::Config(_)) => assert_eq!(e.message(), "tunnel 'nope' not found"),
        other => panic!("unexpected {:?}", other),
    }

    let removed = m.remove_tunnel(&added.id).unwrap();
    assert_eq!(removed.client_id, "api2");
    assert!(!m.is_running(&added.id));
    assert_eq!(m.config().tunnels.len(), 1);
    assert!(matches!(m.remove_tunnel(&added.id), Err(ManagerError::Config(ConfigError::NotFound(_)))));
}

#[test]
fn manager_stop_all() {
    let mut m = manager(vec![entry("1", "a", true), entry("2", "b", true)]);
    m.start_all();
    let stopped = m.stop_all();
    assert_eq!(stopped.len(), 2);
    assert_eq!(m.running_count(), 0);
}

fn wait_of(step: Option<(TunnelStatus, ReconnectAction)>) -> Option<u64> {
    match step {
        Some((_, ReconnectAction::Retry { wait, .. })) => Some(wait),
        Some((_, ReconnectAction::Stop)) => None,
        None => panic!("the tunnel should be running"),
    }
}

#[test]
fn started_tunnel_backs_off_and_resets() {
    let mut m = manager(vec![entry("1", "a", true), entry("2", "b", true)]);
    m.start_all();
    let mut waits = Vec::new();
    for _ in 0..8 {
        waits.push(wait_of(m.session_ended("1", Some("refused".into()), false)).unwrap());
    }
    assert_eq!(waits, vec![1, 2, 4, 8, 16, 30, 30, 30]);
    // the other tunnel has its own delay
    assert_eq!(wait_of(m.session_ended("2", Some("refused".into()), false)), Some(1));
    // a clean session resets the delay
    match m.session_ended("1", None, false) {
        Some((TunnelStatus::Stopped, ReconnectAction::Retry { wait: 1, next: 2 })) => {}
        _ => panic!("a clean session waits one second"),
    }
    assert_eq!(wait_of(m.session_ended("1", Some("refused".into()), false)), Some(2));
    // a cancelled tunnel stops
    match m.session_ended("1", Some("boom".into()), true) {
        Some((TunnelStatus::Error { message }, ReconnectAction::Stop)) => assert_eq!(message, "boom"),
        _ => panic!("a cancelled tunnel stops"),
    }
    // a stopped and restarted tunnel starts over at one second
    m.stop_tunnel("1").unwrap();
    assert!(m.session_ended("1", None, false).is_none());
    m.start_tunnel("1").unwrap();
    assert_eq!(wait_of(m.session_ended("1", Some("refused".into()), false)), Some(1));
    assert_eq!(wait_of(m.session_ended("2", Some("refused".into()), false)), Some(2));
}
