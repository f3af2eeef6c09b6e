use zo_tunnel::process::{
    file_name, is_our_process, is_zo_tunnel_binary, parse_pid, parse_u32, pid_claim, pid_status, PidClaim, PidStatus,
};

#[test]
fn binary_detection_examples() {
    assert!(is_zo_tunnel_binary("/usr/local/bin/zo-tunnel-client"));
    assert!(is_zo_tunnel_binary("/usr/local/bin/zo-tunnel-client (deleted)"));
    assert!(!is_zo_tunnel_binary("/usr/local/bin/zo-tunnel-server"));
    assert!(!is_zo_tunnel_binary("/home/zo-tunnel-client-dev/nginx"));
}

#[test]
fn binary_detection_edge_cases() {
    assert!(is_zo_tunnel_binary("zo-tunnel-client"));
    assert!(is_zo_tunnel_binary("./zo-tunnel-client"));
    assert!(is_zo_tunnel_binary("/opt/zo-tunnel-client/"));
    assert!(!is_zo_tunnel_binary(""));
    assert!(!is_zo_tunnel_binary("/"));
    assert!(!is_zo_tunnel_binary("/usr/bin/zo-tunnel-client-old"));
}

#[test]
fn file_name_like_path() {
    assert_eq!(file_name("/usr/bin/ls"), Some("ls"));
    assert_eq!(file_name("foo.txt/."), Some("foo.txt"));
    assert_eq!(file_name("foo.txt/.//"), Some("foo.txt"));
    assert_eq!(file_name("/"), None);
    assert_eq!(file_name(""), None);
    assert_eq!(file_name("a/.."), None);
    assert_eq!(file_name("a"), Some("a"));
}

#[test]
fn parse_u32_like_std() {
    assert_eq!(parse_u32("0"), Some(0));
    assert_eq!(parse_u32("1234"), Some(1234));
    assert_eq!(parse_u32("+7"), Some(7));
    assert_eq!(parse_u32("4294967295"), Some(4294967295));
    assert_eq!(parse_u32("4294967296"), None);
    assert_eq!(parse_u32(""), None);
    assert_eq!(parse_u32("+"), None);
    assert_eq!(parse_u32("-1"), None);
    assert_eq!(parse_u32("12a"), None);
    assert_eq!(parse_u32(" 12"), None);
    for s in ["0", "42", "+5", "99999", "4294967295", "x", "", "-3", "4294967296"] {
        assert_eq!(parse_u32(s), s.parse::<u32>().ok());
    }
}

#[test]
fn pid_file_content() {
    assert_eq!(parse_pid("12345\n"), Some(12345));
    assert_eq!(parse_pid("  77  "), Some(77));
    assert_eq!(parse_pid("garbage"), None);
    assert_eq!(parse_pid(""), None);
}

#[test]
fn pid_claim_decisions() {
    assert_eq!(pid_claim(Some(10), 10, true), PidClaim::AlreadyOurs);
    assert_eq!(pid_claim(Some(10), 11, true), PidClaim::Refuse(10));
    assert_eq!(pid_claim(Some(10), 11, false), PidClaim::Claim);
    assert_eq!(pid_claim(None, 11, false), PidClaim::Claim);
}

#[test]
fn pid_status_classification() {
    assert_eq!(pid_status(None, false), PidStatus::NoFile);
    assert_eq!(pid_status(Some(5), true), PidStatus::Running(5));
    assert_eq!(pid_status(Some(5), false), PidStatus::Stale(5));
}

#[test]
fn our_process_detection() {
    assert!(!is_our_process(false, Some("/usr/local/bin/zo-tunnel-client"), None));
    assert!(is_our_process(true, Some("/usr/local/bin/zo-tunnel-client"), None));
    assert!(!is_our_process(true, Some("/usr/bin/nginx"), Some(b"zo-tunnel-client\0")));
    assert!(is_our_process(true, None, Some(b"/opt/zo-tunnel-client\0foreground\0")));
    assert!(!is_our_process(true, None, Some(b"/usr/bin/nginx\0-g\0")));
    assert!(is_our_process(true, None, Some(b"\xff\xfe\0x")));
    assert!(is_our_process(true, None, None));
    assert!(!is_our_process(true, None, Some(b"")));
}

#[test]
fn pid_zero_is_never_signalled() {
    assert!(!zo_tunnel::process::signalable(0));
    assert!(zo_tunnel::process::signalable(1));
}
