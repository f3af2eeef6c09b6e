use zo_tunnel::web_api::{check_connect_request, check_tunnel_request, is_valid_name, restart_command};

#[test]
fn tunnel_names() {
    assert!(is_valid_name("my-api_2"));
    assert!(is_valid_name("caf\u{e9}"));
    assert!(is_valid_name(""));
    assert!(!is_valid_name("my api"));
    assert!(!is_valid_name("a.b"));
    assert!(!is_valid_name("a/b"));
}

#[test]
fn connect_request_checks() {
    assert_eq!(check_connect_request("  ", "t"), Err("Server address is required".to_string()));
    assert_eq!(check_connect_request("vps:6200", " "), Err("Token is required".to_string()));
    assert_eq!(
        check_connect_request(" vps:6200 ", " tok "),
        Ok(("vps:6200".to_string(), "tok".to_string()))
    );
}

#[test]
fn tunnel_request_checks() {
    assert_eq!(check_tunnel_request(" ", "x"), Err("client_id is required".to_string()));
    assert_eq!(check_tunnel_request("api", ""), Err("local_addr is required".to_string()));
    assert_eq!(
        check_tunnel_request("my api", "localhost:3000"),
        Err("client_id must contain only alphanumeric characters, hyphens, and underscores".to_string())
    );
    assert_eq!(
        check_tunnel_request(" my-api ", " localhost:3000 "),
        Ok(("my-api".to_string(), "localhost:3000".to_string()))
    );
}

#[test]
fn restart_command_text() {
    assert_eq!(
        restart_command("127.0.0.1", 16200),
        "nohup sh -c 'sleep 1 && /usr/local/bin/zo-tunnel-client stop && sleep 1 && /usr/local/bin/zo-tunnel-client start --bind 127.0.0.1 --port 16200' >/dev/null 2>&1 &"
    );
}
