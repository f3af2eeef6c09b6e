use zo_tunnel::metrics::{Metrics, RateLimiter};
use zo_tunnel::proxy::{
    error_response_body, extract_routing, finish_stream, forward_failed, forwarded_uri, route_request, ForwardFailure,
    ProxyRoute,
};
use zo_tunnel::server::Registry;
use zo_tunnel::server_config::RoutingMode;

fn registry(ids: &[&str]) -> Registry<u32> {
    let mut r = Registry::new();
    for (i, id) in ids.iter().enumerate() {
        r.register(id.to_string(), i as u32).unwrap();
    }
    r
}

fn pair(a: &str, b: &str) -> Option<(String, String)> {
    Some((a.to_string(), b.to_string()))
}

#[test]
fn path_routing_splits_client_and_rest() {
    let m = RoutingMode::Path;
    assert_eq!(extract_routing("/myapp/api/users", None, &m, None), pair("myapp", "/api/users"));
    assert_eq!(extract_routing("/myapp", None, &m, None), pair("myapp", "/"));
    assert_eq!(extract_routing("/myapp/", None, &m, None), pair("myapp", "/"));
    assert_eq!(extract_routing("//myapp/x", None, &m, None), pair("myapp", "/x"));
}

#[test]
fn path_routing_without_client_is_none() {
    let m = RoutingMode::Path;
    assert_eq!(extract_routing("/", None, &m, None), None);
    assert_eq!(extract_routing("", None, &m, None), None);
    assert_eq!(extract_routing("///", None, &m, None), None);
}

#[test]
fn subdomain_routing_uses_host() {
    let m = RoutingMode::Subdomain;
    assert_eq!(
        extract_routing("/a/b", Some("myapp.example.com"), &m, Some("example.com")),
        pair("myapp", "/a/b")
    );
    assert_eq!(
        extract_routing("/", Some("myapp.example.com:8080"), &m, Some("example.com")),
        pair("myapp", "/")
    );
    assert_eq!(extract_routing("/", Some("example.com"), &m, Some("example.com")), None);
    assert_eq!(extract_routing("/", Some("myapp.other.org"), &m, Some("example.com")), None);
    assert_eq!(extract_routing("/", None, &m, Some("example.com")), None);
    assert_eq!(extract_routing("/", Some("myapp.example.com"), &m, None), None);
}

#[test]
fn error_body_format() {
    assert_eq!(error_response_body(404, "nope"), r#"{"error":"nope","status":404}"#);
    assert_eq!(error_response_body(502, ""), r#"{"error":"","status":502}"#);
}

#[test]
fn forwarded_uri_keeps_query() {
    assert_eq!(forwarded_uri("/api", Some("a=1&b=2")), "/api?a=1&b=2");
    assert_eq!(forwarded_uri("/api", None), "/api");
    assert_eq!(forwarded_uri("/", Some("")), "/?");
}

#[test]
fn route_with_no_clients_is_503() {
    let mut limiter = RateLimiter::new(0);
    let mut metrics = Metrics::new();
    let r = route_request("/", None, &RoutingMode::Path, None, &mut registry(&[]), &mut limiter, &mut metrics);
    match r {
        ProxyRoute::Reply { status, body } => {
            assert_eq!(status, 503);
            assert_eq!(body, r#"{"error":"No tunnel clients connected","status":503}"#);
        }
        _ => panic!("expected a reply"),
    }
    assert_eq!(metrics.total_requests, 1);
    assert_eq!(metrics.active_connections, 0);
}

#[test]
fn route_without_client_lists_tunnels() {
    let mut limiter = RateLimiter::new(0);
    let mut metrics = Metrics::new();
    let mut reg = registry(&["a", "b"]);
    let r = route_request("/", None, &RoutingMode::Path, None, &mut reg, &mut limiter, &mut metrics);
    match r {
        ProxyRoute::Reply { status, body } => {
            assert_eq!(status, 404);
            assert_eq!(
                body,
                r#"{"error":"Available tunnels: a, b. Use /<tunnel_name>/your/path to route.","status":404}"#
            );
        }
        _ => panic!("expected a reply"),
    }
}

#[test]
fn route_to_offline_client_is_502() {
    let mut limiter = RateLimiter::new(0);
    let mut metrics = Metrics::new();
    let mut reg = registry(&["a"]);
    let r = route_request("/zzz/x", None, &RoutingMode::Path, None, &mut reg, &mut limiter, &mut metrics);
    match r {
        ProxyRoute::Reply { status, body } => {
            assert_eq!(status, 502);
            assert_eq!(body, r#"{"error":"Tunnel 'zzz' not found or offline","status":502}"#);
        }
        _ => panic!("expected a reply"),
    }
    assert_eq!(metrics.active_connections, 0);
}

#[test]
fn route_to_connected_client_forwards() {
    let mut limiter = RateLimiter::new(0);
    let mut metrics = Metrics::new();
    let mut reg = registry(&["a"]);
    let r = route_request("/a/x/y", None, &RoutingMode::Path, None, &mut reg, &mut limiter, &mut metrics);
    match r {
        ProxyRoute::Forward { client_id, path } => {
            assert_eq!(client_id, "a");
            assert_eq!(path, "/x/y");
        }
        _ => panic!("expected a forward"),
    }
    assert_eq!(metrics.total_requests, 1);
    assert_eq!(metrics.active_connections, 1);
}

#[test]
fn route_over_the_limit_is_429() {
    let mut limiter = RateLimiter::new(1);
    let mut metrics = Metrics::new();
    let mut reg = registry(&["a"]);
    let first = route_request("/a/", None, &RoutingMode::Path, None, &mut reg, &mut limiter, &mut metrics);
    assert!(matches!(first, ProxyRoute::Forward { .. }));
    let second = route_request("/a/", None, &RoutingMode::Path, None, &mut reg, &mut limiter, &mut metrics);
    match second {
        ProxyRoute::Reply { status, body } => {
            assert_eq!(status, 429);
            assert_eq!(body, r#"{"error":"Rate limit exceeded","status":429}"#);
        }
        _ => panic!("expected a reply"),
    }
    assert_eq!(metrics.total_requests, 2);
    assert_eq!(metrics.rate_limited, 1);
}

#[test]
fn forward_failures_reply_and_release_stream() {
    let mut metrics = Metrics::new();
    let mut reg = registry(&["a"]);
    let mut limiter = RateLimiter::new(0);
    let r = route_request("/a/x", None, &RoutingMode::Path, None, &mut reg, &mut limiter, &mut metrics);
    assert!(matches!(r, ProxyRoute::Forward { .. }));
    assert_eq!(reg.stats(), vec![("a".to_string(), 1, 1)]);
    let (s, b) = forward_failed(ForwardFailure::OpenStream, "a", &mut metrics, &mut reg);
    assert_eq!(s, 502);
    assert_eq!(b, r#"{"error":"Tunnel 'a' connection error","status":502}"#);
    assert_eq!(metrics.active_connections, 0);
    assert_eq!(reg.stats(), vec![("a".to_string(), 1, 0)]);

    let (s, b) = forward_failed(ForwardFailure::Handshake, "a", &mut metrics, &mut reg);
    assert_eq!(s, 502);
    assert_eq!(b, r#"{"error":"Tunnel HTTP handshake failed","status":502}"#);
    let (s, b) = forward_failed(ForwardFailure::BuildRequest, "a", &mut metrics, &mut reg);
    assert_eq!(s, 500);
    assert_eq!(b, r#"{"error":"Request forwarding error","status":500}"#);
    let (s, b) = forward_failed(ForwardFailure::Send, "a", &mut metrics, &mut reg);
    assert_eq!(s, 502);
    assert_eq!(b, r#"{"error":"Tunnel 'a' did not respond","status":502}"#);
}

#[test]
fn finished_stream_balances_counters() {
    let mut metrics = Metrics::new();
    let mut reg = registry(&["a", "b"]);
    let mut limiter = RateLimiter::new(0);
    for _ in 0..3 {
        let r = route_request("/b/", None, &RoutingMode::Path, None, &mut reg, &mut limiter, &mut metrics);
        assert!(matches!(r, ProxyRoute::Forward { .. }));
    }
    assert_eq!(metrics.active_connections, 3);
    assert_eq!(reg.stats(), vec![("a".to_string(), 0, 0), ("b".to_string(), 3, 3)]);
    for _ in 0..3 {
        finish_stream("b", &mut metrics, &mut reg);
    }
    assert_eq!(metrics.active_connections, 0);
    assert_eq!(metrics.total_requests, 3);
    assert_eq!(reg.stats(), vec![("a".to_string(), 0, 0), ("b".to_string(), 3, 0)]);
}
