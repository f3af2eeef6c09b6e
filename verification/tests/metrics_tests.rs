use zo_tunnel::metrics::{Metrics, RateLimiter};

#[test]
fn counters_start_at_zero_and_count() {
    let mut m = Metrics::new();
    m.record_request();
    m.record_request();
    m.record_rate_limited();
    m.record_connection();
    m.record_failed_auth();
    m.stream_opened();
    m.stream_opened();
    m.stream_closed();
    let s = m.snapshot();
    assert_eq!(s.total_requests, 2);
    assert_eq!(s.rate_limited, 1);
    assert_eq!(s.total_connections, 1);
    assert_eq!(s.failed_auth, 1);
    assert_eq!(s.active_connections, 1);
    assert_eq!(s.total_bytes_in, 0);
    assert_eq!(s.total_bytes_out, 0);
}

#[test]
fn open_then_close_restores_active() {
    let mut m = Metrics::new();
    m.stream_opened();
    m.stream_closed();
    assert_eq!(m.active_connections, 0);
}

#[test]
fn counters_wrap_like_atomics() {
    let mut m = Metrics::new();
    m.stream_closed();
    assert_eq!(m.active_connections, u64::MAX);
    m.stream_opened();
    assert_eq!(m.active_connections, 0);
}

#[test]
fn limiter_without_limit_passes_everything() {
    let mut rl = RateLimiter::new(0);
    for t in 0..1000u128 {
        assert!(rl.check_at("k", t));
    }
}

#[test]
fn limiter_window_counts() {
    let mut rl = RateLimiter::new(2);
    assert!(rl.check_at("a", 1_000_000_500));
    assert!(rl.check_at("a", 1_500_000_000));
    assert!(!rl.check_at("a", 2_000_000_499));
    // another key has its own window
    assert!(rl.check_at("b", 2_000_000_499));
    // a whole second later, to the nanosecond, the window restarts
    assert!(rl.check_at("a", 2_000_000_500));
    assert!(rl.check_at("a", 2_100_000_000));
    assert!(!rl.check_at("a", 2_200_000_000));
}

#[test]
fn limiter_check_uses_clock() {
    let mut rl = RateLimiter::new(1);
    assert!(rl.check("x"));
    assert!(!rl.check("x"));
}

#[test]
fn snapshot_reports_whole_seconds_of_uptime() {
    let m = Metrics::new();
    assert_eq!(m.snapshot_at(0).uptime_secs, 0);
    assert_eq!(m.snapshot_at(999_999_999).uptime_secs, 0);
    assert_eq!(m.snapshot_at(61_000_000_000).uptime_secs, 61);
    assert_eq!(m.snapshot_at(61_999_999_999).uptime_secs, 61);
}
