use zo_tunnel::dashboard::{
    build_clear_cookie, build_session_cookie, extract_session_id, fallback_status, is_authenticated,
    is_reserved_subdomain, is_tls_enabled, login, logout, tls_check, SessionStore, TlsCheck, COOKIE_NAME,
};

#[test]
fn cookie_name_is_zo_session() {
    assert_eq!(COOKIE_NAME, "zo-session");
}

#[test]
fn extract_session_id_from_single_cookie() {
    assert_eq!(extract_session_id(Some("zo-session=abc123")), Some("abc123".to_string()));
}

#[test]
fn extract_session_id_among_other_cookies() {
    assert_eq!(
        extract_session_id(Some("theme=dark; zo-session=xyz; lang=en")),
        Some("xyz".to_string())
    );
}

#[test]
fn extract_session_id_missing_header_or_cookie() {
    assert_eq!(extract_session_id(None), None);
    assert_eq!(extract_session_id(Some("theme=dark")), None);
    assert_eq!(extract_session_id(Some("")), None);
}

#[test]
fn extract_session_id_empty_value_is_skipped() {
    assert_eq!(extract_session_id(Some("zo-session=; zo-session=later")), Some("later".to_string()));
    assert_eq!(extract_session_id(Some("zo-session=")), None);
}

#[test]
fn extract_session_id_skips_cookies_with_longer_names() {
    assert_eq!(extract_session_id(Some("zo-sessionX=1; zo-session=2")), Some("2".to_string()));
    assert_eq!(extract_session_id(Some("zo-session2=foo; zo-session=abc")), Some("abc".to_string()));
    assert_eq!(extract_session_id(Some("zo-session2=foo")), None);
}

#[test]
fn session_ids_are_v4_uuids() {
    let mut store = SessionStore::new(60);
    let id = store.create().unwrap();
    let b = id.as_bytes();
    assert_eq!(b.len(), 36);
    for (i, c) in id.chars().enumerate() {
        if [8, 13, 18, 23].contains(&i) {
            assert_eq!(c, '-');
        } else {
            assert!(c.is_ascii_digit() || ('a'..='f').contains(&c));
        }
    }
    assert_eq!(b[14], b'4');
    assert!(b"89ab".contains(&b[19]));
}

#[test]
fn session_cookie_plain_and_secure() {
    assert_eq!(
        build_session_cookie("id1", 86400, false),
        "zo-session=id1; Path=/; HttpOnly; SameSite=Strict; Max-Age=86400"
    );
    assert_eq!(
        build_session_cookie("id1", 60, true),
        "zo-session=id1; Path=/; HttpOnly; SameSite=Strict; Max-Age=60; Secure"
    );
}

#[test]
fn clear_cookie_expires_at_once() {
    assert_eq!(build_clear_cookie(), "zo-session=; Path=/; HttpOnly; SameSite=Strict; Max-Age=0");
}

#[test]
fn session_cookie_roundtrips_through_extract() {
    let cookie = build_session_cookie("sess-42", 10, false);
    let pair = cookie.split(';').next().unwrap();
    assert_eq!(extract_session_id(Some(pair)), Some("sess-42".to_string()));
}

#[test]
fn tls_detection() {
    assert!(is_tls_enabled(true, None));
    assert!(is_tls_enabled(false, Some("https")));
    assert!(is_tls_enabled(false, Some(" HTTPS ")));
    assert!(!is_tls_enabled(false, Some("http")));
    assert!(!is_tls_enabled(false, None));
}

#[test]
fn session_lives_until_ttl() {
    let mut store = SessionStore::new(10);
    store.insert_at("s1".to_string(), 1_500_000_000);
    assert!(store.validate_at("s1", 1_500_000_000));
    assert!(store.validate_at("s1", 11_499_999_999));
    assert!(!store.validate_at("s1", 11_500_000_000));
    // the expired session was removed
    assert!(!store.validate_at("s1", 1_500_000_000));
}

#[test]
fn unknown_session_is_invalid() {
    let mut store = SessionStore::new(10);
    assert!(!store.validate_at("nope", 0));
}

#[test]
fn invalidated_session_is_rejected() {
    let mut store = SessionStore::new(100);
    store.insert_at("s1".to_string(), 0);
    store.invalidate("s1");
    assert!(!store.validate_at("s1", 0));
}

#[test]
fn created_session_validates() {
    let mut store = SessionStore::new(3600);
    let id = store.create().unwrap();
    assert!(!id.is_empty());
    assert!(store.validate(&id));
    assert_eq!(store.ttl_secs(), 3600);
}

#[test]
fn authentication_open_when_disabled() {
    let mut store = SessionStore::new(10);
    assert!(is_authenticated(false, &mut store, None));
}

#[test]
fn authentication_needs_live_session() {
    let mut store = SessionStore::new(3600);
    assert!(!is_authenticated(true, &mut store, None));
    assert!(!is_authenticated(true, &mut store, Some("zo-session=unknown")));
    let id = store.create().unwrap();
    let header = format!("zo-session={}", id);
    assert!(is_authenticated(true, &mut store, Some(&header)));
}

#[test]
fn login_not_required_when_disabled() {
    let mut store = SessionStore::new(10);
    let r = login(false, "", &mut store, false, None, None, "x");
    assert_eq!(r.status, 200);
    assert!(r.success);
    assert!(r.set_cookie.is_none());
    assert_eq!(r.message, "Authentication not required");
}

#[test]
fn login_with_right_token_sets_cookie() {
    let mut store = SessionStore::new(3600);
    let r = login(true, "admin", &mut store, false, None, Some("https"), "admin");
    assert_eq!(r.status, 200);
    assert!(r.success);
    assert_eq!(r.message, "Login successful");
    let cookie = r.set_cookie.unwrap();
    assert!(cookie.starts_with("zo-session="));
    assert!(cookie.ends_with("; Max-Age=3600; Secure"));
    let pair = cookie.split(';').next().unwrap();
    let id = extract_session_id(Some(pair)).unwrap();
    assert!(store.validate(&id));
}

#[test]
fn login_with_wrong_token_is_refused() {
    let mut store = SessionStore::new(3600);
    let r = login(true, "admin", &mut store, false, None, None, "guess");
    assert_eq!(r.status, 401);
    assert!(!r.success);
    assert!(r.set_cookie.is_none());
    assert_eq!(r.message, "Invalid admin token");
}

#[test]
fn login_when_already_authenticated() {
    let mut store = SessionStore::new(3600);
    let id = store.create().unwrap();
    let header = format!("zo-session={}", id);
    let r = login(true, "admin", &mut store, false, Some(&header), None, "wrong");
    assert_eq!(r.status, 200);
    assert!(r.success);
    assert!(r.set_cookie.is_none());
    assert_eq!(r.message, "Already authenticated");
}

#[test]
fn logout_removes_session_and_clears_cookie() {
    let mut store = SessionStore::new(3600);
    store.insert_at("s9".to_string(), 0);
    let c = logout(&mut store, Some("zo-session=s9"));
    assert_eq!(c, "zo-session=; Path=/; HttpOnly; SameSite=Strict; Max-Age=0");
    assert!(!store.validate_at("s9", 0));
    assert_eq!(logout(&mut store, None), build_clear_cookie());
}

#[test]
fn reserved_subdomains() {
    assert!(is_reserved_subdomain("dashboard"));
    assert!(!is_reserved_subdomain("myapp"));
    assert!(!is_reserved_subdomain(""));
}

#[test]
fn tls_check_decisions() {
    let connected = vec!["myapp".to_string()];
    assert_eq!(tls_check("myapp.example.com", "example.com", &connected), TlsCheck::Approve);
    assert_eq!(tls_check("dashboard.example.com", "example.com", &connected), TlsCheck::Approve);
    assert_eq!(tls_check("other.example.com", "example.com", &connected), TlsCheck::Reject);
    assert_eq!(tls_check("custom.org", "example.com", &connected), TlsCheck::AskFallback);
    assert_eq!(tls_check("example.com", "example.com", &connected), TlsCheck::AskFallback);
}

#[test]
fn fallback_status_values() {
    assert_eq!(fallback_status(Some(200)), 200);
    assert_eq!(fallback_status(Some(404)), 404);
    assert_eq!(fallback_status(Some(1000)), 403);
    assert_eq!(fallback_status(Some(42)), 403);
    assert_eq!(fallback_status(None), 403);
}
