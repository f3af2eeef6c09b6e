//! Dashboard authentication: sessions, cookies, and the on-demand TLS check.
use vstd::prelude::*;
use std::time::Instant;
use dashmap::DashMap;
use crate::client_config::{is_hex_digit, hex, hex_char, lemma_hex_digits, lemma_hex_high};
use crate::clock::{instant_now, elapsed_nanos, secs_between, seconds_between, Reading, law_seconds_between_readings};
use crate::text::{is_ws, lemma_index_of, trim_start, trim_end, opt_view, opt_str_view, str_eq, trim, trim_str, starts_with, strip_prefix, strip_suffix, ends_with, split_char, find_char, index_of, lemma_split_step, concat, decimal, decimal_string, eq_ignore_ascii_case, str_eq_ignore_ascii_case, listed, contains_str};

verus! {

/// Name of the session cookie.
pub const COOKIE_NAME: &'static str = "zo-session";

/// What the session table holds: per session ID, when it was created (nanoseconds on the
/// store's clock).
pub uninterp spec fn session_times(m: DashMap<String, u128>) -> Map<Seq<char>, u128>;

/// `DashMap::new`: the table starts empty.
#[verifier::external_body]
fn session_times_new() -> (r: DashMap<String, u128>)
    ensures
        session_times(r).is_empty(),
{
    DashMap::new()
}

/// `DashMap::get`, copying the value out: the creation time of `id`, if it is a session.
#[verifier::external_body]
fn session_times_get(m: &DashMap<String, u128>, id: &str) -> (r: Option<u128>)
    ensures
        session_times(*m).contains_key(id@) ==> r == Some(session_times(*m)[id@]),
        !session_times(*m).contains_key(id@) ==> r is None,
{
    m.get(id).map(|e| *e.value())
}

/// `DashMap::insert`: sets the entry of `id`, leaving the others.
#[verifier::external_body]
fn session_times_insert(m: &mut DashMap<String, u128>, id: String, created: u128)
    ensures
        session_times(*final(m)) == session_times(*old(m)).insert(id@, created),
{
    m.insert(id, created);
}

/// `DashMap::remove`: drops the entry of `id`, if any, leaving the others.
#[verifier::external_body]
fn session_times_remove(m: &mut DashMap<String, u128>, id: &str)
    ensures
        session_times(*final(m)) == session_times(*old(m)).remove(id@),
{
    m.remove(id);
}

/// The text of a version-4 UUID as `uuid` writes it: 36 characters, lowercase hexadecimal
/// digits with hyphens at positions 8, 13, 18 and 23, the version digit `4` at position 14 and
/// one of `8`, `9`, `a`, `b` (the RFC 4122 variant) at position 19.
pub open spec fn uuid_v4_text(s: Seq<char>) -> bool {
    &&& s.len() == 36
    &&& forall|i: int|
        0 <= i < 36 ==> if i == 8 || i == 13 || i == 18 || i == 23 {
            s[i] == '-'
        } else {
            is_hex_digit(#[trigger] s[i])
        }
    &&& s[14] == '4'
    &&& (s[19] == '8' || s[19] == '9' || s[19] == 'a' || s[19] == 'b')
}

/// The bytes of the UUID that `uuid::Builder::from_random_bytes` makes of `bytes`: the version
/// 4 in the high half of byte 6 and the RFC 4122 variant (binary `10`) in the top bits of
/// byte 8; the other bits as given.
pub open spec fn v4_bytes(bytes: Seq<u8>) -> Seq<u8> {
    bytes.update(6, (bytes[6] & 0x0f) | 0x40).update(8, (bytes[8] & 0x3f) | 0x80)
}

/// The hyphenated form of 32 hexadecimal digits: groups of 8, 4, 4, 4 and 12 digits.
pub open spec fn hyphenated(h: Seq<char>) -> Seq<char> {
    h.subrange(0, 8) + seq!['-'] + h.subrange(8, 12) + seq!['-'] + h.subrange(12, 16) + seq!['-']
        + h.subrange(16, 20) + seq!['-'] + h.subrange(20, 32)
}

/// The text of the version-4 UUID made of sixteen random bytes, as `Display` writes it:
/// lowercase hexadecimal, hyphenated.
pub open spec fn uuid_text(bytes: Seq<u8>) -> Seq<char> {
    hyphenated(hex(v4_bytes(bytes)))
}

/// `uuid::Builder::from_random_bytes(bytes).into_uuid().to_string()`: the result is
/// [`uuid_text`] of the bytes (the builder sets the version and variant bits; `Display` writes
/// the hyphenated lowercase form).
#[verifier::external_body]
fn uuid_v4_string(bytes: [u8; 16]) -> (r: String)
    ensures
        r@ == uuid_text(bytes@),
{
    uuid::Builder::from_random_bytes(bytes).into_uuid().to_string()
}

/// The UUID text of sixteen bytes has the form of a version-4 UUID.
pub proof fn lemma_uuid_text_is_v4(bytes: Seq<u8>)
    requires
        bytes.len() == 16,
    ensures
        uuid_v4_text(uuid_text(bytes)),
{
    let ub = v4_bytes(bytes);
    let h = hex(ub);
    lemma_hex_digits(ub);
    lemma_hex_high(ub, 6);
    lemma_hex_high(ub, 8);
    let x: u8 = bytes[6];
    let y: u8 = bytes[8];
    assert(((x & 0x0f) | 0x40) / 16 == 4u8) by (bit_vector);
    assert(8u8 <= ((y & 0x3f) | 0x80) / 16 <= 11u8) by (bit_vector);
    assert(ub[6] == (x & 0x0f) | 0x40);
    assert(ub[8] == (y & 0x3f) | 0x80);
    let s = uuid_text(bytes);
    assert(s.len() == 36);
    assert forall|i: int| 0 <= i < 36 && !(i == 8 || i == 13 || i == 18 || i == 23) implies is_hex_digit(
        #[trigger] s[i],
    ) by {
        let k = if i < 8 {
            i
        } else if i < 13 {
            i - 1
        } else if i < 18 {
            i - 2
        } else if i < 23 {
            i - 3
        } else {
            i - 4
        };
        assert(s[i] == h[k]);
    }
    assert(s[14] == h[12]);
    assert(s[19] == h[16]);
}

/// A fresh random session ID in UUID form; `None` when the operating system gave no random
/// bytes.
fn random_session_id() -> (r: Option<String>)
    ensures
        r matches Some(id) ==> uuid_v4_text(id@),
{
    let b = match crate::client_config::random_bytes(16) {
        Some(b) => b,
        None => return None,
    };
    let bytes: [u8; 16] = [
        b[0], b[1], b[2], b[3], b[4], b[5], b[6], b[7], b[8], b[9], b[10], b[11], b[12], b[13], b[14], b[15],
    ];
    proof {
        lemma_uuid_text_is_v4(bytes@);
    }
    Some(uuid_v4_string(bytes))
}

/// Whether session `id` is live at `now`: it exists and is younger than `ttl` whole seconds.
pub open spec fn session_live(m: Map<Seq<char>, u128>, id: Seq<char>, now: u128, ttl: u64) -> bool {
    m.contains_key(id) && secs_between(m[id], now) < ttl
}

/// A validation of `id` at `now` took the table from `before` to `after` and answered `ok`:
/// a live session stays; an expired one is removed; an unknown one changes nothing.
pub open spec fn session_checked(
    before: Map<Seq<char>, u128>,
    after: Map<Seq<char>, u128>,
    id: Seq<char>,
    now: u128,
    ttl: u64,
    ok: bool,
) -> bool {
    &&& ok == session_live(before, id, now, ttl)
    &&& after == if before.contains_key(id) && !ok {
        before.remove(id)
    } else {
        before
    }
}

/// Dashboard sessions with a fixed lifetime.
pub struct SessionStore {
    sessions: DashMap<String, u128>,
    ttl_secs: u64,
    clock: Instant,
}

impl SessionStore {
    /// Session ID to creation time.
    pub closed spec fn sessions(&self) -> Map<Seq<char>, u128> {
        session_times(self.sessions)
    }

    /// Lifetime of a session in seconds.
    pub closed spec fn ttl(&self) -> u64 {
        self.ttl_secs
    }

    /// The start of the store's clock, which creation and validation times are read on.
    pub closed spec fn clock(&self) -> Instant {
        self.clock
    }

    /// An empty store whose sessions live `ttl_secs` seconds.
    pub fn new(ttl_secs: u64) -> (r: Self)
        ensures
            r.sessions().is_empty(),
            r.ttl() == ttl_secs,
    {
        SessionStore { sessions: session_times_new(), ttl_secs, clock: instant_now() }
    }

    /// Lifetime of a session in seconds.
    pub fn ttl_secs(&self) -> (r: u64)
        ensures
            r == self.ttl(),
    {
        self.ttl_secs
    }

    /// Records session `id` as created at `now_ns`.
    pub fn insert_at(&mut self, id: String, now_ns: u128)
        ensures
            final(self).sessions() == old(self).sessions().insert(id@, now_ns),
            final(self).ttl() == old(self).ttl(),
            final(self).clock() == old(self).clock(),
    {
        session_times_insert(&mut self.sessions, id, now_ns);
    }

    /// Creates a session with a fresh random UUID as its ID, created now, and returns the ID;
    /// `None`, with the table unchanged, when the operating system gave no random bytes.
    pub fn create(&mut self) -> (r: Option<String>)
        ensures
            r matches Some(id) ==> uuid_v4_text(id@) && exists|t: u128|
                final(self).sessions() == #[trigger] old(self).sessions().insert(id@, t),
            r matches Some(id) ==> exists|t: Reading|
                t.base() == old(self).clock() && final(self).sessions() == #[trigger] old(self).sessions().insert(
                    id@,
                    t.nanos(),
                ),
            r is None ==> final(self).sessions() == old(self).sessions(),
            final(self).ttl() == old(self).ttl(),
            final(self).clock() == old(self).clock(),
    {
        let id = match random_session_id() {
            Some(id) => id,
            None => return None,
        };
        let now = elapsed_nanos(&self.clock);
        self.insert_at(id.clone(), now.value());
        assert(self.sessions() == old(self).sessions().insert(id@, now.nanos()));
        Some(id)
    }

    /// Whether session `id` is live at `now_ns`; an expired session is removed.
    pub fn validate_at(&mut self, session_id: &str, now_ns: u128) -> (r: bool)
        ensures
            session_checked(old(self).sessions(), final(self).sessions(), session_id@, now_ns, old(self).ttl(), r),
            final(self).ttl() == old(self).ttl(),
            final(self).clock() == old(self).clock(),
    {
        match session_times_get(&self.sessions, session_id) {
            Some(created) => {
                if seconds_between(created, now_ns) < self.ttl_secs as u128 {
                    true
                } else {
                    session_times_remove(&mut self.sessions, session_id);
                    false
                }
            },
            None => false,
        }
    }

    /// Whether session `id` is live now: [`SessionStore::validate_at`] at the current reading
    /// of the store's clock.
    pub fn validate(&mut self, session_id: &str) -> (r: bool)
        ensures
            exists|now: u128| session_checked(old(self).sessions(), final(self).sessions(), session_id@, now, old(self).ttl(), r),
            exists|now: Reading|
                now.base() == old(self).clock() && #[trigger] session_checked(
                    old(self).sessions(),
                    final(self).sessions(),
                    session_id@,
                    now.nanos(),
                    old(self).ttl(),
                    r,
                ),
            final(self).ttl() == old(self).ttl(),
            final(self).clock() == old(self).clock(),
    {
        let now = elapsed_nanos(&self.clock);
        let r = self.validate_at(session_id, now.value());
        assert(session_checked(old(self).sessions(), self.sessions(), session_id@, now.nanos(), old(self).ttl(), r));
        r
    }

    /// Removes session `id`.
    pub fn invalidate(&mut self, session_id: &str)
        ensures
            final(self).sessions() == old(self).sessions().remove(session_id@),
            final(self).ttl() == old(self).ttl(),
            final(self).clock() == old(self).clock(),
    {
        session_times_remove(&mut self.sessions, session_id);
    }
}

/// A session that was invalidated is never valid afterwards.
pub proof fn law_invalidated_session_rejected(m: Map<Seq<char>, u128>, id: Seq<char>, now: u128, ttl: u64)
    ensures
        !session_live(m.remove(id), id, now, ttl),
{
}

/// A session created at `t` is valid at every `now` less than `ttl` seconds later, and no longer
/// once `ttl` seconds have passed.
pub proof fn law_created_session_lifetime(m: Map<Seq<char>, u128>, id: Seq<char>, t: u128, now: u128, ttl: u64)
    ensures
        session_live(m.insert(id, t), id, now, ttl) == (secs_between(t, now) < ttl),
{
}


/// A session created at `created` on the store's clock is valid when validated less than `ttl`
/// seconds later, and stays; validated `ttl` seconds later or more, it is refused and removed.
pub proof fn law_session_valid_until_ttl(
    before: Map<Seq<char>, u128>,
    mid: Map<Seq<char>, u128>,
    after: Map<Seq<char>, u128>,
    id: Seq<char>,
    created: u128,
    now: u128,
    ttl: u64,
    ok: bool,
)
    requires
        mid == before.insert(id, created),
        created <= now,
        session_checked(mid, after, id, now, ttl, ok),
    ensures
        now - created < ttl * 1_000_000_000 ==> ok && after == mid,
        now - created >= ttl * 1_000_000_000 ==> !ok && after == before.remove(id),
{
    law_seconds_between_readings(created, now, ttl as nat);
    assert(mid.insert(id, created).remove(id) =~= before.remove(id));
    assert(mid.remove(id) =~= before.remove(id));
}

/// The session ID found among the `;`-separated pieces of a `Cookie` header: the value of the
/// first piece that, trimmed, is `zo-session=<value>` with a non-empty value. Pieces of other
/// cookies, even ones whose names begin with `zo-session`, are passed over.
pub open spec fn session_from_parts(parts: Seq<Seq<char>>) -> Option<Seq<char>>
    decreases parts.len(),
{
    if parts.len() == 0 {
        None
    } else {
        let p = trim(parts[0]);
        let rest = parts.subrange(1, parts.len() as int);
        let prefix = COOKIE_NAME@ + "="@;
        if starts_with(p, prefix) && p.len() > prefix.len() {
            Some(p.subrange(prefix.len() as int, p.len() as int))
        } else {
            session_from_parts(rest)
        }
    }
}

/// The session ID that a `Cookie` header carries.
pub open spec fn session_in_header(header: Seq<char>) -> Option<Seq<char>> {
    session_from_parts(split_char(header, ';'))
}

/// Extracts the session ID from the value of the `Cookie` header, if any.
pub fn extract_session_id(cookie_header: Option<&str>) -> (r: Option<String>)
    ensures
        cookie_header is None ==> r is None,
        cookie_header matches Some(h) ==> opt_view(r) == session_in_header(h@),
{
    let h = match cookie_header {
        Some(h) => h,
        None => return None,
    };
    let n = h.unicode_len();
    let mut pos: usize = 0;
    assert(h@.subrange(0, n as int) =~= h@);
    proof {
        reveal_strlit("=");
    }
    loop
        invariant
            cookie_header == Some(h),
            n == h@.len(),
            pos <= n,
            session_in_header(h@) == session_from_parts(split_char(h@.subrange(pos as int, n as int), ';')),
        decreases n - pos,
    {
        let j = find_char(h, ';', pos);
        proof {
            lemma_split_step(h@, ';', pos as int, j as int);
        }
        let ghost parts = split_char(h@.subrange(pos as int, n as int), ';');
        let ghost rest = if j < n { split_char(h@.subrange(j + 1, n as int), ';') } else { Seq::empty() };
        assert(parts.subrange(1, parts.len() as int) =~= rest);
        let part = h.substring_char(pos, j);
        let t = trim_str(part);
        assert(parts[0] == part@);
        proof {
            reveal_strlit("zo-session=");
            reveal_strlit("zo-session");
            reveal_strlit("=");
            assert(COOKIE_NAME@ + "="@ =~= "zo-session="@);
        }
        match strip_prefix(t, "zo-session=") {
            Some(value) => {
                if value.unicode_len() > 0 {
                    let r = value.to_string();
                    assert(opt_view(Some(r)) == session_in_header(h@));
                    return Some(r);
                }
            },
            None => {},
        }
        assert(session_from_parts(parts) == session_from_parts(rest));
        if j == n {
            return None;
        }
        pos = j + 1;
    }
}

/// The `Set-Cookie` value that opens a session.
pub open spec fn session_cookie(id: Seq<char>, max_age: u64, secure: bool) -> Seq<char> {
    COOKIE_NAME@ + "="@ + id + "; Path=/; HttpOnly; SameSite=Strict; Max-Age="@ + decimal(
        max_age as nat,
    ) + if secure {
        "; Secure"@
    } else {
        Seq::empty()
    }
}

/// The `Set-Cookie` value that clears the session cookie.
pub open spec fn clear_cookie() -> Seq<char> {
    COOKIE_NAME@ + "=; Path=/; HttpOnly; SameSite=Strict; Max-Age=0"@
}

/// Builds the `Set-Cookie` value for a session.
pub fn build_session_cookie(session_id: &str, max_age_secs: u64, tls_enabled: bool) -> (r: String)
    ensures
        r@ == session_cookie(session_id@, max_age_secs, tls_enabled),
{
    let mut cookie = concat(COOKIE_NAME, "=");
    cookie.append(session_id);
    cookie.append("; Path=/; HttpOnly; SameSite=Strict; Max-Age=");
    let age = decimal_string(max_age_secs);
    cookie.append(age.as_str());
    if tls_enabled {
        cookie.append("; Secure");
    }
    proof {
        if !tls_enabled {
            assert(cookie@ =~= session_cookie(session_id@, max_age_secs, tls_enabled));
        }
    }
    cookie
}

/// Builds the `Set-Cookie` value that clears the session cookie.
pub fn build_clear_cookie() -> (r: String)
    ensures
        r@ == clear_cookie(),
{
    concat(COOKIE_NAME, "=; Path=/; HttpOnly; SameSite=Strict; Max-Age=0")
}

/// Whether the connection counts as TLS: natively, or as a proxy in front of the server reports
/// it in `X-Forwarded-Proto`.
pub open spec fn tls_seen(tls_enabled: bool, forwarded_proto: Option<Seq<char>>) -> bool {
    tls_enabled || (forwarded_proto matches Some(p) && eq_ignore_ascii_case(trim(p), "https"@))
}

/// Whether TLS is in use, natively or behind a reverse proxy that sets `X-Forwarded-Proto`.
pub fn is_tls_enabled(tls_enabled: bool, forwarded_proto: Option<&str>) -> (r: bool)
    ensures
        r == tls_seen(tls_enabled, opt_str_view(forwarded_proto)),
{
    if tls_enabled {
        return true;
    }
    match forwarded_proto {
        Some(p) => str_eq_ignore_ascii_case(trim_str(p), "https"),
        None => false,
    }
}

/// A check of the session that the `Cookie` header `header` names, at `now`, took the table
/// from `before` to `after` and answered `ok`: without a session ID it fails and changes
/// nothing; with one it is [`session_checked`].
pub open spec fn cookie_checked(
    before: Map<Seq<char>, u128>,
    after: Map<Seq<char>, u128>,
    header: Option<Seq<char>>,
    now: u128,
    ttl: u64,
    ok: bool,
) -> bool {
    match header {
        Some(h) => match session_in_header(h) {
            Some(id) => session_checked(before, after, id, now, ttl, ok),
            None => !ok && after == before,
        },
        None => !ok && after == before,
    }
}

/// Whether a request is authenticated: always when dashboard authentication is off; otherwise
/// when its cookie names a live session (an expired one is removed on the way).
pub fn is_authenticated(auth_enabled: bool, sessions: &mut SessionStore, cookie_header: Option<&str>) -> (r: bool)
    ensures
        final(sessions).ttl() == old(sessions).ttl(),
        !auth_enabled ==> r && final(sessions).sessions() == old(sessions).sessions(),
        auth_enabled ==> exists|now: u128|
            #[trigger] cookie_checked(
                old(sessions).sessions(),
                final(sessions).sessions(),
                opt_str_view(cookie_header),
                now,
                old(sessions).ttl(),
                r,
            ),
{
    if !auth_enabled {
        return true;
    }
    match extract_session_id(cookie_header) {
        Some(id) => {
            let ghost before = sessions.sessions();
            let ok = sessions.validate(id.as_str());
            proof {
                let now = choose|now: u128| session_checked(before, sessions.sessions(), id@, now, sessions.ttl(), ok);
                assert(cookie_checked(before, sessions.sessions(), opt_str_view(cookie_header), now, sessions.ttl(), ok));
            }
            ok
        },
        None => {
            assert(cookie_checked(sessions.sessions(), sessions.sessions(), opt_str_view(cookie_header), 0, sessions.ttl(), false));
            false
        },
    }
}

/// What the dashboard answers a login attempt.
#[derive(Debug)]
pub struct LoginReply {
    /// HTTP status: 200, 401, or 500 when no session could be created.
    pub status: u16,
    /// A `Set-Cookie` value, when a session was opened.
    pub set_cookie: Option<String>,
    pub success: bool,
    pub message: String,
}

/// After the cookie check answered `live` and left the table at `mid`, the login answered `r`
/// and left the table at `after`: a live session is enough; else a right token opens a new
/// session with a UUID as its ID, created at some time, whose cookie is set (or, when no random
/// bytes could be had for the ID, is answered 500 with the table left as it was); a wrong token
/// is refused with 401.
pub open spec fn login_after(
    mid: Map<Seq<char>, u128>,
    after: Map<Seq<char>, u128>,
    live: bool,
    token_ok: bool,
    ttl: u64,
    secure: bool,
    r: LoginReply,
) -> bool {
    if live {
        &&& r.status == 200 && r.success && r.set_cookie is None
        &&& r.message@ == "Already authenticated"@
        &&& after == mid
    } else if token_ok {
        ||| {
            &&& r.status == 200 && r.success
            &&& r.message@ == "Login successful"@
            &&& r.set_cookie matches Some(c) && exists|id: Seq<char>, t: u128|
                #[trigger] mid.insert(id, t) == after && uuid_v4_text(id) && c@ == session_cookie(id, ttl, secure)
        }
        ||| {
            &&& r.status == 500 && !r.success && r.set_cookie is None
            &&& r.message@ == "Could not create a session"@
            &&& after == mid
        }
    } else {
        &&& r.status == 401 && !r.success && r.set_cookie is None
        &&& r.message@ == "Invalid admin token"@
        &&& after == mid
    }
}

/// Handles a login with `token`. Open access (`auth_enabled` false) and a request that already
/// carries a live session succeed without a new session. Otherwise the configured token opens a
/// session and sets its cookie; any other token is refused with 401.
pub fn login(
    auth_enabled: bool,
    dashboard_token: &str,
    sessions: &mut SessionStore,
    tls_enabled: bool,
    cookie_header: Option<&str>,
    forwarded_proto: Option<&str>,
    token: &str,
) -> (r: LoginReply)
    ensures
        final(sessions).ttl() == old(sessions).ttl(),
        !auth_enabled ==> r.status == 200 && r.success && r.set_cookie is None && r.message@
            == "Authentication not required"@ && final(sessions).sessions() == old(sessions).sessions(),
        auth_enabled ==> exists|now: u128, mid: Map<Seq<char>, u128>, live: bool|
            #[trigger] cookie_checked(old(sessions).sessions(), mid, opt_str_view(cookie_header), now, old(sessions).ttl(), live)
                && login_after(
                mid,
                final(sessions).sessions(),
                live,
                dashboard_token@.len() == 0 || dashboard_token@ == token@,
                old(sessions).ttl(),
                tls_seen(tls_enabled, opt_str_view(forwarded_proto)),
                r,
            ),
{
    if !auth_enabled {
        return LoginReply {
            status: 200,
            set_cookie: None,
            success: true,
            message: "Authentication not required".to_string(),
        };
    }
    let ghost before = sessions.sessions();
    let live = is_authenticated(auth_enabled, sessions, cookie_header);
    let ghost mid = sessions.sessions();
    let ghost now = choose|now: u128| cookie_checked(before, mid, opt_str_view(cookie_header), now, sessions.ttl(), live);
    if live {
        let r = LoginReply {
            status: 200,
            set_cookie: None,
            success: true,
            message: "Already authenticated".to_string(),
        };
        assert(cookie_checked(before, mid, opt_str_view(cookie_header), now, old(sessions).ttl(), live));
        return r;
    }
    let mut check_cfg = crate::server_config::ServerConfig::default();
    check_cfg.dashboard_auth.token = dashboard_token.to_string();
    if check_cfg.validate_dashboard_token(token) {
        let session_id = match sessions.create() {
            Some(id) => id,
            None => {
                let r = LoginReply {
                    status: 500,
                    set_cookie: None,
                    success: false,
                    message: "Could not create a session".to_string(),
                };
                assert(cookie_checked(before, mid, opt_str_view(cookie_header), now, old(sessions).ttl(), live));
                return r;
            },
        };
        let tls = is_tls_enabled(tls_enabled, forwarded_proto);
        let cookie = build_session_cookie(session_id.as_str(), sessions.ttl_secs(), tls);
        let r = LoginReply {
            status: 200,
            set_cookie: Some(cookie),
            success: true,
            message: "Login successful".to_string(),
        };
        proof {
            let t = choose|t: u128| sessions.sessions() == #[trigger] mid.insert(session_id@, t);
            assert(mid.insert(session_id@, t) == sessions.sessions());
            assert(login_after(mid, sessions.sessions(), live, true, old(sessions).ttl(), tls, r));
            assert(cookie_checked(before, mid, opt_str_view(cookie_header), now, old(sessions).ttl(), live));
        }
        r
    } else {
        let r = LoginReply {
            status: 401,
            set_cookie: None,
            success: false,
            message: "Invalid admin token".to_string(),
        };
        assert(cookie_checked(before, mid, opt_str_view(cookie_header), now, old(sessions).ttl(), live));
        r
    }
}

/// Handles a logout: removes the session the cookie names, if any, and returns the
/// `Set-Cookie` value that clears the cookie.
pub fn logout(sessions: &mut SessionStore, cookie_header: Option<&str>) -> (r: String)
    ensures
        r@ == clear_cookie(),
        final(sessions).ttl() == old(sessions).ttl(),
        cookie_header matches Some(h) ==> (session_in_header(h@) matches Some(id) ==> final(sessions).sessions()
            == old(sessions).sessions().remove(id)),
        cookie_header is None || session_in_header(cookie_header->0@) is None ==> final(sessions).sessions()
            == old(sessions).sessions(),
{
    if let Some(id) = extract_session_id(cookie_header) {
        sessions.invalidate(id.as_str());
    }
    build_clear_cookie()
}


/// Subdomains that always get a certificate.
pub open spec fn reserved_subdomain(sub: Seq<char>) -> bool {
    sub == "dashboard"@
}

/// Whether `sub` is a reserved subdomain (the dashboard's).
pub fn is_reserved_subdomain(sub: &str) -> (r: bool)
    ensures
        r == reserved_subdomain(sub@),
{
    str_eq(sub, "dashboard")
}

/// The answer to an on-demand TLS check.
#[derive(Debug, Clone, Copy, PartialEq, Eq, Structural)]
pub enum TlsCheck {
    /// 200: issue the certificate.
    Approve,
    /// 403: refuse it.
    Reject,
    /// The domain is not under ours: the fallback endpoint decides.
    AskFallback,
}

/// The TLS check of `requested` for base domain `base` with the clients in `connected`:
/// a reserved subdomain or one of a connected client is approved, another subdomain is
/// refused, and a domain outside `*.{base}` goes to the fallback.
pub open spec fn tls_check_of(requested: Seq<char>, base: Seq<char>, connected: Seq<String>) -> TlsCheck {
    let suffix = seq!['.'] + base;
    if ends_with(requested, suffix) {
        let sub = requested.subrange(0, requested.len() - suffix.len());
        if reserved_subdomain(sub) || listed(connected, sub) {
            TlsCheck::Approve
        } else {
            TlsCheck::Reject
        }
    } else {
        TlsCheck::AskFallback
    }
}

/// Decides Caddy's on-demand TLS check for `requested`.
pub fn tls_check(requested: &str, base_domain: &str, connected: &Vec<String>) -> (r: TlsCheck)
    ensures
        r == tls_check_of(requested@, base_domain@, connected@),
{
    let suffix = concat(".", base_domain);
    proof {
        reveal_strlit(".");
        assert(suffix@ =~= seq!['.'] + base_domain@);
    }
    match strip_suffix(requested, suffix.as_str()) {
        Some(sub) => {
            if is_reserved_subdomain(sub) || contains_str(connected, sub) {
                TlsCheck::Approve
            } else {
                TlsCheck::Reject
            }
        },
        None => TlsCheck::AskFallback,
    }
}

/// The subdomain of every connected client is approved: for any list of connected clients and
/// any of them, `<client>.<base>` passes the TLS check.
pub proof fn law_tls_approves_connected_clients(connected: Seq<String>, i: int, base: Seq<char>)
    requires
        0 <= i < connected.len(),
    ensures
        tls_check_of(connected[i]@ + seq!['.'] + base, base, connected) == TlsCheck::Approve,
{
    let c = connected[i]@;
    let req = c + seq!['.'] + base;
    let suffix = seq!['.'] + base;
    assert(req.subrange(req.len() - suffix.len(), req.len() as int) =~= suffix);
    assert(req.subrange(0, req.len() - suffix.len()) =~= c);
    assert(listed(connected, c));
}

/// The dashboard's subdomain is approved, whatever clients are connected.
pub proof fn law_tls_approves_dashboard(connected: Seq<String>, base: Seq<char>)
    ensures
        tls_check_of("dashboard"@ + seq!['.'] + base, base, connected) == TlsCheck::Approve,
{
    let req = "dashboard"@ + seq!['.'] + base;
    let suffix = seq!['.'] + base;
    assert(req.subrange(req.len() - suffix.len(), req.len() as int) =~= suffix);
    assert(req.subrange(0, req.len() - suffix.len()) =~= "dashboard"@);
}

/// A subdomain that is neither reserved nor a connected client's is refused.
pub proof fn law_tls_rejects_unknown_subdomains(connected: Seq<String>, sub: Seq<char>, base: Seq<char>)
    requires
        sub != "dashboard"@,
        forall|i: int| 0 <= i < connected.len() ==> (#[trigger] connected[i])@ != sub,
    ensures
        tls_check_of(sub + seq!['.'] + base, base, connected) == TlsCheck::Reject,
{
    let req = sub + seq!['.'] + base;
    let suffix = seq!['.'] + base;
    assert(req.subrange(req.len() - suffix.len(), req.len() as int) =~= suffix);
    assert(req.subrange(0, req.len() - suffix.len()) =~= sub);
}

/// A domain outside `*.<base>` is left to the fallback.
pub proof fn law_tls_outside_base_asks_fallback(requested: Seq<char>, base: Seq<char>, connected: Seq<String>)
    requires
        !(requested.len() > base.len() && requested.subrange(requested.len() - base.len() - 1, requested.len() as int)
            == seq!['.'] + base),
    ensures
        tls_check_of(requested, base, connected) == TlsCheck::AskFallback,
{
}

/// The status the fallback endpoint's answer becomes: its status when it answered with a valid
/// HTTP status code (100 to 999), else 403.
pub fn fallback_status(answer: Option<u16>) -> (r: u16)
    ensures
        answer matches Some(s) ==> (if 100 <= s <= 999 { r == s } else { r == 403 }),
        answer is None ==> r == 403,
{
    match answer {
        Some(s) => {
            if 100 <= s && s <= 999 {
                s
            } else {
                403
            }
        },
        None => 403,
    }
}


/// The cookie that login sets comes back as the session ID: the `Cookie` header
/// `zo-session=<id>` that a browser returns yields `id`, for an ID that is not empty, holds no
/// `;` and neither starts nor ends with whitespace.
pub proof fn law_session_cookie_roundtrip(id: Seq<char>)
    requires
        id.len() > 0,
        !id.contains(';'),
        !is_ws(id[0]),
        !is_ws(id.last()),
    ensures
        session_in_header(COOKIE_NAME@ + "="@ + id) == Some(id),
{
    reveal_strlit("zo-session");
    reveal_strlit("=");
    let name = COOKIE_NAME@;
    assert(name =~= seq!['z', 'o', '-', 's', 'e', 's', 's', 'i', 'o', 'n']);
    assert("="@ =~= seq!['=']);
    let h = name + "="@ + id;
    assert forall|j: int| 0 <= j < h.len() implies h[j] != ';' by {
        if j > name.len() {
            assert(h[j] == id[j - name.len() - 1]);
            if id[j - name.len() - 1] == ';' {
                assert(id.contains(';'));
            }
        }
    }
    lemma_index_of(h, ';', h.len() as int);
    assert(split_char(h, ';') == seq![h]);
    assert(h[0] == 'z');
    assert(trim_start(h) == h);
    assert(h.last() == id.last());
    assert(trim_end(h) == h);
    assert(trim(h) == h);
    let prefix = name + "="@;
    assert(h.subrange(0, prefix.len() as int) =~= prefix);
    assert(starts_with(h, prefix));
    assert(h.subrange(prefix.len() as int, h.len() as int) =~= id);
}

} // verus!
