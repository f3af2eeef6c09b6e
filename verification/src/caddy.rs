//! Caddy integration: registration as Caddy's on-demand TLS `ask` endpoint, with a fallback
//! endpoint that other domains are forwarded to.
use vstd::prelude::*;
use crate::text::{
    concat, decimal, decimal_string, find_char, opt_view, prefix_chars, str_eq, take_chars, trim,
    trim_end_char, trim_matches_char, trim_start_char, trim_str,
};

verus! {

/// Caddy integration settings.
#[derive(Debug, Clone)]
pub struct CaddyConfig {
    /// Whether Caddy integration is on.
    pub enabled: bool,
    /// Address of Caddy's admin API.
    pub admin_api: String,
}

/// Default address of Caddy's admin API.
pub fn default_admin_api() -> (r: String)
    ensures
        r@ == "http://localhost:2019"@,
{
    "http://localhost:2019".to_string()
}

impl Default for CaddyConfig {
    fn default() -> (r: Self)
        ensures
            !r.enabled,
            r.admin_api@ == "http://localhost:2019"@,
    {
        CaddyConfig { enabled: false, admin_api: default_admin_api() }
    }
}

impl CaddyConfig {
    /// The configuration that detection yields: enabled, with the default admin API, when Caddy's
    /// configuration directory exists or its binary is on the `PATH`.
    pub fn from_detection(config_dir_exists: bool, binary_on_path: bool) -> (r: Self)
        ensures
            r.enabled == (config_dir_exists || binary_on_path),
            r.admin_api@ == "http://localhost:2019"@,
    {
        CaddyConfig { enabled: config_dir_exists || binary_on_path, admin_api: default_admin_api() }
    }
}

/// What `serde_json::from_str::<String>` reads from `text`: the string a JSON string literal
/// denotes, or nothing when `text` is not one.
pub uninterp spec fn json_string(text: Seq<char>) -> Option<Seq<char>>;

/// The lowercase hexadecimal digit of `d` (below 16).
pub open spec fn hex_lower(d: int) -> char {
    seq!['0', '1', '2', '3', '4', '5', '6', '7', '8', '9', 'a', 'b', 'c', 'd', 'e', 'f'][d]
}

/// How character `c` stands inside a JSON string literal: `"` and `\` behind a backslash, the
/// control characters with a short escape as such, the other control characters as `\u00xx`,
/// and every other character as itself.
pub open spec fn json_escape_char(c: char) -> Seq<char> {
    if c == '"' {
        seq!['\\', '"']
    } else if c == '\\' {
        seq!['\\', '\\']
    } else if c == '\x08' {
        seq!['\\', 'b']
    } else if c == '\t' {
        seq!['\\', 't']
    } else if c == '\n' {
        seq!['\\', 'n']
    } else if c == '\x0c' {
        seq!['\\', 'f']
    } else if c == '\r' {
        seq!['\\', 'r']
    } else if (c as int) < 0x20 {
        seq!['\\', 'u', '0', '0', hex_lower((c as int) / 16), hex_lower((c as int) % 16)]
    } else {
        seq![c]
    }
}

/// The characters of `s`, each escaped for a JSON string literal.
pub open spec fn json_escaped(s: Seq<char>) -> Seq<char>
    decreases s.len(),
{
    if s.len() == 0 {
        Seq::empty()
    } else {
        json_escaped(s.drop_last()) + json_escape_char(s.last())
    }
}

/// The JSON string literal of `s`: its escaped characters between double quotes.
pub open spec fn json_quoted(s: Seq<char>) -> Seq<char> {
    seq!['"'] + json_escaped(s) + seq!['"']
}

/// `serde_json::from_str::<String>`: the result is [`json_string`] of the text.
#[verifier::external_body]
fn json_decode_string(text: &str) -> (r: Option<String>)
    ensures
        opt_view(r) == json_string(text@),
{
    serde_json::from_str::<String>(text).ok()
}

/// `serde_json::to_string` on a string: the string's JSON literal, [`json_quoted`]. Writing a
/// string into the in-memory buffer that `to_string` uses does not fail, so the result is `Some`.
#[verifier::external_body]
fn json_encode_string(s: &str) -> (r: Option<String>)
    ensures
        opt_view(r) == Some(json_quoted(s@)),
{
    serde_json::to_string(s).ok()
}

/// The endpoint that the body of Caddy's answer names: the JSON string it holds, or else the
/// trimmed body with its double quotes stripped.
pub open spec fn endpoint_in_body(body: Seq<char>) -> Seq<char> {
    match json_string(trim(body)) {
        Some(s) => s,
        None => trim_end_char(trim_start_char(trim(body), '"'), '"'),
    }
}

/// Reads the endpoint out of the body of Caddy's answer.
pub fn decode_endpoint(body: &str) -> (r: String)
    ensures
        r@ == endpoint_in_body(body@),
{
    let t = trim_str(body);
    match json_decode_string(t) {
        Some(s) => s,
        None => trim_matches_char(t, '"').to_string(),
    }
}

/// Path of the on-demand permission endpoint in Caddy's configuration.
pub open spec fn endpoint_config_path() -> Seq<char> {
    "/config/apps/tls/automation/on_demand/permission/endpoint"@
}

/// Errors of the Caddy integration.
#[derive(Debug)]
pub enum CaddyError {
    /// A URL that does not parse, with the parser's error text.
    InvalidUrl(String),
    /// Caddy answered the registration with another status than 200; the text is the start of its
    /// body.
    Rejected(u16, String),
}

impl CaddyError {
    /// The error's message: the parser's text for a bad URL.
    pub fn message(&self) -> (r: String)
        ensures
            self matches CaddyError::InvalidUrl(text) ==> r@ == text@,
            self matches CaddyError::Rejected(status, body) ==> r@ == "Caddy Admin API returned "@
                + decimal(status as nat) + " when setting endpoint: "@ + body@,
    {
        match self {
            CaddyError::InvalidUrl(text) => text.clone(),
            CaddyError::Rejected(status, body) => {
                let mut m = concat("Caddy Admin API returned ", decimal_string(*status as u64).as_str());
                m.append(" when setting endpoint: ");
                m.append(body.as_str());
                m
            },
        }
    }
}

/// The result of the registration request: success on 200; otherwise the status with the
/// first 200 characters of Caddy's body.
pub fn register_outcome(status: u16, body: &str) -> (r: Result<(), CaddyError>)
    ensures
        status == 200 ==> r is Ok,
        status != 200 ==> (r matches Err(CaddyError::Rejected(s, b)) && s == status && b@ == take_chars(body@, 200)),
{
    if status == 200 {
        Ok(())
    } else {
        Err(CaddyError::Rejected(status, prefix_chars(body, 200)))
    }
}

/// Registers the tunnel server as Caddy's on-demand TLS `ask` endpoint and keeps the endpoint it
/// replaced as a fallback for the domains that are not ours.
pub struct CaddyManager {
    admin_api: String,
    our_endpoint: String,
    fallback_endpoint: Option<String>,
}

/// No saved fallback is empty or our own endpoint.
pub open spec fn fallback_sound(fallback: Option<Seq<char>>, ours: Seq<char>) -> bool {
    fallback matches Some(f) ==> f.len() > 0 && f != ours
}

impl CaddyManager {
    /// Address of Caddy's admin API.
    pub closed spec fn admin_api(&self) -> Seq<char> {
        self.admin_api@
    }

    /// Our `/api/tls-check` endpoint.
    pub closed spec fn ours(&self) -> Seq<char> {
        self.our_endpoint@
    }

    /// The saved fallback endpoint.
    pub closed spec fn fallback(&self) -> Option<Seq<char>> {
        opt_view(self.fallback_endpoint)
    }

    /// A manager with no fallback yet.
    pub fn new(admin_api: String, our_endpoint: String) -> (r: Self)
        ensures
            r.admin_api() == admin_api@,
            r.ours() == our_endpoint@,
            r.fallback() is None,
    {
        CaddyManager { admin_api, our_endpoint, fallback_endpoint: None }
    }

    /// URL of the on-demand permission endpoint in Caddy's admin API.
    pub fn endpoint_config_url(&self) -> (r: String)
        ensures
            r@ == self.admin_api() + endpoint_config_path(),
    {
        concat(self.admin_api.as_str(), "/config/apps/tls/automation/on_demand/permission/endpoint")
    }

    /// The body that sets our endpoint: its JSON string.
    pub fn registration_body(&self) -> (r: Option<String>)
        ensures
            opt_view(r) == Some(json_quoted(self.ours())),
    {
        json_encode_string(self.our_endpoint.as_str())
    }

    /// First step of registration, given Caddy's answer (`status`, `body`) to reading the current
    /// endpoint: a non-empty endpoint other than ours, read with status 200, becomes the fallback.
    pub fn adopt_existing(&mut self, status: u16, body: &str)
        ensures
            final(self).admin_api() == old(self).admin_api(),
            final(self).ours() == old(self).ours(),
            ({
                let e = endpoint_in_body(body@);
                if status == 200 && e.len() > 0 && e != old(self).ours() {
                    final(self).fallback() == Some(e)
                } else {
                    final(self).fallback() == old(self).fallback()
                }
            }),
    {
        if status == 200 {
            let existing = decode_endpoint(body);
            if existing.as_str().unicode_len() > 0 && !str_eq(existing.as_str(), self.our_endpoint.as_str()) {
                self.fallback_endpoint = Some(existing);
            }
        }
    }

    /// The request that restores the fallback on shutdown: its URL and the fallback's JSON string
    /// as body, when there is a fallback.
    pub fn restore_request(&self) -> (r: Option<(String, String)>)
        ensures
            self.fallback() is None ==> r is None,
            self.fallback() matches Some(f) ==> r matches Some((u, body)) && u@ == self.admin_api()
                + endpoint_config_path() && body@ == json_quoted(f),
    {
        match &self.fallback_endpoint {
            Some(endpoint) => {
                match json_encode_string(endpoint.as_str()) {
                    Some(body) => Some((self.endpoint_config_url(), body)),
                    None => None,
                }
            },
            None => None,
        }
    }

    /// One round of the watchdog, given Caddy's answer to reading the current endpoint. Nothing
    /// is done unless Caddy answered 200 with another endpoint than ours; then a non-empty one
    /// becomes the fallback, and the body that re-registers us is returned.
    pub fn watchdog_step(&mut self, status: u16, body: &str) -> (r: Option<String>)
        ensures
            final(self).admin_api() == old(self).admin_api(),
            final(self).ours() == old(self).ours(),
            ({
                let e = endpoint_in_body(body@);
                if status != 200 || e == old(self).ours() {
                    r is None && final(self).fallback() == old(self).fallback()
                } else {
                    &&& opt_view(r) == Some(json_quoted(old(self).ours()))
                    &&& final(self).fallback() == if e.len() > 0 {
                        Some(e)
                    } else {
                        old(self).fallback()
                    }
                }
            }),
    {
        if status != 200 {
            return None;
        }
        let current = decode_endpoint(body);
        if str_eq(current.as_str(), self.our_endpoint.as_str()) {
            return None;
        }
        if current.as_str().unicode_len() > 0 {
            self.fallback_endpoint = Some(current);
        }
        self.registration_body()
    }

    /// The URL that asks the fallback endpoint about `domain`: `domain=` appended as a query
    /// parameter. `None` when there is no fallback.
    pub fn fallback_check_url(&self, domain: &str) -> (r: Option<String>)
        ensures
            self.fallback() is None ==> r is None,
            self.fallback() matches Some(f) ==> (r matches Some(u) && u@ == f + (if f.contains('?') {
                seq!['&']
            } else {
                seq!['?']
            }) + "domain="@ + domain@),
    {
        match &self.fallback_endpoint {
            Some(endpoint) => {
                let e = endpoint.as_str();
                let n = e.unicode_len();
                let q = find_char(e, '?', 0);
                assert(e@.subrange(0, n as int) =~= e@);
                let mut url = if q < n {
                    concat(e, "&")
                } else {
                    concat(e, "?")
                };
                url.append("domain=");
                url.append(domain);
                proof {
                    reveal_strlit("&");
                    reveal_strlit("?");
                    if q < n {
                        assert(e@.contains('?'));
                        assert(url@ =~= e@ + seq!['&'] + "domain="@ + domain@);
                    } else {
                        assert(!e@.contains('?'));
                        assert(url@ =~= e@ + seq!['?'] + "domain="@ + domain@);
                    }
                }
                Some(url)
            },
            None => None,
        }
    }
}

/// Our own endpoint never becomes the fallback, whatever Caddy answers: every step keeps the
/// fallback non-empty and different from ours.
pub proof fn law_fallback_never_ours(
    fallback: Option<Seq<char>>,
    ours: Seq<char>,
    status: u16,
    body: Seq<char>,
)
    requires
        fallback_sound(fallback, ours),
    ensures
        ({
            let e = endpoint_in_body(body);
            fallback_sound(if status == 200 && e.len() > 0 && e != ours { Some(e) } else { fallback }, ours)
        }),
        ({
            let e = endpoint_in_body(body);
            fallback_sound(if status != 200 || e == ours { fallback } else if e.len() > 0 { Some(e) } else { fallback }, ours)
        }),
{
}


/// What parsing `url` as a `hyper::Uri` gives, read through `host()`, `port_u16()` and
/// `path_and_query()`; when the URL does not parse, the text of the `InvalidUri` error.
pub uninterp spec fn uri_parts(url: Seq<char>) -> Result<(Option<Seq<char>>, Option<u16>, Option<Seq<char>>), Seq<char>>;

/// The view of parsed URI components, or of the parse error's text.
pub open spec fn parts_view(p: Result<(Option<String>, Option<u16>, Option<String>), String>) -> Result<(Option<Seq<char>>, Option<u16>, Option<Seq<char>>), Seq<char>> {
    match p {
        Ok((h, port, pq)) => Ok((opt_view(h), port, opt_view(pq))),
        Err(e) => Err(e@),
    }
}

/// `url.parse::<hyper::Uri>()`, read through `host()`, `port_u16()` and `path_and_query()`, with
/// the error's `Display` text on failure: the result is [`uri_parts`] of the URL.
#[verifier::external_body]
fn parse_uri(url: &str) -> (r: Result<(Option<String>, Option<u16>, Option<String>), String>)
    ensures
        parts_view(r) == uri_parts(url@),
{
    match url.parse::<hyper::Uri>() {
        Ok(u) => Ok((
            u.host().map(|h| h.to_string()),
            u.port_u16(),
            u.path_and_query().map(|pq| pq.as_str().to_string()),
        )),
        Err(e) => Err(e.to_string()),
    }
}

/// Host, port and path of a parsed URL, with the defaults `localhost`, 80 and `/`.
pub open spec fn url_target(
    parts: (Option<Seq<char>>, Option<u16>, Option<Seq<char>>),
) -> (Seq<char>, u16, Seq<char>) {
    (
        match parts.0 {
            Some(h) => h,
            None => "localhost"@,
        },
        match parts.1 {
            Some(p) => p,
            None => 80,
        },
        match parts.2 {
            Some(pq) => pq,
            None => "/"@,
        },
    )
}

/// Applies the defaults to the components of a parsed URL.
pub fn target_of_parts(host: Option<String>, port: Option<u16>, path: Option<String>) -> (r: (String, u16, String))
    ensures
        r.0@ == url_target((opt_view(host), port, opt_view(path))).0,
        r.1 == url_target((opt_view(host), port, opt_view(path))).1,
        r.2@ == url_target((opt_view(host), port, opt_view(path))).2,
{
    let h = match host {
        Some(h) => h,
        None => "localhost".to_string(),
    };
    let p = match port {
        Some(p) => p,
        None => 80,
    };
    let pq = match path {
        Some(pq) => pq,
        None => "/".to_string(),
    };
    (h, p, pq)
}

/// Splits a URL into host, port and path with query.
pub fn parse_url(url: &str) -> (r: Result<(String, u16, String), CaddyError>)
    ensures
        uri_parts(url@) matches Err(m) ==> (r matches Err(CaddyError::InvalidUrl(t)) && t@ == m),
        uri_parts(url@) matches Ok(parts) ==> (r matches Ok(t) && t.0@ == url_target(parts).0
            && t.1 == url_target(parts).1 && t.2@ == url_target(parts).2),
{
    match parse_uri(url) {
        Ok((host, port, path)) => Ok(target_of_parts(host, port, path)),
        Err(e) => Err(CaddyError::InvalidUrl(e)),
    }
}

/// The host to connect to: `127.0.0.1` for `localhost` (services often bind IPv4 only).
pub fn connect_host(host: &str) -> (r: String)
    ensures
        r@ == if host@ == "localhost"@ {
            "127.0.0.1"@
        } else {
            host@
        },
{
    if str_eq(host, "localhost") {
        "127.0.0.1".to_string()
    } else {
        host.to_string()
    }
}

/// The `Host` header: the host alone on port 80, else `host:port`.
pub fn host_header(host: &str, port: u16) -> (r: String)
    ensures
        r@ == if port == 80 {
            host@
        } else {
            host@ + ":"@ + decimal(port as nat)
        },
{
    if port == 80 {
        host.to_string()
    } else {
        let mut h = concat(host, ":");
        h.append(decimal_string(port as u64).as_str());
        h
    }
}

} // verus!
