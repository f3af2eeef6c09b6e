//! Server configuration: defaults and token checks.
use vstd::prelude::*;
use subtle::ConstantTimeEq;
use vstd::utf8::encode_utf8_decode_utf8;
use crate::text::{listed, contains_str};

verus! {

/// Default port of the control channel that tunnel clients connect to.
pub const DEFAULT_CONTROL_PORT: u16 = 6200;

/// Default port of the public HTTP listener.
pub const DEFAULT_PUBLIC_PORT: u16 = 6210;

/// Default port of the dashboard.
pub const DEFAULT_DASHBOARD_PORT: u16 = 6220;

/// How public requests are routed to tunnel clients.
#[derive(Debug, Clone, PartialEq, Eq, Structural)]
pub enum RoutingMode {
    /// `/<client_id>/rest/of/path`
    Path,
    /// `<client_id>.<domain>`
    Subdomain,
}

impl Default for RoutingMode {
    fn default() -> (r: Self)
        ensures
            r == RoutingMode::Path,
    {
        RoutingMode::Path
    }
}

/// TLS settings of the public listener.
#[derive(Debug, Clone)]
pub struct TlsConfig {
    pub enabled: bool,
    pub cert: String,
    pub key: String,
}

impl Default for TlsConfig {
    fn default() -> (r: Self)
        ensures
            !r.enabled,
            r.cert@.len() == 0,
            r.key@.len() == 0,
    {
        TlsConfig { enabled: false, cert: String::new(), key: String::new() }
    }
}

/// Tokens that tunnel clients may authenticate with.
#[derive(Debug, Clone)]
pub struct AuthConfig {
    pub tokens: Vec<String>,
}

impl Default for AuthConfig {
    fn default() -> (r: Self)
        ensures
            r.tokens@.len() == 0,
    {
        AuthConfig { tokens: Vec::new() }
    }
}

/// Dashboard authentication: an empty token leaves the dashboard open.
#[derive(Debug, Clone)]
pub struct DashboardAuthConfig {
    pub token: String,
    pub session_ttl_secs: u64,
}

impl Default for DashboardAuthConfig {
    fn default() -> (r: Self)
        ensures
            r.token@.len() == 0,
            r.session_ttl_secs == 86400,
    {
        DashboardAuthConfig { token: String::new(), session_ttl_secs: default_session_ttl() }
    }
}

/// Per-client request throttling.
#[derive(Debug, Clone)]
pub struct RateLimitConfig {
    pub requests_per_second: u32,
    pub max_connections_per_client: u32,
}

impl Default for RateLimitConfig {
    fn default() -> (r: Self)
        ensures
            r.requests_per_second == 100,
            r.max_connections_per_client == 50,
    {
        RateLimitConfig { requests_per_second: 100, max_connections_per_client: 50 }
    }
}

/// Port range for dedicated TCP tunnels (both ends inclusive).
#[derive(Debug, Clone)]
pub struct TcpPortConfig {
    pub enabled: bool,
    pub port_start: u16,
    pub port_end: u16,
}

impl Default for TcpPortConfig {
    fn default() -> (r: Self)
        ensures
            r.enabled,
            r.port_start == 10000,
            r.port_end == 10100,
    {
        TcpPortConfig { enabled: true, port_start: 10000, port_end: 10100 }
    }
}

/// Configuration of the tunnel server.
#[derive(Debug, Clone)]
pub struct ServerConfig {
    pub control_port: u16,
    pub public_port: u16,
    pub dashboard_port: u16,
    pub routing_mode: RoutingMode,
    pub domain: Option<String>,
    pub tls: TlsConfig,
    pub auth: AuthConfig,
    pub dashboard_auth: DashboardAuthConfig,
    pub rate_limit: RateLimitConfig,
    pub tcp_ports: TcpPortConfig,
    pub log_level: String,
}

/// Default control port.
pub fn default_control_port() -> (r: u16)
    ensures
        r == 6200,
{
    DEFAULT_CONTROL_PORT
}

/// Default public port.
pub fn default_public_port() -> (r: u16)
    ensures
        r == 6210,
{
    DEFAULT_PUBLIC_PORT
}

/// Default dashboard port.
pub fn default_dashboard_port() -> (r: u16)
    ensures
        r == 6220,
{
    DEFAULT_DASHBOARD_PORT
}

/// Default log level: `info`.
pub fn default_log_level() -> (r: String)
    ensures
        r@ == "info"@,
{
    "info".to_string()
}

/// First port of the default TCP range.
pub fn default_tcp_start() -> (r: u16)
    ensures
        r == 10000,
{
    10000
}

/// Last port of the default TCP range.
pub fn default_tcp_end() -> (r: u16)
    ensures
        r == 10100,
{
    10100
}

/// Default requests per second and client.
pub fn default_rps() -> (r: u32)
    ensures
        r == 100,
{
    100
}

/// Default connection limit per client.
pub fn default_max_conn() -> (r: u32)
    ensures
        r == 50,
{
    50
}

/// Default dashboard session lifetime: 24 hours.
pub fn default_session_ttl() -> (r: u64)
    ensures
        r == 86400,
{
    86400
}

impl Default for ServerConfig {
    fn default() -> (r: Self)
        ensures
            r.control_port == 6200,
            r.public_port == 6210,
            r.dashboard_port == 6220,
            r.routing_mode == RoutingMode::Path,
            r.domain is None,
            !r.tls.enabled,
            r.tls.cert@.len() == 0,
            r.tls.key@.len() == 0,
            r.auth.tokens@.len() == 0,
            r.dashboard_auth.token@.len() == 0,
            r.dashboard_auth.session_ttl_secs == 86400,
            r.rate_limit.requests_per_second == 100,
            r.rate_limit.max_connections_per_client == 50,
            r.tcp_ports.enabled,
            r.tcp_ports.port_start == 10000,
            r.tcp_ports.port_end == 10100,
            r.log_level@ == "info"@,
    {
        ServerConfig {
            control_port: default_control_port(),
            public_port: default_public_port(),
            dashboard_port: default_dashboard_port(),
            routing_mode: RoutingMode::default(),
            domain: None,
            tls: TlsConfig::default(),
            auth: AuthConfig::default(),
            dashboard_auth: DashboardAuthConfig::default(),
            rate_limit: RateLimitConfig::default(),
            tcp_ports: TcpPortConfig::default(),
            log_level: default_log_level(),
        }
    }
}

/// Whether `token` may open a tunnel: every token when none is configured, else the listed ones.
pub open spec fn token_accepted(tokens: Seq<String>, token: Seq<char>) -> bool {
    tokens.len() == 0 || listed(tokens, token)
}

/// `subtle`'s constant-time equality of two byte slices, read as a `bool`.
/// Claimed: the result is true exactly when the slices are equal, lengths included
/// (`ct_eq` on slices returns 0 for different lengths, else compares every byte).
#[verifier::external_body]
fn ct_eq_bytes(a: &[u8], b: &[u8]) -> (r: bool)
    ensures
        r == (a@ == b@),
{
    a.ct_eq(b).into()
}

impl ServerConfig {
    /// Whether a tunnel client's token is valid. When no tokens are configured, all are accepted.
    pub fn validate_token(&self, token: &str) -> (r: bool)
        ensures
            r == token_accepted(self.auth.tokens@, token@),
    {
        if self.auth.tokens.len() == 0 {
            return true;
        }
        contains_str(&self.auth.tokens, token)
    }

    /// Whether the dashboard requires authentication (a token is configured).
    pub fn dashboard_auth_enabled(&self) -> (r: bool)
        ensures
            r == (self.dashboard_auth.token@.len() > 0),
    {
        self.dashboard_auth.token.as_str().unicode_len() != 0
    }

    /// Whether `token` opens the dashboard: any token when none is configured, else exactly the
    /// configured one, compared in constant time.
    pub fn validate_dashboard_token(&self, token: &str) -> (r: bool)
        ensures
            r == (self.dashboard_auth.token@.len() == 0 || self.dashboard_auth.token@ == token@),
    {
        if !self.dashboard_auth_enabled() {
            return true;
        }
        let expected = self.dashboard_auth.token.as_str().as_bytes();
        let provided = token.as_bytes();
        let r = expected.len() == provided.len() && ct_eq_bytes(expected, provided);
        proof {
            encode_utf8_decode_utf8(self.dashboard_auth.token@);
            encode_utf8_decode_utf8(token@);
            if self.dashboard_auth.token@ == token@ {
                assert(expected@ == provided@);
            }
        }
        r
    }
}

/// The characters of generated tokens: ASCII letters and digits.
pub open spec fn token_alphabet() -> Seq<char> {
    "ABCDEFGHIJKLMNOPQRSTUVWXYZabcdefghijklmnopqrstuvwxyz0123456789"@
}

/// The token that random bytes give: each byte picks the character at its value modulo 62.
pub open spec fn token_of(bytes: Seq<u8>) -> Seq<char> {
    Seq::new(bytes.len(), |i: int| token_alphabet()[(bytes[i] % 62) as int])
}

/// The token spelled by `bytes`, one alphanumeric character per byte.
pub fn token_from_bytes(bytes: &Vec<u8>) -> (r: String)
    ensures
        r@ == token_of(bytes@),
{
    let alphabet = "ABCDEFGHIJKLMNOPQRSTUVWXYZabcdefghijklmnopqrstuvwxyz0123456789";
    proof {
        reveal_strlit("ABCDEFGHIJKLMNOPQRSTUVWXYZabcdefghijklmnopqrstuvwxyz0123456789");
    }
    let mut r = String::new();
    let mut i: usize = 0;
    while i < bytes.len()
        invariant
            i <= bytes@.len(),
            alphabet@ == token_alphabet(),
            alphabet@.len() == 62,
            r@ == token_of(bytes@.subrange(0, i as int)),
        decreases bytes@.len() - i,
    {
        let k = (bytes[i] % 62) as usize;
        let c = alphabet.substring_char(k, k + 1);
        r.append(c);
        assert(r@ =~= token_of(bytes@.subrange(0, i + 1)));
        i = i + 1;
    }
    assert(bytes@.subrange(0, bytes@.len() as int) =~= bytes@);
    r
}

impl ServerConfig {
    /// A random token of `len` ASCII letters and digits; `None` when the operating system gave
    /// no random bytes.
    pub fn generate_token(len: usize) -> (r: Option<String>)
        ensures
            r matches Some(t) ==> t@.len() == len && forall|i: int|
                0 <= i < len ==> token_alphabet().contains(#[trigger] t@[i]),
    {
        let bytes = match crate::client_config::random_bytes(len) {
            Some(b) => b,
            None => return None,
        };
        let r = token_from_bytes(&bytes);
        proof {
            reveal_strlit("ABCDEFGHIJKLMNOPQRSTUVWXYZabcdefghijklmnopqrstuvwxyz0123456789");
            assert forall|i: int| 0 <= i < len implies token_alphabet().contains(#[trigger] r@[i]) by {
                let k = (bytes@[i] % 62) as int;
                assert(token_alphabet()[k] == r@[i]);
            }
        }
        Some(r)
    }
}

} // verus!
