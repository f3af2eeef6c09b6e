//! Configuration of the `zobite` tunnel server: the same settings without dashboard
//! authentication.
use vstd::prelude::*;
use crate::server_config::{
    default_control_port, default_dashboard_port, default_log_level, default_max_conn,
    default_public_port, default_rps, default_tcp_end, default_tcp_start, token_accepted,
};
use crate::text::contains_str;

verus! {

/// How public requests are routed to tunnel clients.
#[derive(Debug, Clone, PartialEq, Eq, Structural)]
pub enum RoutingMode {
    Path,
    Subdomain,
}

impl Default for RoutingMode {
    fn default() -> (r: Self)
        ensures
            r == RoutingMode::Path,
    {
        RoutingMode::Path
    }
}

/// TLS settings of the public listener.
#[derive(Debug, Clone)]
pub struct TlsConfig {
    pub enabled: bool,
    pub cert: String,
    pub key: String,
}

impl Default for TlsConfig {
    fn default() -> (r: Self)
        ensures
            !r.enabled,
            r.cert@.len() == 0,
            r.key@.len() == 0,
    {
        TlsConfig { enabled: false, cert: String::new(), key: String::new() }
    }
}

/// Tokens that tunnel clients may authenticate with.
#[derive(Debug, Clone)]
pub struct AuthConfig {
    pub tokens: Vec<String>,
}

impl Default for AuthConfig {
    fn default() -> (r: Self)
        ensures
            r.tokens@.len() == 0,
    {
        AuthConfig { tokens: Vec::new() }
    }
}

/// Per-client request throttling.
#[derive(Debug, Clone)]
pub struct RateLimitConfig {
    pub requests_per_second: u32,
    pub max_connections_per_client: u32,
}

impl Default for RateLimitConfig {
    fn default() -> (r: Self)
        ensures
            r.requests_per_second == 100,
            r.max_connections_per_client == 50,
    {
        RateLimitConfig { requests_per_second: default_rps(), max_connections_per_client: default_max_conn() }
    }
}

/// Port range for dedicated TCP tunnels (both ends inclusive).
#[derive(Debug, Clone)]
pub struct TcpPortConfig {
    pub enabled: bool,
    pub port_start: u16,
    pub port_end: u16,
}

impl Default for TcpPortConfig {
    fn default() -> (r: Self)
        ensures
            r.enabled,
            r.port_start == 10000,
            r.port_end == 10100,
    {
        TcpPortConfig { enabled: true, port_start: default_tcp_start(), port_end: default_tcp_end() }
    }
}

/// Configuration of the tunnel server.
#[derive(Debug, Clone)]
pub struct ServerConfig {
    pub control_port: u16,
    pub public_port: u16,
    pub dashboard_port: u16,
    pub routing_mode: RoutingMode,
    pub domain: Option<String>,
    pub tls: TlsConfig,
    pub auth: AuthConfig,
    pub rate_limit: RateLimitConfig,
    pub tcp_ports: TcpPortConfig,
    pub log_level: String,
}

impl Default for ServerConfig {
    fn default() -> (r: Self)
        ensures
            r.control_port == 6200,
            r.public_port == 6210,
            r.dashboard_port == 6220,
            r.routing_mode == RoutingMode::Path,
            r.domain is None,
            !r.tls.enabled,
            r.auth.tokens@.len() == 0,
            r.rate_limit.requests_per_second == 100,
            r.rate_limit.max_connections_per_client == 50,
            r.tcp_ports.enabled,
            r.tcp_ports.port_start == 10000,
            r.tcp_ports.port_end == 10100,
            r.log_level@ == "info"@,
    {
        ServerConfig {
            control_port: default_control_port(),
            public_port: default_public_port(),
            dashboard_port: default_dashboard_port(),
            routing_mode: RoutingMode::default(),
            domain: None,
            tls: TlsConfig::default(),
            auth: AuthConfig::default(),
            rate_limit: RateLimitConfig::default(),
            tcp_ports: TcpPortConfig::default(),
            log_level: default_log_level(),
        }
    }
}

impl ServerConfig {
    /// Whether a tunnel client's token is valid. When no tokens are configured, all are accepted.
    pub fn validate_token(&self, token: &str) -> (r: bool)
        ensures
            r == token_accepted(self.auth.tokens@, token@),
    {
        if self.auth.tokens.len() == 0 {
            return true;
        }
        contains_str(&self.auth.tokens, token)
    }
}

} // verus!
