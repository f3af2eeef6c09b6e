//! Settings of the `zobite` tunnel client: file values overridden by the command line.
use vstd::prelude::*;
use crate::client_config::ReconnectConfig;
use crate::text::concat;

verus! {

/// Configuration of a `zobite` tunnel client.
#[derive(Debug, Clone)]
pub struct ZobiteClientConfig {
    pub server: String,
    pub client_id: String,
    pub local_addr: String,
    pub token: String,
    /// Ask the server for a dedicated TCP port.
    pub tcp_mode: bool,
    pub reconnect: ReconnectConfig,
}

/// What the command line gives: each value, when present, replaces the configured one.
#[derive(Debug, Clone)]
pub struct ZobiteCli {
    pub server: Option<String>,
    pub local: Option<String>,
    pub id: Option<String>,
    pub token: Option<String>,
    pub tcp: bool,
    pub no_reconnect: bool,
}

/// `o`'s value when it has one, else `fallback`.
pub open spec fn or_else(o: Option<String>, fallback: String) -> String {
    match o {
        Some(v) => v,
        None => fallback,
    }
}

impl ZobiteClientConfig {
    /// The settings used without a configuration file: no server, the tunnel `default` to
    /// `localhost:3000`, no token, HTTP mode, and the default reconnection policy.
    pub fn without_file() -> (r: Self)
        ensures
            r.server@.len() == 0,
            r.client_id@ == "default"@,
            r.local_addr@ == "localhost:3000"@,
            r.token@.len() == 0,
            !r.tcp_mode,
            r.reconnect.enabled && r.reconnect.max_interval == 30,
    {
        ZobiteClientConfig {
            server: String::new(),
            client_id: "default".to_string(),
            local_addr: "localhost:3000".to_string(),
            token: String::new(),
            tcp_mode: false,
            reconnect: ReconnectConfig::default(),
        }
    }

    /// Applies the command line: given values replace the configured ones, `--tcp` turns TCP
    /// mode on and `--no-reconnect` turns reconnection off; nothing else changes.
    pub fn apply_cli(&mut self, cli: ZobiteCli)
        ensures
            final(self).server == or_else(cli.server, old(self).server),
            final(self).local_addr == or_else(cli.local, old(self).local_addr),
            final(self).client_id == or_else(cli.id, old(self).client_id),
            final(self).token == or_else(cli.token, old(self).token),
            final(self).tcp_mode == (old(self).tcp_mode || cli.tcp),
            final(self).reconnect.enabled == (old(self).reconnect.enabled && !cli.no_reconnect),
            final(self).reconnect.max_interval == old(self).reconnect.max_interval,
    {
        if let Some(s) = cli.server {
            self.server = s;
        }
        if let Some(l) = cli.local {
            self.local_addr = l;
        }
        if let Some(id) = cli.id {
            self.client_id = id;
        }
        if let Some(t) = cli.token {
            self.token = t;
        }
        if cli.no_reconnect {
            self.reconnect.enabled = false;
        }
        if cli.tcp {
            self.tcp_mode = true;
        }
    }

    /// Refuses settings without a server address.
    pub fn require_server(&self) -> (r: Result<(), String>)
        ensures
            self.server@.len() == 0 ==> (r matches Err(m) && m@
                == "Error: --server is required (or set in config/env)"@),
            self.server@.len() > 0 ==> r is Ok,
    {
        if self.server.as_str().unicode_len() == 0 {
            Err("Error: --server is required (or set in config/env)".to_string())
        } else {
            Ok(())
        }
    }

    /// The mode shown in the start banner: `TCP` or `HTTP`.
    pub fn mode_label(&self) -> (r: &'static str)
        ensures
            self.tcp_mode ==> r@ == "TCP"@,
            !self.tcp_mode ==> r@ == "HTTP"@,
    {
        if self.tcp_mode {
            "TCP"
        } else {
            "HTTP"
        }
    }
}

/// The session goes on after the server's answer to authentication only when it accepted;
/// otherwise it ends with the error `Authentication failed: <message>`.
pub fn zobite_auth_check(success: bool, message: &str) -> (r: Result<(), String>)
    ensures
        success ==> r is Ok,
        !success ==> (r matches Err(m) && m@ == "Authentication failed: "@ + message@),
{
    if success {
        Ok(())
    } else {
        Err(concat("Authentication failed: ", message))
    }
}

} // verus!
