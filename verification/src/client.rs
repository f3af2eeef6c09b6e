//! Decisions of the tunnel client: the route it reports, the TLS server name, and reconnection.
use vstd::prelude::*;
use std::time::Instant;
use crate::client_config::ClientTlsConfig;
use crate::server::ok_prefix;
use crate::text::{before_char, concat, find_char, opt_str_view, starts_with, strip_prefix};

verus! {

/// Real-time state of a tunnel, shared with the web UI.
#[derive(Debug, Clone)]
pub enum TunnelStatus {
    Stopped,
    Connecting,
    /// Connected since `since`, reachable at `route`.
    Connected { route: String, since: Instant },
    Error { message: String },
}

impl Default for TunnelStatus {
    fn default() -> (r: Self)
        ensures
            r is Stopped,
    {
        TunnelStatus::Stopped
    }
}

/// The route a client reports after authenticating: `http://` followed by the address in the
/// server's `OK — <address>` message, else the assigned route, else `-`.
pub open spec fn route_of(message: Seq<char>, assigned_route: Option<Seq<char>>) -> Seq<char> {
    "http://"@ + if starts_with(message, ok_prefix()) {
        message.subrange(ok_prefix().len() as int, message.len() as int)
    } else {
        match assigned_route {
            Some(r) => r,
            None => "-"@,
        }
    }
}

/// Builds the route reported after a successful authentication.
pub fn route_from_auth(message: &str, assigned_route: Option<&str>) -> (r: String)
    ensures
        r@ == route_of(message@, opt_str_view(assigned_route)),
{
    let url = match strip_prefix(message, "OK \u{2014} ") {
        Some(rest) => rest,
        None => match assigned_route {
            Some(a) => a,
            None => "-",
        },
    };
    concat("http://", url)
}

/// The outcome of the server's answer to authentication: the route to report when it accepted
/// (as [`route_from_auth`] builds it), else the error `Authentication failed: <message>`.
pub fn auth_outcome(success: bool, message: &str, assigned_route: Option<&str>) -> (r: Result<String, String>)
    ensures
        success ==> (r matches Ok(route) && route@ == route_of(message@, opt_str_view(assigned_route))),
        !success ==> (r matches Err(m) && m@ == "Authentication failed: "@ + message@),
{
    if success {
        Ok(route_from_auth(message, assigned_route))
    } else {
        Err(concat("Authentication failed: ", message))
    }
}

/// What the client does with a stream that the server opened, by its first byte.
#[derive(Debug, Clone, Copy, PartialEq, Eq, Structural)]
pub enum InboundAction {
    /// A heartbeat ping: answer with the same byte and close.
    Pong,
    /// Anything else: forward the stream to the local service.
    Proxy,
    /// The first byte did not arrive (error or timeout): drop the stream.
    Drop,
}

/// Picks the action for an inbound stream whose first byte read gave `marker` (`None` when the
/// read failed or timed out); `heartbeat` is the heartbeat marker of the protocol.
pub fn inbound_action(marker: Option<u8>, heartbeat: u8) -> (r: InboundAction)
    ensures
        marker is None ==> r == InboundAction::Drop,
        marker == Some(heartbeat) ==> r == InboundAction::Pong,
        marker matches Some(m) && m != heartbeat ==> r == InboundAction::Proxy,
{
    match marker {
        Some(m) => {
            if m == heartbeat {
                InboundAction::Pong
            } else {
                InboundAction::Proxy
            }
        },
        None => InboundAction::Drop,
    }
}

/// The TLS server name: the configured one, else the host part of the server address (before
/// the first `:`).
pub open spec fn server_name_of(tls: ClientTlsConfig, server_addr: Seq<char>) -> Seq<char> {
    if tls.server_name@.len() > 0 {
        tls.server_name@
    } else {
        before_char(server_addr, ':')
    }
}

/// Picks the name for TLS SNI and certificate checks.
pub fn tls_server_name(tls: &ClientTlsConfig, server_addr: &str) -> (r: String)
    ensures
        r@ == server_name_of(*tls, server_addr@),
{
    if tls.server_name.as_str().unicode_len() > 0 {
        tls.server_name.clone()
    } else {
        let k = find_char(server_addr, ':', 0);
        assert(server_addr@.subrange(0, server_addr@.len() as int) =~= server_addr@);
        server_addr.substring_char(0, k).to_string()
    }
}

/// Whether rustls accepts `name` as a server name (a DNS name or an IP address).
pub uninterp spec fn valid_server_name(name: Seq<char>) -> bool;

/// `ServerName::try_from(String)` of rustls: whether it accepts the name. The result is
/// [`valid_server_name`] of the name; what it accepts is rustls's own DNS-name and IP-address
/// grammar, left unstated here.
#[verifier::external_body]
fn server_name_accepted(name: &str) -> (r: bool)
    ensures
        r == valid_server_name(name@),
{
    tokio_rustls::rustls::pki_types::ServerName::try_from(name.to_string()).is_ok()
}

/// The message for a server name that rustls refuses.
pub open spec fn bad_server_name_msg(name: Seq<char>) -> Seq<char> {
    "Invalid TLS server name '"@ + name
        + "'. If connecting by IP, use --tls-server-name to specify the domain."@
}

/// What the resolution of server name `name` gives, once rustls has answered `accepted`: the
/// name itself, or the error that suggests `--tls-server-name`.
pub fn server_name_outcome(name: String, accepted: bool) -> (r: Result<String, String>)
    ensures
        accepted ==> (r matches Ok(n) && n@ == name@),
        !accepted ==> (r matches Err(m) && m@ == bad_server_name_msg(name@)),
{
    if accepted {
        Ok(name)
    } else {
        let mut m = concat("Invalid TLS server name '", name.as_str());
        m.append("'. If connecting by IP, use --tls-server-name to specify the domain.");
        Err(m)
    }
}

/// Resolves the server name for TLS: [`tls_server_name`]'s choice, when rustls accepts it as a
/// DNS name or an IP address; otherwise an error that suggests `--tls-server-name`.
pub fn resolve_server_name(tls: &ClientTlsConfig, server_addr: &str) -> (r: Result<String, String>)
    ensures
        valid_server_name(server_name_of(*tls, server_addr@)) ==> (r matches Ok(n) && n@ == server_name_of(
            *tls,
            server_addr@,
        )),
        !valid_server_name(server_name_of(*tls, server_addr@)) ==> (r matches Err(m) && m@
            == bad_server_name_msg(server_name_of(*tls, server_addr@))),
{
    let name = tls_server_name(tls, server_addr);
    let accepted = server_name_accepted(name.as_str());
    server_name_outcome(name, accepted)
}

/// Longest wait between reconnection attempts of a managed tunnel, in seconds.
pub const MAX_BACKOFF_SECS: u64 = 30;

/// The wait after `current`: twice as long, but at most `max`.
pub open spec fn backoff_after(current: u64, max: u64) -> u64 {
    if 2 * current <= max {
        (2 * current) as u64
    } else {
        max
    }
}

/// The delay before the next attempt after a session: a session that ended cleanly resets the
/// delay to one second; a failed one keeps the current delay.
pub fn delay_after_session(ended_cleanly: bool, current: u64) -> (r: u64)
    ensures
        r == if ended_cleanly {
            1
        } else {
            current
        },
{
    if ended_cleanly {
        1
    } else {
        current
    }
}

/// Starting from one second, the delays double up to the limit and stay there: each delay lies
/// between one second and the limit, and never shrinks.
pub proof fn law_backoff_bounded(current: u64, max: u64)
    requires
        1 <= current <= max,
    ensures
        1 <= backoff_after(current, max) <= max,
        current <= backoff_after(current, max),
{
}

/// What the supervisor of a tunnel does after a session ended.
#[derive(Debug, Clone, Copy, PartialEq, Eq, Structural)]
pub enum ReconnectAction {
    /// Report `Stopped` and start no further session.
    Stop,
    /// Report `Connecting` and wait `wait` seconds (a cancel during the wait reports `Stopped`
    /// and ends the supervision); then start the next session, after which the delay starts
    /// from `next`.
    Retry { wait: u64, next: u64 },
}

/// The supervisor's step after a session, with the current delay `backoff` and the limit
/// `max`: stop when cancelled; otherwise wait one second after a session that ended cleanly,
/// else `backoff`, and double that wait, up to the limit, for the next time.
pub open spec fn reconnect_of(backoff: u64, ended_cleanly: bool, cancelled: bool, max: u64) -> ReconnectAction {
    if cancelled {
        ReconnectAction::Stop
    } else {
        let wait = if ended_cleanly {
            1u64
        } else {
            backoff
        };
        ReconnectAction::Retry { wait, next: backoff_after(wait, max) }
    }
}

/// The status a tunnel reports when a session ended: `Stopped` after a clean end, the error's
/// message after a failure.
pub open spec fn status_after(error: Option<String>) -> TunnelStatus {
    match error {
        Some(m) => TunnelStatus::Error { message: m },
        None => TunnelStatus::Stopped,
    }
}

/// Decides what follows a session that ended with `error` (`None`: cleanly): the status to
/// report, and whether to stop or to wait and reconnect. `cancelled` says whether the tunnel
/// was cancelled, or reconnecting is off.
pub fn session_ended(error: Option<String>, backoff: u64, cancelled: bool, max: u64) -> (r: (
    TunnelStatus,
    ReconnectAction,
))
    ensures
        r.0 == status_after(error),
        r.1 == reconnect_of(backoff, error is None, cancelled, max),
{
    let clean = error.is_none();
    let status = match error {
        Some(m) => TunnelStatus::Error { message: m },
        None => TunnelStatus::Stopped,
    };
    if cancelled {
        return (status, ReconnectAction::Stop);
    }
    let wait = delay_after_session(clean, backoff);
    let next = if wait <= max / 2 {
        wait * 2
    } else {
        max
    };
    (status, ReconnectAction::Retry { wait, next })
}

/// A cancelled tunnel stops: no further session starts, whatever the last one did.
pub proof fn law_cancel_stops(backoff: u64, ended_cleanly: bool, max: u64)
    ensures
        reconnect_of(backoff, ended_cleanly, true, max) == ReconnectAction::Stop,
{
}

/// After a clean session the next attempt waits one second.
pub proof fn law_clean_session_resets(backoff: u64, max: u64)
    ensures
        reconnect_of(backoff, true, false, max) matches ReconnectAction::Retry { wait, .. } && wait == 1,
{
}

/// The delay before the `k`-th reconnection when every session fails, starting at one second.
pub open spec fn backoff_seq(k: nat, max: u64) -> u64
    decreases k,
{
    if k == 0 {
        1
    } else {
        backoff_after(backoff_seq((k - 1) as nat, max), max)
    }
}

/// While sessions fail, the delays go 1, 2, 4, ... seconds until they reach the limit, and then
/// stay at the limit: the `k`-th delay is `2^k` or the limit, whichever is smaller.
pub proof fn law_backoff_doubles_to_limit(k: nat, max: u64)
    requires
        max >= 1,
    ensures
        backoff_seq(k, max) == if vstd::arithmetic::power2::pow2(k) <= max {
            vstd::arithmetic::power2::pow2(k)
        } else {
            max as nat
        },
    decreases k,
{
    if k == 0 {
        vstd::arithmetic::power::lemma_pow0(2);
    } else {
        law_backoff_doubles_to_limit((k - 1) as nat, max);
        vstd::arithmetic::power2::lemma_pow2_unfold(k);
    }
}

/// While sessions keep failing and the tunnel is not cancelled, the supervisor waits the
/// delays of [`backoff_seq`] in turn, 1, 2, 4, ... seconds up to the limit: the step after
/// the `k`-th wait waits the `k`-th delay and carries the `k+1`-th on.
pub proof fn law_failing_sessions_follow_backoff(k: nat, max: u64)
    ensures
        reconnect_of(backoff_seq(k, max), false, false, max) == (ReconnectAction::Retry {
            wait: backoff_seq(k, max),
            next: backoff_seq(k + 1, max),
        }),
{
}

} // verus!
