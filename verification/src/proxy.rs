//! Routing of public HTTP requests to tunnel clients.
use vstd::prelude::*;
use crate::server_config::RoutingMode;
use crate::metrics::{Metrics, RateLimiter, rate_checked, wrap_dec, wrap_inc};
use crate::server::Registry;
use crate::text::{
    lemma_index_of, before_char, concat, contains_str, decimal, decimal_string, ends_with, find_char, index_of,
    join, join_strings, lemma_index_of_props, listed, opt_str_view, strip_suffix,
    trim_start_char, trim_start_matches_char, views,
};

verus! {

/// Where a request goes: the client ID and the path to forward. In path mode,
/// `/<client_id>/rest` goes to `<client_id>` with path `/rest`; in subdomain mode,
/// `<client_id>.<domain>[:port]` goes to `<client_id>` with the path unchanged.
pub open spec fn routing_of(
    path: Seq<char>,
    host: Option<Seq<char>>,
    mode: RoutingMode,
    domain: Option<Seq<char>>,
) -> Option<(Seq<char>, Seq<char>)> {
    match mode {
        RoutingMode::Path => {
            let t = trim_start_char(path, '/');
            let i = index_of(t, '/');
            let id = t.subrange(0, i as int);
            if id.len() == 0 {
                None
            } else {
                let rest = if i < t.len() {
                    t.subrange(i + 1 as int, t.len() as int)
                } else {
                    Seq::empty()
                };
                Some((id, seq!['/'] + rest))
            }
        },
        RoutingMode::Subdomain => {
            match (host, domain) {
                (Some(h), Some(d)) => {
                    let hn = before_char(h, ':');
                    let suffix = seq!['.'] + d;
                    if ends_with(hn, suffix) {
                        Some((hn.subrange(0, hn.len() - suffix.len()), path))
                    } else {
                        None
                    }
                },
                _ => None,
            }
        },
    }
}

/// Extracts the client ID and the forwarded path of a request with URI path `path` and `Host`
/// header `host`.
pub fn extract_routing(path: &str, host: Option<&str>, mode: &RoutingMode, domain: Option<&str>) -> (r: Option<(String, String)>)
    ensures
        match r {
            Some((id, p)) => routing_of(path@, opt_str_view(host), *mode, opt_str_view(domain)) == Some((id@, p@)),
            None => routing_of(path@, opt_str_view(host), *mode, opt_str_view(domain)) is None,
        },
{
    match mode {
        RoutingMode::Path => {
            let t = trim_start_matches_char(path, '/');
            let n = t.unicode_len();
            let i = find_char(t, '/', 0);
            assert(t@.subrange(0, n as int) =~= t@);
            if i == 0 {
                return None;
            }
            let id = t.substring_char(0, i);
            let rest = if i < n {
                t.substring_char(i + 1, n)
            } else {
                t.substring_char(n, n)
            };
            let fwd = concat("/", rest);
            proof {
                reveal_strlit("/");
                assert(fwd@ =~= seq!['/'] + rest@);
                if i == n {
                    assert(rest@ =~= Seq::<char>::empty());
                }
            }
            Some((id.to_string(), fwd))
        },
        RoutingMode::Subdomain => {
            let (h, d) = match (host, domain) {
                (Some(h), Some(d)) => (h, d),
                _ => return None,
            };
            let k = find_char(h, ':', 0);
            assert(h@.subrange(0, h@.len() as int) =~= h@);
            let hn = h.substring_char(0, k);
            let suffix = concat(".", d);
            proof {
                reveal_strlit(".");
                assert(suffix@ =~= seq!['.'] + d@);
            }
            match strip_suffix(hn, suffix.as_str()) {
                Some(id) => Some((id.to_string(), path.to_string())),
                None => None,
            }
        },
    }
}

/// The JSON body of an error reply: `{"error":"<msg>","status":<status>}`. The message is
/// written as it is, without escaping.
pub open spec fn error_body(status: u16, msg: Seq<char>) -> Seq<char> {
    "{\"error\":\""@ + msg + "\",\"status\":"@ + decimal(status as nat) + "}"@
}

/// Builds the body of an error reply.
pub fn error_response_body(status: u16, msg: &str) -> (r: String)
    ensures
        r@ == error_body(status, msg@),
{
    let mut b = concat("{\"error\":\"", msg);
    b.append("\",\"status\":");
    let code = decimal_string(status as u64);
    b.append(code.as_str());
    b.append("}");
    b
}

/// The request target forwarded to the client: the rewritten path, with the query of the incoming request.
pub open spec fn forwarded_target(path: Seq<char>, query: Option<Seq<char>>) -> Seq<char> {
    match query {
        Some(q) => path + seq!['?'] + q,
        None => path,
    }
}

/// Builds the request target forwarded to the client.
pub fn forwarded_uri(path: &str, query: Option<&str>) -> (r: String)
    ensures
        r@ == forwarded_target(path@, opt_str_view(query)),
{
    match query {
        Some(q) => {
            let mut u = concat(path, "?");
            u.append(q);
            proof {
                reveal_strlit("?");
            }
            assert(u@ =~= path@ + seq!['?'] + q@);
            u
        },
        None => path.to_string(),
    }
}


/// What to do with a public request.
#[derive(Debug)]
pub enum ProxyRoute {
    /// Answer at once with this status and error body.
    Reply { status: u16, body: String },
    /// Open a stream to `client_id` and forward the request with this path.
    Forward { client_id: String, path: String },
}

/// `r` is a reply with `status` and the error body of `msg`.
pub open spec fn is_reply(r: ProxyRoute, status: u16, msg: Seq<char>) -> bool {
    r matches ProxyRoute::Reply { status: s, body } && s == status && body@ == error_body(status, msg)
}

/// The message that lists the connected tunnels when a request names none.
pub open spec fn available_msg(ids: Seq<Seq<char>>) -> Seq<char> {
    "Available tunnels: "@ + join(ids, ", "@) + ". Use /<tunnel_name>/your/path to route."@
}

/// The message for a tunnel that is not connected.
pub open spec fn offline_msg(id: Seq<char>) -> Seq<char> {
    "Tunnel '"@ + id + "' not found or offline"@
}

/// What a routed request to `id` with path `p` becomes, given the rate limiter's answer `pass`.
pub open spec fn routed_outcome(r: ProxyRoute, id: Seq<char>, p: Seq<char>, ids: Seq<Seq<char>>, pass: bool) -> bool {
    if !pass {
        is_reply(r, 429, "Rate limit exceeded"@)
    } else if !ids.contains(id) {
        is_reply(r, 502, offline_msg(id))
    } else {
        r matches ProxyRoute::Forward { client_id, path } && client_id@ == id && path@ == p
    }
}

/// A routed request to `id` with path `p` checked the rate limiter at some time, taking its
/// table from `before` to `after`, and became `r` as [`routed_outcome`] says.
pub open spec fn limited_route(
    before: Map<Seq<char>, (u128, u32)>,
    after: Map<Seq<char>, (u128, u32)>,
    max: u32,
    id: Seq<char>,
    p: Seq<char>,
    ids: Seq<Seq<char>>,
    r: ProxyRoute,
) -> bool {
    exists|pass: bool, now: u128|
        #[trigger] rate_checked(before, after, id, now, max, pass) && routed_outcome(r, id, p, ids, pass)
}

/// Decides a public request with URI path `path` and `Host` header `host`, given the connected
/// clients. Every request is counted. A request that names no client gets 503 when no client is
/// connected and 404 with the list of tunnels otherwise. A routed request passes the rate
/// limiter under its client ID (429 when refused), then goes to its client if that is connected
/// (502 otherwise); a forwarded request counts as an active connection, and as a request and an
/// open stream of its client, until [`finish_stream`] or [`forward_failed`] ends it.
pub fn route_request<H>(
    path: &str,
    host: Option<&str>,
    mode: &RoutingMode,
    domain: Option<&str>,
    registry: &mut Registry<H>,
    limiter: &mut RateLimiter,
    metrics: &mut Metrics,
) -> (r: ProxyRoute)
    ensures
        final(metrics).total_requests == wrap_inc(old(metrics).total_requests),
        final(metrics).rate_limited == if is_reply(r, 429, "Rate limit exceeded"@) {
            wrap_inc(old(metrics).rate_limited)
        } else {
            old(metrics).rate_limited
        },
        final(metrics).active_connections == if r is Forward {
            wrap_inc(old(metrics).active_connections)
        } else {
            old(metrics).active_connections
        },
        final(metrics).total_connections == old(metrics).total_connections,
        final(metrics).failed_auth == old(metrics).failed_auth,
        final(metrics).total_bytes_in == old(metrics).total_bytes_in,
        final(metrics).total_bytes_out == old(metrics).total_bytes_out,
        final(metrics).started_at == old(metrics).started_at,
        final(limiter).max() == old(limiter).max(),
        final(registry).ids() == old(registry).ids(),
        match r {
            ProxyRoute::Forward { client_id, .. } => stream_opened(old(registry), final(registry), client_id@),
            ProxyRoute::Reply { .. } => forall|x: Seq<char>| #[trigger] final(registry).entry_of(x) == old(registry).entry_of(x),
        },
        match routing_of(path@, opt_str_view(host), *mode, opt_str_view(domain)) {
            None => {
                &&& final(limiter).windows() == old(limiter).windows()
                &&& old(registry).ids().len() == 0 ==> is_reply(r, 503, "No tunnel clients connected"@)
                &&& old(registry).ids().len() > 0 ==> is_reply(r, 404, available_msg(old(registry).ids()))
            },
            Some((id, p)) => limited_route(old(limiter).windows(), final(limiter).windows(), old(limiter).max(), id, p, old(registry).ids(), r),
        },
{
    metrics.record_request();
    let (client_id, fwd_path) = match extract_routing(path, host, mode, domain) {
        Some(route) => route,
        None => {
            if registry.count() == 0 {
                let body = error_response_body(503, "No tunnel clients connected");
                return ProxyRoute::Reply { status: 503, body };
            }
            let connected = registry.client_ids();
            proof {
                assert(views(connected@) =~= registry.ids());
            }
            let mut msg = concat("Available tunnels: ", join_strings(&connected, ", ").as_str());
            msg.append(". Use /<tunnel_name>/your/path to route.");
            let body = error_response_body(404, msg.as_str());
            return ProxyRoute::Reply { status: 404, body };
        },
    };
    let ghost before = limiter.windows();
    let pass = limiter.check(client_id.as_str());
    let ghost w = choose|w: u128| rate_checked(before, limiter.windows(), client_id@, w, limiter.max(), pass);
    let ghost cid = client_id@;
    let ghost fp = fwd_path@;
    let r = if !pass {
        metrics.record_rate_limited();
        let body = error_response_body(429, "Rate limit exceeded");
        ProxyRoute::Reply { status: 429, body }
    } else if !registry.contains(client_id.as_str()) {
        let mut msg = concat("Tunnel '", client_id.as_str());
        msg.append("' not found or offline");
        let body = error_response_body(502, msg.as_str());
        ProxyRoute::Reply { status: 502, body }
    } else {
        registry.record_forward(client_id.as_str());
        metrics.stream_opened();
        ProxyRoute::Forward { client_id, path: fwd_path }
    };
    assert(rate_checked(old(limiter).windows(), limiter.windows(), cid, w, old(limiter).max(), pass)
        && routed_outcome(r, cid, fp, old(registry).ids(), pass));
    r
}

/// Ends a forwarded request that completed: its stream no longer counts as an active
/// connection, nor as an open stream of its client.
pub fn finish_stream<H>(client_id: &str, metrics: &mut Metrics, registry: &mut Registry<H>)
    ensures
        final(metrics).active_connections == wrap_dec(old(metrics).active_connections),
        final(metrics).total_requests == old(metrics).total_requests,
        final(metrics).rate_limited == old(metrics).rate_limited,
        final(metrics).total_connections == old(metrics).total_connections,
        final(metrics).failed_auth == old(metrics).failed_auth,
        final(metrics).total_bytes_in == old(metrics).total_bytes_in,
        final(metrics).total_bytes_out == old(metrics).total_bytes_out,
        final(metrics).started_at == old(metrics).started_at,
        final(registry).ids() == old(registry).ids(),
        stream_ended(old(registry), final(registry), client_id@),
{
    metrics.stream_closed();
    registry.record_stream_end(client_id);
}

/// The registry after a request was forwarded to `id`: its client, which is connected, has one
/// request and one open stream more; nothing else changes.
pub open spec fn stream_opened<H>(before: &Registry<H>, after: &Registry<H>, id: Seq<char>) -> bool {
    &&& before.counts_of(id) matches Some((n, a)) && after.counts_of(id) == Some((wrap_inc(n), wrap_inc(a)))
    &&& after.handle_of(id) == before.handle_of(id)
    &&& forall|other: Seq<char>| other != id ==> #[trigger] after.entry_of(other) == before.entry_of(other)
}

/// The registry after the end of a stream to `id`: its client, if still connected, has one open
/// stream fewer; nothing else changes.
pub open spec fn stream_ended<H>(before: &Registry<H>, after: &Registry<H>, id: Seq<char>) -> bool {
    &&& forall|other: Seq<char>| other != id ==> #[trigger] after.entry_of(other) == before.entry_of(other)
    &&& before.counts_of(id) matches Some((n, a)) ==> after.counts_of(id) == Some((n, wrap_dec(a)))
        && after.handle_of(id) == before.handle_of(id)
    &&& before.counts_of(id) is None ==> after.entry_of(id) is None
}

/// Where forwarding a request to a client failed.
#[derive(Debug, Clone, Copy, PartialEq, Eq, Structural)]
pub enum ForwardFailure {
    /// No stream could be opened to the client.
    OpenStream,
    /// The HTTP handshake over the stream failed.
    Handshake,
    /// The forwarded request could not be built.
    BuildRequest,
    /// The client did not answer.
    Send,
}

/// The status and message of a forwarding failure.
pub open spec fn failure_reply(failure: ForwardFailure, id: Seq<char>) -> (u16, Seq<char>) {
    match failure {
        ForwardFailure::OpenStream => (502, "Tunnel '"@ + id + "' connection error"@),
        ForwardFailure::Handshake => (502, "Tunnel HTTP handshake failed"@),
        ForwardFailure::BuildRequest => (500, "Request forwarding error"@),
        ForwardFailure::Send => (502, "Tunnel '"@ + id + "' did not respond"@),
    }
}

/// Ends a forwarded request that failed: the stream no longer counts as active, nor as an open
/// stream of its client, and the reply is the status with its error body.
pub fn forward_failed<H>(failure: ForwardFailure, client_id: &str, metrics: &mut Metrics, registry: &mut Registry<H>) -> (r: (u16, String))
    ensures
        r.0 == failure_reply(failure, client_id@).0,
        r.1@ == error_body(r.0, failure_reply(failure, client_id@).1),
        final(metrics).active_connections == wrap_dec(old(metrics).active_connections),
        final(metrics).total_requests == old(metrics).total_requests,
        final(metrics).rate_limited == old(metrics).rate_limited,
        final(metrics).total_connections == old(metrics).total_connections,
        final(metrics).failed_auth == old(metrics).failed_auth,
        final(metrics).total_bytes_in == old(metrics).total_bytes_in,
        final(metrics).total_bytes_out == old(metrics).total_bytes_out,
        final(metrics).started_at == old(metrics).started_at,
        final(registry).ids() == old(registry).ids(),
        stream_ended(old(registry), final(registry), client_id@),
{
    finish_stream(client_id, metrics, registry);
    match failure {
        ForwardFailure::OpenStream => {
            let mut m = concat("Tunnel '", client_id);
            m.append("' connection error");
            (502, error_response_body(502, m.as_str()))
        },
        ForwardFailure::Handshake => (502, error_response_body(502, "Tunnel HTTP handshake failed")),
        ForwardFailure::BuildRequest => (500, error_response_body(500, "Request forwarding error")),
        ForwardFailure::Send => {
            let mut m = concat("Tunnel '", client_id);
            m.append("' did not respond");
            (502, error_response_body(502, m.as_str()))
        },
    }
}

/// A routed request leaves the counts of open streams as they were once it ends: forwarding
/// ([`route_request`]) adds one to the server's active connections and to its client's open
/// streams and requests, and its end, completed ([`finish_stream`]) or failed
/// ([`forward_failed`]), takes the open stream away again. The client keeps one request more;
/// every other client is as it was.
pub proof fn law_routed_request_balances_streams<H>(
    m0: Metrics,
    m1: Metrics,
    m2: Metrics,
    r0: &Registry<H>,
    r1: &Registry<H>,
    r2: &Registry<H>,
    id: Seq<char>,
)
    requires
        m1.active_connections == wrap_inc(m0.active_connections),
        m2.active_connections == wrap_dec(m1.active_connections),
        stream_opened(r0, r1, id),
        stream_ended(r1, r2, id),
    ensures
        m2.active_connections == m0.active_connections,
        r0.counts_of(id) matches Some((n, a)) && r2.counts_of(id) == Some((wrap_inc(n), a)),
        r2.handle_of(id) == r0.handle_of(id),
        forall|x: Seq<char>| x != id ==> #[trigger] r2.entry_of(x) == r0.entry_of(x),
{
    assert forall|x: Seq<char>| x != id implies #[trigger] r2.entry_of(x) == r0.entry_of(x) by {
        assert(r2.entry_of(x) == r1.entry_of(x));
        assert(r1.entry_of(x) == r0.entry_of(x));
    }
}


/// In path mode, the path `/<id>/<rest>` routes to client `id` with path `/<rest>`, for any
/// client ID that is not empty and holds no `/`.
pub proof fn law_path_routing_recovers_client(id: Seq<char>, rest: Seq<char>, host: Option<Seq<char>>, domain: Option<Seq<char>>)
    requires
        id.len() > 0,
        !id.contains('/'),
    ensures
        routing_of(seq!['/'] + id + seq!['/'] + rest, host, RoutingMode::Path, domain) == Some((id, seq!['/'] + rest)),
        routing_of(seq!['/'] + id, host, RoutingMode::Path, domain) == Some((id, seq!['/'])),
{
    let p = seq!['/'] + id + seq!['/'] + rest;
    let t = id + seq!['/'] + rest;
    assert(p.drop_first() =~= t);
    assert(t[0] == id[0]);
    assert(id[0] != '/') by {
        if id[0] == '/' {
            assert(id.contains('/'));
        }
    }
    assert(trim_start_char(t, '/') == t);
    assert(trim_start_char(p, '/') == trim_start_char(t, '/'));
    assert forall|j: int| 0 <= j < id.len() implies t[j] != '/' by {
        assert(t[j] == id[j]);
        if id[j] == '/' {
            assert(id.contains('/'));
        }
    }
    lemma_index_of(t, '/', id.len() as int);
    assert(t.subrange(0, id.len() as int) =~= id);
    assert(t.subrange(id.len() + 1 as int, t.len() as int) =~= rest);
    let p2 = seq!['/'] + id;
    assert(p2.drop_first() =~= id);
    assert(trim_start_char(id, '/') == id);
    assert(trim_start_char(p2, '/') == trim_start_char(id, '/'));
    assert forall|j: int| 0 <= j < id.len() implies id[j] != '/' by {
        if id[j] == '/' {
            assert(id.contains('/'));
        }
    }
    lemma_index_of(id, '/', id.len() as int);
    assert(id.subrange(0, id.len() as int) =~= id);
    assert(seq!['/'] + Seq::<char>::empty() =~= seq!['/']);
}

/// In subdomain mode, the host `<id>.<domain>`, with or without a port, routes to client `id`
/// with the path unchanged, for a client ID and a domain without `:`.
pub proof fn law_subdomain_routing_recovers_client(id: Seq<char>, domain: Seq<char>, port: Seq<char>, path: Seq<char>)
    requires
        !id.contains(':'),
        !domain.contains(':'),
    ensures
        routing_of(path, Some(id + seq!['.'] + domain), RoutingMode::Subdomain, Some(domain)) == Some((id, path)),
        routing_of(path, Some(id + seq!['.'] + domain + seq![':'] + port), RoutingMode::Subdomain, Some(domain))
            == Some((id, path)),
{
    let hn = id + seq!['.'] + domain;
    let suffix = seq!['.'] + domain;
    assert forall|j: int| 0 <= j < hn.len() implies hn[j] != ':' by {
        if j < id.len() {
            assert(hn[j] == id[j]);
            if id[j] == ':' {
                assert(id.contains(':'));
            }
        } else if j > id.len() {
            assert(hn[j] == domain[j - id.len() - 1]);
            if domain[j - id.len() - 1] == ':' {
                assert(domain.contains(':'));
            }
        }
    }
    lemma_index_of(hn, ':', hn.len() as int);
    assert(hn.subrange(0, hn.len() as int) =~= hn);
    assert(hn.subrange(hn.len() - suffix.len(), hn.len() as int) =~= suffix);
    assert(hn.subrange(0, hn.len() - suffix.len()) =~= id);
    let h2 = hn + seq![':'] + port;
    assert forall|j: int| 0 <= j < hn.len() implies h2[j] != ':' by {
        assert(h2[j] == hn[j]);
    }
    lemma_index_of(h2, ':', hn.len() as int);
    assert(h2.subrange(0, hn.len() as int) =~= hn);
}

} // verus!
