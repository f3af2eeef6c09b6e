//! Decisions of the server's control channel and public listener.
use vstd::prelude::*;
use crate::server_config::{ServerConfig, token_accepted};
use crate::metrics::{Metrics, wrap_dec, wrap_inc};
use crate::text::{before_char, concat, find_char, opt_view, str_eq};

verus! {

/// The server's answer to a client's authentication request.
#[derive(Debug)]
pub struct AuthReply {
    pub success: bool,
    pub message: String,
    /// The public HTTP port, on success.
    pub public_port: Option<u16>,
    /// The route (client ID) the client was given, on success.
    pub assigned_route: Option<String>,
}

/// The configured domain, or nothing.
pub open spec fn domain_text(config: ServerConfig) -> Seq<char> {
    match config.domain {
        Some(d) => d@,
        None => Seq::empty(),
    }
}

/// The separator in the success message: ` — ` (an em dash between spaces).
pub open spec fn ok_prefix() -> Seq<char> {
    "OK \u{2014} "@
}

/// Answers a client that authenticates as `client_id` with `token`: refused with `Invalid token`
/// unless the token is accepted, which counts as a failed authentication; else accepted with the
/// message `OK — <client_id>.<domain>`, the public port and the client ID as its route.
pub fn auth_reply(config: &ServerConfig, client_id: &str, token: &str, metrics: &mut Metrics) -> (r: AuthReply)
    ensures
        r.success == token_accepted(config.auth.tokens@, token@),
        final(metrics).failed_auth == if r.success {
            old(metrics).failed_auth
        } else {
            wrap_inc(old(metrics).failed_auth)
        },
        final(metrics).total_requests == old(metrics).total_requests,
        final(metrics).rate_limited == old(metrics).rate_limited,
        final(metrics).active_connections == old(metrics).active_connections,
        final(metrics).total_connections == old(metrics).total_connections,
        !r.success ==> r.message@ == "Invalid token"@ && r.public_port is None && r.assigned_route is None,
        r.success ==> r.message@ == ok_prefix() + client_id@ + "."@ + domain_text(*config)
            && r.public_port == Some(config.public_port) && opt_view(r.assigned_route) == Some(client_id@),
        final(metrics).total_bytes_in == old(metrics).total_bytes_in,
        final(metrics).total_bytes_out == old(metrics).total_bytes_out,
        final(metrics).started_at == old(metrics).started_at,
{
    if !config.validate_token(token) {
        metrics.record_failed_auth();
        return AuthReply {
            success: false,
            message: "Invalid token".to_string(),
            public_port: None,
            assigned_route: None,
        };
    }
    let mut message = concat("OK \u{2014} ", client_id);
    message.append(".");
    match &config.domain {
        Some(d) => message.append(d.as_str()),
        None => {},
    }
    proof {
        if config.domain is None {
            assert(message@ =~= ok_prefix() + client_id@ + "."@ + domain_text(*config));
        }
    }
    AuthReply {
        success: true,
        message,
        public_port: Some(config.public_port),
        assigned_route: Some(client_id.to_string()),
    }
}

/// Whether a request with `Host` header `host` is for the dashboard, `dashboard.<domain>`
/// (any port).
pub fn is_dashboard_host(host: Option<&str>, domain: &str) -> (r: bool)
    ensures
        r == (before_char(match host {
            Some(h) => h@,
            None => Seq::empty(),
        }, ':') == "dashboard."@ + domain@),
{
    let h = match host {
        Some(h) => h,
        None => "",
    };
    proof {
        reveal_strlit("");
        if host is None {
            assert(h@ =~= Seq::<char>::empty());
        }
    }
    let k = find_char(h, ':', 0);
    assert(h@.subrange(0, h@.len() as int) =~= h@);
    let host_no_port = h.substring_char(0, k);
    let dashboard_host = concat("dashboard.", domain);
    str_eq(host_no_port, dashboard_host.as_str())
}

/// Why the server cannot start.
#[derive(Debug)]
pub enum ServerError {
    /// No domain is configured.
    DomainRequired,
}

impl ServerError {
    /// The error's message.
    pub fn message(&self) -> (r: String)
        ensures
            r@ == "domain is required \u{2014} run `zo-tunnel-server setup --domain <domain>` first"@,
    {
        "domain is required \u{2014} run `zo-tunnel-server setup --domain <domain>` first".to_string()
    }
}

/// The domain the server runs under: the configured one, if it is not empty.
pub fn require_domain(config: &ServerConfig) -> (r: Result<String, ServerError>)
    ensures
        domain_text(*config).len() == 0 ==> r is Err,
        domain_text(*config).len() > 0 ==> (r matches Ok(d) && d@ == domain_text(*config)),
{
    match &config.domain {
        Some(d) => {
            if d.as_str().unicode_len() == 0 {
                Err(ServerError::DomainRequired)
            } else {
                Ok(d.clone())
            }
        },
        None => Err(ServerError::DomainRequired),
    }
}


/// A connected tunnel client: its ID, the handle that reaches it, and its counts.
pub struct ClientEntry<H> {
    pub client_id: String,
    pub handle: H,
    /// Requests forwarded to the client (wrapping at `u64::MAX`).
    pub requests: u64,
    /// Streams to the client that are open now (wrapping like an atomic counter).
    pub active_streams: u64,
}

/// The connected tunnel clients, by client ID, each with the handle that reaches it and its
/// counts. No two share a client ID.
pub struct Registry<H> {
    clients: Vec<ClientEntry<H>>,
}

/// The client IDs of registry entries.
pub open spec fn ids_of<H>(s: Seq<ClientEntry<H>>) -> Seq<Seq<char>> {
    s.map_values(|e: ClientEntry<H>| e.client_id@)
}

/// No client ID occurs twice.
pub open spec fn unique_ids(ids: Seq<Seq<char>>) -> bool {
    forall|i: int, j: int| 0 <= i < ids.len() && 0 <= j < ids.len() && i != j ==> ids[i] != ids[j]
}

/// Entry `i` of `s` with its counts replaced.
pub open spec fn with_counts<H>(s: Seq<ClientEntry<H>>, i: int, requests: u64, active: u64) -> Seq<ClientEntry<H>> {
    s.update(i, ClientEntry { client_id: s[i].client_id, handle: s[i].handle, requests, active_streams: active })
}

impl<H> Registry<H> {
    /// No client ID occurs twice.
    #[verifier::type_invariant]
    spec fn ids_unique(self) -> bool {
        unique_ids(ids_of(self.clients@))
    }

    /// The client IDs, in the order the clients registered.
    pub closed spec fn ids(&self) -> Seq<Seq<char>> {
        ids_of(self.clients@)
    }

    /// The entry of client ID `id`, if any.
    pub closed spec fn entry_of(&self, id: Seq<char>) -> Option<ClientEntry<H>> {
        if self.ids().contains(id) {
            Some(self.clients@[self.ids().index_of(id)])
        } else {
            None
        }
    }

    /// The handle registered for client ID `id`, if any.
    pub open spec fn handle_of(&self, id: Seq<char>) -> Option<H> {
        match self.entry_of(id) {
            Some(e) => Some(e.handle),
            None => None,
        }
    }

    /// The counts (requests, open streams) of client ID `id`, if it is connected.
    pub open spec fn counts_of(&self, id: Seq<char>) -> Option<(u64, u64)> {
        match self.entry_of(id) {
            Some(e) => Some((e.requests, e.active_streams)),
            None => None,
        }
    }

    /// A registry with no clients.
    pub fn new() -> (r: Self)
        ensures
            r.ids().len() == 0,
    {
        let r = Registry { clients: Vec::new() };
        assert(ids_of(r.clients@) =~= Seq::<Seq<char>>::empty());
        r
    }

    /// The number of connected clients.
    pub fn count(&self) -> (r: usize)
        ensures
            r == self.ids().len(),
    {
        self.clients.len()
    }

    /// Position of client `id`, or the number of clients.
    fn position(&self, id: &str) -> (r: usize)
        ensures
            r <= self.ids().len(),
            r < self.ids().len() <==> self.ids().contains(id@),
            r < self.ids().len() ==> self.ids()[r as int] == id@ && self.ids().index_of(id@) == r,
    {
        proof {
            use_type_invariant(self);
        }
        let mut i: usize = 0;
        while i < self.clients.len()
            invariant
                unique_ids(self.ids()),
                i <= self.clients@.len(),
                forall|j: int| 0 <= j < i ==> (#[trigger] self.ids()[j]) != id@,
            decreases self.clients@.len() - i,
        {
            assert(self.ids()[i as int] == self.clients@[i as int].client_id@);
            if str_eq(self.clients[i].client_id.as_str(), id) {
                proof {
                    assert(self.ids()[i as int] == id@);
                    assert(self.ids().contains(id@));
                    let k = self.ids().index_of(id@);
                    assert(self.ids()[k] == id@);
                }
                return i;
            }
            i = i + 1;
        }
        proof {
            if self.ids().contains(id@) {
                let k = self.ids().index_of(id@);
                assert(self.ids()[k] == id@);
            }
        }
        i
    }

    /// Whether client `id` is connected.
    pub fn contains(&self, id: &str) -> (r: bool)
        ensures
            r == self.ids().contains(id@),
            r == (self.entry_of(id@) is Some),
    {
        self.position(id) < self.clients.len()
    }

    /// The handle of client `id`, if it is connected.
    pub fn get(&self, id: &str) -> (r: Option<&H>)
        ensures
            match r {
                Some(h) => self.handle_of(id@) == Some(*h),
                None => self.handle_of(id@) is None,
            },
    {
        let i = self.position(id);
        if i < self.clients.len() {
            Some(&self.clients[i].handle)
        } else {
            None
        }
    }

    /// Registers client `client_id` with `handle` and zero counts: refused when that client ID
    /// is connected already, leaving the registry as it was.
    pub fn register(&mut self, client_id: String, handle: H) -> (r: Result<(), String>)
        ensures
            old(self).ids().contains(client_id@) ==> (r matches Err(m) && m@ == "client '"@ + client_id@
                + "' is already connected"@) && final(self).ids() == old(self).ids(),
            !old(self).ids().contains(client_id@) ==> r is Ok && final(self).ids() == old(self).ids().push(client_id@)
                && final(self).handle_of(client_id@) == Some(handle) && final(self).counts_of(client_id@) == Some(
                (0u64, 0u64),
            ),
            forall|other: Seq<char>| other != client_id@ ==> #[trigger] final(self).entry_of(other) == old(self).entry_of(other),
    {
        proof {
            use_type_invariant(&*self);
        }
        if self.contains(client_id.as_str()) {
            let mut m = concat("client '", client_id.as_str());
            m.append("' is already connected");
            return Err(m);
        }
        let ghost before = self.ids();
        let ghost old_clients = self.clients@;
        let ghost cid = client_id@;
        let mut v: Vec<ClientEntry<H>> = Vec::new();
        std::mem::swap(&mut v, &mut self.clients);
        v.push(ClientEntry { client_id, handle, requests: 0, active_streams: 0 });
        proof {
            assert(ids_of(v@) =~= before.push(cid));
            let ids = ids_of(v@);
            assert(ids[before.len() as int] == cid);
            assert forall|i: int, j: int| 0 <= i < ids.len() && 0 <= j < ids.len() && i != j implies ids[i] != ids[j] by {
                if i == before.len() {
                    assert(ids[j] == before[j]);
                } else if j == before.len() {
                    assert(ids[i] == before[i]);
                } else {
                    assert(ids[i] == before[i] && ids[j] == before[j]);
                }
            }
            assert(ids.contains(cid));
            let k = ids.index_of(cid);
            assert(ids[k] == cid);
            assert forall|other: Seq<char>| other != cid implies (ids.contains(other) == before.contains(other)) && (
            ids.contains(other) ==> ids.index_of(other) == before.index_of(other)) by {
                if ids.contains(other) {
                    let a = ids.index_of(other);
                    assert(ids[a] == other);
                    assert(a != before.len());
                    assert(before[a] == other);
                    let b = before.index_of(other);
                    assert(before[b] == other);
                    assert(ids[b] == other);
                }
                if before.contains(other) {
                    let b = before.index_of(other);
                    assert(before[b] == other);
                    assert(ids[b] == other);
                }
            }
        }
        self.clients = v;
        Ok(())
    }

    /// Unregisters client `id` and returns its handle, if it was connected.
    pub fn unregister(&mut self, id: &str) -> (r: Option<H>)
        ensures
            r == old(self).handle_of(id@),
            !final(self).ids().contains(id@),
            old(self).ids().contains(id@) ==> final(self).ids() == old(self).ids().remove(old(self).ids().index_of(id@)),
            !old(self).ids().contains(id@) ==> final(self).ids() == old(self).ids(),
            final(self).entry_of(id@) is None,
            forall|other: Seq<char>| other != id@ ==> #[trigger] final(self).entry_of(other) == old(self).entry_of(other),
    {
        proof {
            use_type_invariant(&*self);
        }
        let i = self.position(id);
        if i == self.clients.len() {
            return None;
        }
        let ghost before = self.ids();
        let ghost s = self.clients@;
        let mut v: Vec<ClientEntry<H>> = Vec::new();
        std::mem::swap(&mut v, &mut self.clients);
        let e = v.remove(i);
        proof {
            let after = before.remove(i as int);
            assert(ids_of(v@) =~= after);
            assert forall|a: int, b: int| 0 <= a < after.len() && 0 <= b < after.len() && a != b implies after[a] != after[b] by {
                let a2 = if a < i { a } else { a + 1 };
                let b2 = if b < i { b } else { b + 1 };
                assert(after[a] == before[a2] && after[b] == before[b2]);
            }
            if after.contains(id@) {
                let k = choose|k: int| 0 <= k < after.len() && after[k] == id@;
                let k2 = if k < i { k } else { k + 1 };
                assert(before[k2] == id@);
                assert(before[i as int] == id@);
            }
            assert(v@ =~= s.remove(i as int));
            assert forall|other: Seq<char>| other != id@ implies after.contains(other) == before.contains(other) && (
            before.contains(other) ==> v@[after.index_of(other)] == s[before.index_of(other)]) by {
                if before.contains(other) {
                    let b = before.index_of(other);
                    assert(before[b] == other);
                    assert(b != i);
                    let b2 = if b < i { b } else { b - 1 };
                    assert(after[b2] == other);
                    assert(after.contains(other));
                    let a = after.index_of(other);
                    assert(after[a] == other);
                    assert(a == b2);
                    assert(v@[b2] == s[b]);
                }
                if after.contains(other) {
                    let a = after.index_of(other);
                    assert(after[a] == other);
                    let a2 = if a < i { a } else { a + 1 };
                    assert(before[a2] == other);
                }
            }
        }
        self.clients = v;
        Some(e.handle)
    }

    /// Replaces the counts of entry `i`.
    fn set_counts(&mut self, i: usize, requests: u64, active: u64)
        requires
            i < old(self).ids().len(),
        ensures
            final(self).clients@ == with_counts(old(self).clients@, i as int, requests, active),
    {
        proof {
            use_type_invariant(&*self);
        }
        let ghost s = self.clients@;
        let mut v: Vec<ClientEntry<H>> = Vec::new();
        std::mem::swap(&mut v, &mut self.clients);
        let e = v.remove(i);
        v.insert(i, ClientEntry { client_id: e.client_id, handle: e.handle, requests, active_streams: active });
        proof {
            assert(v@ =~= with_counts(s, i as int, requests, active));
            assert(ids_of(v@) =~= ids_of(s));
        }
        self.clients = v;
    }

    /// Counts a request forwarded to client `id`: one more request and one more open stream.
    /// Nothing changes when `id` is not connected.
    pub fn record_forward(&mut self, id: &str)
        ensures
            final(self).ids() == old(self).ids(),
            forall|other: Seq<char>| other != id@ ==> #[trigger] final(self).entry_of(other) == old(self).entry_of(other),
            old(self).counts_of(id@) matches Some((n, a)) ==> final(self).counts_of(id@) == Some((wrap_inc(n), wrap_inc(a)))
                && final(self).handle_of(id@) == old(self).handle_of(id@),
            old(self).counts_of(id@) is None ==> final(self).entry_of(id@) is None,
    {
        let i = self.position(id);
        if i == self.clients.len() {
            return;
        }
        let n = self.clients[i].requests;
        let a = self.clients[i].active_streams;
        let ghost s = self.clients@;
        self.set_counts(i, if n == u64::MAX { 0 } else { n + 1 }, if a == u64::MAX { 0 } else { a + 1 });
        proof {
            lemma_same_ids_same_entries(s, self.clients@, i as int);
        }
    }

    /// Counts the end of a stream to client `id`: one open stream fewer. Nothing changes when
    /// `id` is not connected.
    pub fn record_stream_end(&mut self, id: &str)
        ensures
            final(self).ids() == old(self).ids(),
            forall|other: Seq<char>| other != id@ ==> #[trigger] final(self).entry_of(other) == old(self).entry_of(other),
            old(self).counts_of(id@) matches Some((n, a)) ==> final(self).counts_of(id@) == Some((n, wrap_dec(a)))
                && final(self).handle_of(id@) == old(self).handle_of(id@),
            old(self).counts_of(id@) is None ==> final(self).entry_of(id@) is None,
    {
        let i = self.position(id);
        if i == self.clients.len() {
            return;
        }
        let n = self.clients[i].requests;
        let a = self.clients[i].active_streams;
        let ghost s = self.clients@;
        self.set_counts(i, n, if a == 0 { u64::MAX } else { a - 1 });
        proof {
            lemma_same_ids_same_entries(s, self.clients@, i as int);
        }
    }

    /// The IDs of the connected clients, in the order they registered.
    pub fn client_ids(&self) -> (r: Vec<String>)
        ensures
            r@.map_values(|s: String| s@) == self.ids(),
    {
        let mut out: Vec<String> = Vec::new();
        let mut i: usize = 0;
        while i < self.clients.len()
            invariant
                i <= self.clients@.len(),
                out@.len() == i,
                forall|j: int| 0 <= j < i ==> (#[trigger] out@[j])@ == self.ids()[j],
            decreases self.clients@.len() - i,
        {
            out.push(self.clients[i].client_id.clone());
            i = i + 1;
        }
        assert(out@.map_values(|s: String| s@) =~= self.ids());
        out
    }

    /// Each connected client with its counts (ID, requests, open streams), in the order they
    /// registered.
    pub fn stats(&self) -> (r: Vec<(String, u64, u64)>)
        ensures
            r@.len() == self.ids().len(),
            forall|j: int| 0 <= j < r@.len() ==> (#[trigger] r@[j]).0@ == self.ids()[j] && self.counts_of(
                self.ids()[j],
            ) == Some((r@[j].1, r@[j].2)),
    {
        proof {
            use_type_invariant(self);
        }
        let mut out: Vec<(String, u64, u64)> = Vec::new();
        let mut i: usize = 0;
        while i < self.clients.len()
            invariant
                unique_ids(self.ids()),
                i <= self.clients@.len(),
                out@.len() == i,
                forall|j: int| 0 <= j < i ==> (#[trigger] out@[j]).0@ == self.ids()[j] && self.counts_of(
                    self.ids()[j],
                ) == Some((out@[j].1, out@[j].2)),
            decreases self.clients@.len() - i,
        {
            let e = &self.clients[i];
            proof {
                let id = self.ids()[i as int];
                assert(self.ids().contains(id));
                let k = self.ids().index_of(id);
                assert(self.ids()[k] == id);
            }
            out.push((e.client_id.clone(), e.requests, e.active_streams));
            i = i + 1;
        }
        out
    }
}

/// Replacing the counts of entry `i` changes no ID and no other entry.
proof fn lemma_same_ids_same_entries<H>(s: Seq<ClientEntry<H>>, t: Seq<ClientEntry<H>>, i: int)
    requires
        0 <= i < s.len(),
        t == with_counts(s, i, t[i].requests, t[i].active_streams),
    ensures
        ids_of(t) == ids_of(s),
{
    assert(ids_of(t) =~= ids_of(s));
}

/// A client that registered is found until it unregisters, and not after.
pub proof fn law_registered_until_unregistered(ids: Seq<Seq<char>>, id: Seq<char>)
    requires
        unique_ids(ids),
        !ids.contains(id),
    ensures
        ids.push(id).contains(id),
        !ids.push(id).remove(ids.push(id).index_of(id)).contains(id),
        ids.push(id).remove(ids.push(id).index_of(id)) == ids,
{
    let t = ids.push(id);
    assert(t[ids.len() as int] == id);
    assert(t.contains(id));
    let k = t.index_of(id);
    assert(t[k] == id);
    if k != ids.len() {
        assert(ids[k] == id);
    }
    assert(t.remove(ids.len() as int) =~= ids);
}
} // verus!
