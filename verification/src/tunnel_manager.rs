//! The client's tunnels: which are configured, which are running, and what the web UI shows
//! of each.
use vstd::prelude::*;
use crate::client::{
    backoff_seq, law_backoff_doubles_to_limit, law_failing_sessions_follow_backoff, reconnect_of, session_ended,
    status_after, ReconnectAction, TunnelStatus, MAX_BACKOFF_SECS,
};
use crate::client_config::{
    ClientTlsConfig, ConfigError, TunnelEntry, TunnelsConfig, entry_with_id, id_index, ids_unique,
    lemma_id_index, lemma_id_index_bound, lemma_id_index_first, position_of, tunnel_added, tunnel_removed,
    tunnel_updated,
};
use crate::clock::{elapsed_nanos, whole_seconds, secs_in, Reading, law_whole_seconds_of_duration};
use crate::text::{concat, opt_view};

verus! {

/// Status of a tunnel as the API reports it.
#[derive(Debug, Clone)]
pub struct TunnelStatusInfo {
    /// `connected`, `connecting`, `error` or `stopped`.
    pub state: String,
    pub route: Option<String>,
    pub connected_since_secs: Option<u64>,
    pub error: Option<String>,
    /// Whether the local service answered a connection attempt.
    pub local_reachable: bool,
}

/// A tunnel as the API lists it.
#[derive(Debug, Clone)]
pub struct TunnelInfo {
    pub id: String,
    pub client_id: String,
    pub local_addr: String,
    pub enabled: bool,
    pub status: TunnelStatusInfo,
}

/// The state name of a status.
pub open spec fn state_name(status: TunnelStatus) -> Seq<char> {
    match status {
        TunnelStatus::Stopped => "stopped"@,
        TunnelStatus::Connecting => "connecting"@,
        TunnelStatus::Connected { .. } => "connected"@,
        TunnelStatus::Error { .. } => "error"@,
    }
}

impl TunnelStatusInfo {
    /// The report of `status`: its state name; the route and the whole seconds since connecting
    /// for a connected tunnel; the message for a failed one.
    pub fn from_status(status: &TunnelStatus, local_reachable: bool) -> (r: Self)
        ensures
            r.state@ == state_name(*status),
            r.local_reachable == local_reachable,
            match *status {
                TunnelStatus::Connected { route, since } => opt_view(r.route) == Some(route@)
                    && r.connected_since_secs is Some && r.error is None && exists|elapsed: Reading|
                    elapsed.base() == since && r.connected_since_secs == Some(
                        #[trigger] secs_in(elapsed.nanos()) as u64,
                    ),
                TunnelStatus::Error { message } => r.route is None && r.connected_since_secs is None
                    && opt_view(r.error) == Some(message@),
                _ => r.route is None && r.connected_since_secs is None && r.error is None,
            },
    {
        match status {
            TunnelStatus::Stopped => TunnelStatusInfo {
                state: "stopped".to_string(),
                route: None,
                connected_since_secs: None,
                error: None,
                local_reachable,
            },
            TunnelStatus::Connecting => TunnelStatusInfo {
                state: "connecting".to_string(),
                route: None,
                connected_since_secs: None,
                error: None,
                local_reachable,
            },
            TunnelStatus::Connected { route, since } => {
                let elapsed = elapsed_nanos(since);
                let secs = whole_seconds(elapsed.value());
                assert(secs == secs_in(elapsed.nanos()));
                TunnelStatusInfo {
                    state: "connected".to_string(),
                    route: Some(route.clone()),
                    connected_since_secs: Some(secs),
                    error: None,
                    local_reachable,
                }
            },
            TunnelStatus::Error { message } => TunnelStatusInfo {
                state: "error".to_string(),
                route: None,
                connected_since_secs: None,
                error: Some(message.clone()),
                local_reachable,
            },
        }
    }
}

impl TunnelInfo {
    /// The listing of tunnel `entry` with its status report.
    pub fn of_entry(entry: &TunnelEntry, status: TunnelStatusInfo) -> (r: Self)
        ensures
            r.id == entry.id,
            r.client_id == entry.client_id,
            r.local_addr == entry.local_addr,
            r.enabled == entry.enabled,
            r.status == status,
    {
        TunnelInfo {
            id: entry.id.clone(),
            client_id: entry.client_id.clone(),
            local_addr: entry.local_addr.clone(),
            enabled: entry.enabled,
            status,
        }
    }
}


/// Why the tunnel manager refused an operation.
#[derive(Debug)]
pub enum ManagerError {
    /// A tunnel with this entry's ID is running already; the client ID is given.
    AlreadyRunning(String),
    /// No tunnel with this ID is running.
    NotRunning(String),
    /// No configured tunnel has this ID.
    NotInConfig(String),
    /// The tunnel configuration refused the change.
    Config(ConfigError),
}

impl ManagerError {
    /// The error's message.
    pub fn message(&self) -> (r: String)
        ensures
            self matches ManagerError::AlreadyRunning(c) ==> r@ == "Tunnel '"@ + c@ + "' is already running"@,
            self matches ManagerError::NotRunning(id) ==> r@ == "Tunnel '"@ + id@ + "' is not running"@,
            self matches ManagerError::NotInConfig(id) ==> r@ == "Tunnel '"@ + id@ + "' not found in config"@,
            self matches ManagerError::Config(e) ==> (r@ == e.message_text()),
    {
        match self {
            ManagerError::AlreadyRunning(c) => {
                let mut m = concat("Tunnel '", c.as_str());
                m.append("' is already running");
                m
            },
            ManagerError::NotRunning(id) => {
                let mut m = concat("Tunnel '", id.as_str());
                m.append("' is not running");
                m
            },
            ManagerError::NotInConfig(id) => {
                let mut m = concat("Tunnel '", id.as_str());
                m.append("' not found in config");
                m
            },
            ManagerError::Config(e) => e.message(),
        }
    }
}

/// The tunnels of one server connection: the configuration, the tunnels that run, and the
/// reconnection delay of each running tunnel. The tasks that carry the tunnels belong to the
/// caller, which starts one for each entry that an operation reports started, stops the one of
/// each entry that it reports stopped, and asks [`TunnelManager::session_ended`] what to do
/// each time a session of a tunnel ends.
pub struct TunnelManager {
    server_addr: String,
    token: String,
    tls_config: ClientTlsConfig,
    config: TunnelsConfig,
    running: Vec<TunnelEntry>,
    /// The delay of `running[i]` is `backoffs[i]`.
    backoffs: Vec<u64>,
}

/// What one supervision step of a tunnel whose delay was `backoff` gives when a session ended
/// with `error` (`None`: cleanly) and `cancelled` says whether the tunnel was cancelled: the
/// status to report, whether to stop or to wait and reconnect, and the delay kept for the next
/// step (the one carried on after a wait; unchanged after a stop).
pub open spec fn supervised(
    backoff: u64,
    error: Option<String>,
    cancelled: bool,
    status: TunnelStatus,
    action: ReconnectAction,
    after: u64,
) -> bool {
    &&& status == status_after(error)
    &&& action == reconnect_of(backoff, error is None, cancelled, MAX_BACKOFF_SECS)
    &&& after == match action {
        ReconnectAction::Retry { next, .. } => next,
        ReconnectAction::Stop => backoff,
    }
}

/// In a list of tunnels with distinct IDs, the tunnel at `p` is the one found by its ID.
proof fn lemma_unique_index(s: Seq<TunnelEntry>, p: int)
    requires
        ids_unique(s),
        0 <= p < s.len(),
    ensures
        id_index(s, s[p].id@) == p,
        entry_with_id(s, s[p].id@) == Some(s[p]),
{
    assert forall|j: int| 0 <= j < p implies (#[trigger] s[j]).id@ != s[p].id@ by {}
    lemma_id_index(s, s[p].id@, p);
}

impl TunnelManager {
    /// No two running tunnels share an ID, and each has a delay.
    #[verifier::type_invariant]
    spec fn running_ids_unique(self) -> bool {
        &&& ids_unique(self.running@)
        &&& self.running@.len() <= self.backoffs@.len()
    }

    /// The reconnection delay, in seconds, of the running tunnel with ID `id`.
    pub closed spec fn backoff_of(&self, id: Seq<char>) -> Option<u64> {
        if entry_with_id(self.running@, id) is Some {
            Some(self.backoffs@[id_index(self.running@, id) as int])
        } else {
            None
        }
    }

    /// The configured tunnels.
    pub closed spec fn tunnels(&self) -> Seq<TunnelEntry> {
        self.config.tunnels@
    }

    /// The entries of the running tunnels, in the order they were started.
    pub closed spec fn running(&self) -> Seq<TunnelEntry> {
        self.running@
    }

    /// The server address.
    pub closed spec fn addr(&self) -> Seq<char> {
        self.server_addr@
    }

    /// The token.
    pub closed spec fn secret(&self) -> Seq<char> {
        self.token@
    }

    /// The TLS settings.
    pub closed spec fn tls(&self) -> ClientTlsConfig {
        self.tls_config
    }

    /// A manager for `config`'s tunnels on the server at `server_addr`; none is running yet.
    pub fn new(server_addr: String, token: String, tls_config: ClientTlsConfig, config: TunnelsConfig) -> (r: Self)
        ensures
            r.addr() == server_addr@,
            r.secret() == token@,
            r.tls() == tls_config,
            r.tunnels() == config.tunnels@,
            r.running().len() == 0,
    {
        TunnelManager { server_addr, token, tls_config, config, running: Vec::new(), backoffs: Vec::new() }
    }

    /// The server address.
    pub fn server_addr(&self) -> (r: &str)
        ensures
            r@ == self.addr(),
    {
        self.server_addr.as_str()
    }

    /// The token.
    pub fn token(&self) -> (r: &str)
        ensures
            r@ == self.secret(),
    {
        self.token.as_str()
    }

    /// The TLS settings.
    pub fn tls_config(&self) -> (r: &ClientTlsConfig)
        ensures
            *r == self.tls(),
    {
        &self.tls_config
    }

    /// The configuration, as it is to be saved.
    pub fn config(&self) -> (r: &TunnelsConfig)
        ensures
            r.tunnels@ == self.tunnels(),
    {
        &self.config
    }

    /// The number of running tunnels.
    pub fn running_count(&self) -> (r: usize)
        ensures
            r == self.running().len(),
    {
        self.running.len()
    }

    /// Whether the tunnel with ID `id` is running.
    pub fn is_running(&self, id: &str) -> (r: bool)
        ensures
            r == (entry_with_id(self.running(), id@) is Some),
    {
        proof {
            lemma_id_index_bound(self.running@, id@);
        }
        position_of(&self.running, id) < self.running.len()
    }

    /// Starts tunnel `entry`: refused when a tunnel with its ID runs already. The sessions of a
    /// started tunnel are supervised step by step with [`crate::client::session_ended`].
    pub fn start_tunnel_internal(&mut self, entry: &TunnelEntry) -> (r: Result<(), ManagerError>)
        ensures
            final(self).tunnels() == old(self).tunnels(),
            final(self).addr() == old(self).addr(),
            final(self).secret() == old(self).secret(),
            final(self).tls() == old(self).tls(),
            entry_with_id(old(self).running(), entry.id@) is Some ==> (r matches Err(ManagerError::AlreadyRunning(c))
                && c@ == entry.client_id@ && final(self).running() == old(self).running()),
            entry_with_id(old(self).running(), entry.id@) is None ==> r is Ok && final(self).running()
                == old(self).running().push(*entry),
            r is Ok ==> final(self).backoff_of(entry.id@) == Some(backoff_seq(0, MAX_BACKOFF_SECS)),
            forall|other: Seq<char>|
                other != entry.id@ ==> #[trigger] final(self).backoff_of(other) == old(self).backoff_of(other),
    {
        proof {
            use_type_invariant(&*self);
            lemma_id_index_bound(self.running@, entry.id@);
        }
        let i = position_of(&self.running, entry.id.as_str());
        if i < self.running.len() {
            return Err(ManagerError::AlreadyRunning(entry.client_id.clone()));
        }
        proof {
            let s = self.running@;
            let t = s.push(*entry);
            assert forall|a: int, b: int| 0 <= a < t.len() && 0 <= b < t.len() && a != b implies t[a].id@ != t[b].id@ by {
                if a == s.len() {
                    lemma_id_index_first(s, entry.id@, b);
                } else if b == s.len() {
                    lemma_id_index_first(s, entry.id@, a);
                } else {
                    assert(t[a] == s[a] && t[b] == s[b]);
                }
            }
        }
        let ghost old_r = self.running@;
        let ghost old_b = self.backoffs@;
        let n = self.running.len();
        let mut running: Vec<TunnelEntry> = Vec::new();
        std::mem::swap(&mut running, &mut self.running);
        let mut backoffs: Vec<u64> = Vec::new();
        std::mem::swap(&mut backoffs, &mut self.backoffs);
        if n < backoffs.len() {
            backoffs.set(n, 1);
        } else {
            backoffs.push(1);
        }
        self.backoffs = backoffs;
        running.push(entry.duplicate());
        self.running = running;
        proof {
            let new_r = self.running@;
            let new_b = self.backoffs@;
            assert(new_r == old_r.push(*entry));
            lemma_unique_index(new_r, n as int);
            assert forall|other: Seq<char>| other != entry.id@ implies #[trigger] self.backoff_of(other) == old(
                self,
            ).backoff_of(other) by {
                lemma_id_index_bound(old_r, other);
                lemma_id_index_bound(new_r, other);
                if entry_with_id(old_r, other) is Some {
                    let q = id_index(old_r, other) as int;
                    assert(new_r[q] == old_r[q]);
                    lemma_unique_index(new_r, q);
                    assert(new_b[q] == old_b[q]);
                } else if entry_with_id(new_r, other) is Some {
                    let q = id_index(new_r, other) as int;
                    assert(q != n);
                    assert(old_r[q] == new_r[q]);
                    lemma_unique_index(old_r, q);
                }
            }
        }
        Ok(())
    }

    /// Supervises the running tunnel with ID `id` after one of its sessions ended with `error`
    /// (`None`: cleanly), `cancelled` saying whether the tunnel was cancelled: the status to
    /// report and whether to stop, or to wait and reconnect, as [`session_ended`] decides with the
    /// tunnel's delay, which then becomes the delay carried on. `None` when the tunnel does not
    /// run (any more): its task stops.
    pub fn session_ended(&mut self, id: &str, error: Option<String>, cancelled: bool) -> (r: Option<
        (TunnelStatus, ReconnectAction),
    >)
        ensures
            final(self).tunnels() == old(self).tunnels(),
            final(self).running() == old(self).running(),
            final(self).addr() == old(self).addr(),
            final(self).secret() == old(self).secret(),
            final(self).tls() == old(self).tls(),
            old(self).backoff_of(id@) is None ==> r is None && final(self).backoff_of(id@) is None,
            old(self).backoff_of(id@) matches Some(b) ==> (r matches Some((status, action)) && final(self).backoff_of(
                id@,
            ) matches Some(after) && supervised(b, error, cancelled, status, action, after)),
            forall|other: Seq<char>| other != id@ ==> #[trigger] final(self).backoff_of(other) == old(self).backoff_of(other),
    {
        proof {
            use_type_invariant(&*self);
            lemma_id_index_bound(self.running@, id@);
        }
        let i = position_of(&self.running, id);
        if i == self.running.len() {
            return None;
        }
        let ghost old_b = self.backoffs@;
        let backoff = self.backoffs[i];
        let (status, action) = session_ended(error, backoff, cancelled, MAX_BACKOFF_SECS);
        let kept = match action {
            ReconnectAction::Retry { wait: _, next } => next,
            ReconnectAction::Stop => backoff,
        };
        let ghost rs = self.running@;
        let mut running: Vec<TunnelEntry> = Vec::new();
        std::mem::swap(&mut running, &mut self.running);
        let mut backoffs: Vec<u64> = Vec::new();
        std::mem::swap(&mut backoffs, &mut self.backoffs);
        backoffs.set(i, kept);
        self.backoffs = backoffs;
        self.running = running;
        proof {
            assert(self.backoffs@ == old_b.update(i as int, kept));
            assert forall|other: Seq<char>| other != id@ implies #[trigger] self.backoff_of(other) == old(
                self,
            ).backoff_of(other) by {
                lemma_id_index_bound(rs, other);
                if entry_with_id(rs, other) is Some {
                    let q = id_index(rs, other) as int;
                    assert(q != i);
                }
            }
        }
        Some((status, action))
    }

    /// Stops the tunnel with ID `id` and returns its entry: refused when it is not running.
    pub fn stop_tunnel(&mut self, id: &str) -> (r: Result<TunnelEntry, ManagerError>)
        ensures
            final(self).tunnels() == old(self).tunnels(),
            final(self).addr() == old(self).addr(),
            final(self).secret() == old(self).secret(),
            final(self).tls() == old(self).tls(),
            entry_with_id(old(self).running(), id@) is None ==> (r matches Err(ManagerError::NotRunning(i)) && i@ == id@
                && final(self).running() == old(self).running()),
            entry_with_id(old(self).running(), id@) is Some ==> (r matches Ok(e) && Some(e) == entry_with_id(
                old(self).running(),
                id@,
            ) && final(self).running() == old(self).running().remove(id_index(old(self).running(), id@) as int)),
            entry_with_id(final(self).running(), id@) is None,
            forall|other: Seq<char>| other != id@ ==> #[trigger] final(self).backoff_of(other) == old(self).backoff_of(other),
    {
        proof {
            use_type_invariant(&*self);
            lemma_id_index_bound(self.running@, id@);
        }
        let i = position_of(&self.running, id);
        if i == self.running.len() {
            return Err(ManagerError::NotRunning(id.to_string()));
        }
        let ghost s = self.running@;
        let ghost old_b = self.backoffs@;
        let mut running: Vec<TunnelEntry> = Vec::new();
        std::mem::swap(&mut running, &mut self.running);
        let mut backoffs: Vec<u64> = Vec::new();
        std::mem::swap(&mut backoffs, &mut self.backoffs);
        backoffs.remove(i);
        self.backoffs = backoffs;
        let e = running.remove(i);
        proof {
            let t = s.remove(i as int);
            assert forall|a: int, b: int| 0 <= a < t.len() && 0 <= b < t.len() && a != b implies t[a].id@ != t[b].id@ by {
                let a2 = if a < i { a } else { a + 1 };
                let b2 = if b < i { b } else { b + 1 };
                assert(t[a] == s[a2] && t[b] == s[b2]);
            }
            assert forall|j: int| 0 <= j < t.len() implies (#[trigger] t[j]).id@ != id@ by {
                let j2 = if j < i { j } else { j + 1 };
                assert(t[j] == s[j2]);
            }
            lemma_id_index(t, id@, t.len() as int);
        }
        self.running = running;
        proof {
            let t = self.running@;
            let nb = self.backoffs@;
            assert(t == s.remove(i as int));
            assert(nb == old_b.remove(i as int));
            lemma_unique_index(s, i as int);
            assert forall|other: Seq<char>| other != id@ implies #[trigger] self.backoff_of(other) == old(
                self,
            ).backoff_of(other) by {
                lemma_id_index_bound(s, other);
                lemma_id_index_bound(t, other);
                if entry_with_id(s, other) is Some {
                    let q = id_index(s, other) as int;
                    assert(q != i);
                    let q2 = if q < i { q } else { q - 1 };
                    assert(t[q2] == s[q]);
                    lemma_unique_index(t, q2);
                    assert(nb[q2] == old_b[q]);
                } else if entry_with_id(t, other) is Some {
                    let q = id_index(t, other) as int;
                    let q2 = if q < i { q } else { q + 1 };
                    assert(s[q2] == t[q]);
                    lemma_unique_index(s, q2);
                }
            }
        }
        Ok(e)
    }

    /// Starts every enabled tunnel of the configuration that is not running yet, and returns
    /// the entries started, in the order of the configuration.
    pub fn start_all(&mut self) -> (r: Vec<TunnelEntry>)
        ensures
            final(self).tunnels() == old(self).tunnels(),
            final(self).addr() == old(self).addr(),
            final(self).secret() == old(self).secret(),
            final(self).tls() == old(self).tls(),
            final(self).running() == old(self).running() + r@,
            forall|k: int| 0 <= k < r@.len() ==> (#[trigger] r@[k]).enabled,
            forall|k: int| 0 <= k < r@.len() ==> old(self).tunnels().contains(#[trigger] r@[k]),
            forall|k: int|
                0 <= k < old(self).tunnels().len() && (#[trigger] old(self).tunnels()[k]).enabled ==> entry_with_id(
                    final(self).running(),
                    old(self).tunnels()[k].id@,
                ) is Some,
    {
        let mut started: Vec<TunnelEntry> = Vec::new();
        let n = self.config.tunnels.len();
        let mut i: usize = 0;
        while i < n
            invariant
                n == self.config.tunnels@.len(),
                i <= n,
                self.config.tunnels@ == old(self).tunnels(),
                self.addr() == old(self).addr(),
                self.secret() == old(self).secret(),
                self.tls() == old(self).tls(),
                self.running@ == old(self).running() + started@,
                forall|k: int| 0 <= k < started@.len() ==> (#[trigger] started@[k]).enabled,
                forall|k: int| 0 <= k < started@.len() ==> old(self).tunnels().contains(#[trigger] started@[k]),
                forall|k: int|
                    0 <= k < i && (#[trigger] old(self).tunnels()[k]).enabled ==> entry_with_id(
                        self.running@,
                        old(self).tunnels()[k].id@,
                    ) is Some,
            decreases n - i,
        {
            let entry = self.config.tunnels[i].duplicate();
            let ghost before = self.running@;
            if entry.enabled {
                proof {
                    lemma_id_index_bound(before, entry.id@);
                }
                match self.start_tunnel_internal(&entry) {
                    Ok(()) => {
                        proof {
                            assert(old(self).tunnels()[i as int] == entry);
                            assert(old(self).tunnels().contains(entry));
                        }
                        started.push(entry);
                    },
                    Err(_) => {},
                }
                proof {
                    let after = self.running@;
                    assert(after.len() >= before.len());
                    assert forall|k: int| 0 <= k < before.len() implies after[k] == before[k] by {}
                    assert forall|k: int|
                        0 <= k <= i && (#[trigger] old(self).tunnels()[k]).enabled implies entry_with_id(
                            after,
                            old(self).tunnels()[k].id@,
                        ) is Some by {
                        let id = old(self).tunnels()[k].id@;
                        if k < i {
                            lemma_running_keeps(before, after, id);
                        } else {
                            if entry_with_id(before, id) is Some {
                                lemma_running_keeps(before, after, id);
                            } else {
                                lemma_id_index_bound(after, id);
                                assert(after[before.len() as int] == entry);
                                assert forall|j: int| 0 <= j < before.len() implies (#[trigger] after[j]).id@ != id by {
                                    lemma_id_index_first(before, id, j);
                                }
                                lemma_id_index(after, id, before.len() as int);
                            }
                        }
                    }
                }
            }
            proof {
                assert(self.running@ == old(self).running() + started@);
            }
            i = i + 1;
        }
        started
    }

    /// Stops every running tunnel and returns their entries.
    pub fn stop_all(&mut self) -> (r: Vec<TunnelEntry>)
        ensures
            final(self).tunnels() == old(self).tunnels(),
            final(self).addr() == old(self).addr(),
            final(self).secret() == old(self).secret(),
            final(self).tls() == old(self).tls(),
            r@ == old(self).running(),
            final(self).running().len() == 0,
    {
        let mut stopped: Vec<TunnelEntry> = Vec::new();
        std::mem::swap(&mut stopped, &mut self.running);
        let mut backoffs: Vec<u64> = Vec::new();
        std::mem::swap(&mut backoffs, &mut self.backoffs);
        stopped
    }

    /// Starts the configured tunnel with ID `id` and returns its entry: refused when no tunnel
    /// has the ID or it is running already.
    pub fn start_tunnel(&mut self, id: &str) -> (r: Result<TunnelEntry, ManagerError>)
        ensures
            final(self).tunnels() == old(self).tunnels(),
            final(self).addr() == old(self).addr(),
            final(self).secret() == old(self).secret(),
            final(self).tls() == old(self).tls(),
            entry_with_id(old(self).tunnels(), id@) is None ==> (r matches Err(ManagerError::NotInConfig(i)) && i@ == id@
                && final(self).running() == old(self).running()),
            entry_with_id(old(self).tunnels(), id@) matches Some(e) ==> ({
                &&& entry_with_id(old(self).running(), e.id@) is Some ==> (r matches Err(ManagerError::AlreadyRunning(c))
                    && c@ == e.client_id@ && final(self).running() == old(self).running())
                &&& entry_with_id(old(self).running(), e.id@) is None ==> (r matches Ok(s) && s == e
                    && final(self).running() == old(self).running().push(e))
            }),
    {
        let entry = match self.config.get_tunnel(id) {
            Some(e) => e.duplicate(),
            None => return Err(ManagerError::NotInConfig(id.to_string())),
        };
        match self.start_tunnel_internal(&entry) {
            Ok(()) => Ok(entry),
            Err(e) => Err(e),
        }
    }

    /// Adds a tunnel to the configuration and starts it when it is enabled.
    pub fn add_tunnel(&mut self, entry: TunnelEntry) -> (r: Result<TunnelEntry, ManagerError>)
        ensures
            final(self).addr() == old(self).addr(),
            final(self).secret() == old(self).secret(),
            final(self).tls() == old(self).tls(),
            !(r matches Err(ManagerError::NotRunning(_))) && !(r matches Err(ManagerError::NotInConfig(_))),
            r matches Err(ManagerError::Config(e)) ==> tunnel_added(old(self).tunnels(), entry, final(self).tunnels(), Err(e))
                && final(self).running() == old(self).running(),
            r matches Ok(a) ==> tunnel_added(old(self).tunnels(), entry, final(self).tunnels(), Ok(a))
                && final(self).running() == if a.enabled {
                    old(self).running().push(a)
                } else {
                    old(self).running()
                } && (a.enabled ==> entry_with_id(old(self).running(), a.id@) is None),
            r matches Err(ManagerError::AlreadyRunning(c)) ==> exists|a: TunnelEntry|
                tunnel_added(old(self).tunnels(), entry, final(self).tunnels(), Ok(a)) && #[trigger] a.enabled
                    && entry_with_id(old(self).running(), a.id@) is Some && c@ == a.client_id@
                    && final(self).running() == old(self).running(),
    {
        let ghost before = self.config.tunnels@;
        let mut config = TunnelsConfig { tunnels: Vec::new() };
        proof {
            use_type_invariant(&*self);
        }
        std::mem::swap(&mut config, &mut self.config);
        let res = config.add_tunnel(entry);
        self.config = config;
        let added = match res {
            Ok(a) => a,
            Err(e) => return Err(ManagerError::Config(e)),
        };
        assert(tunnel_added(before, entry, self.config.tunnels@, Ok(added)));
        if added.enabled {
            match self.start_tunnel_internal(&added) {
                Ok(()) => {},
                Err(e) => return Err(e),
            }
        }
        Ok(added)
    }

    /// Updates a tunnel: stops it if it runs, changes its configuration, and starts it again
    /// when it is enabled.
    pub fn update_tunnel(&mut self, id: &str, client_id: String, local_addr: String, enabled: bool) -> (r: Result<
        TunnelEntry,
        ManagerError,
    >)
        ensures
            final(self).addr() == old(self).addr(),
            final(self).secret() == old(self).secret(),
            final(self).tls() == old(self).tls(),
            !(r matches Err(ManagerError::NotRunning(_))) && !(r matches Err(ManagerError::NotInConfig(_)))
                && !(r matches Err(ManagerError::AlreadyRunning(_))),
            r matches Err(ManagerError::Config(e)) ==> tunnel_updated(
                old(self).tunnels(),
                id@,
                client_id,
                local_addr,
                enabled,
                final(self).tunnels(),
                Err(e),
            ) && final(self).running() == stopped_running(old(self).running(), id@),
            r matches Ok(u) ==> tunnel_updated(
                old(self).tunnels(),
                id@,
                client_id,
                local_addr,
                enabled,
                final(self).tunnels(),
                Ok(u),
            ) && final(self).running() == if u.enabled {
                stopped_running(old(self).running(), id@).push(u)
            } else {
                stopped_running(old(self).running(), id@)
            },
    {
        let _ = self.stop_tunnel(id);
        let ghost stopped = self.running@;
        assert(stopped == stopped_running(old(self).running(), id@));
        let ghost before = self.config.tunnels@;
        let mut config = TunnelsConfig { tunnels: Vec::new() };
        proof {
            use_type_invariant(&*self);
        }
        std::mem::swap(&mut config, &mut self.config);
        let res = config.update_tunnel(id, client_id, local_addr, enabled);
        self.config = config;
        let updated = match res {
            Ok(u) => u,
            Err(e) => return Err(ManagerError::Config(e)),
        };
        proof {
            assert(tunnel_updated(before, id@, client_id, local_addr, enabled, self.config.tunnels@, Ok(updated)));
            lemma_id_index_bound(before, id@);
        }
        if updated.enabled {
            match self.start_tunnel_internal(&updated) {
                Ok(()) => {},
                Err(e) => return Err(e),
            }
        }
        Ok(updated)
    }

    /// Removes a tunnel: stops it if it runs, and removes it from the configuration.
    pub fn remove_tunnel(&mut self, id: &str) -> (r: Result<TunnelEntry, ManagerError>)
        ensures
            final(self).addr() == old(self).addr(),
            final(self).secret() == old(self).secret(),
            final(self).tls() == old(self).tls(),
            final(self).running() == stopped_running(old(self).running(), id@),
            r matches Err(e) ==> (e matches ManagerError::Config(c) && tunnel_removed(
                old(self).tunnels(),
                id@,
                final(self).tunnels(),
                Err(c),
            )),
            r matches Ok(e) ==> tunnel_removed(old(self).tunnels(), id@, final(self).tunnels(), Ok(e)),
    {
        let _ = self.stop_tunnel(id);
        let mut config = TunnelsConfig { tunnels: Vec::new() };
        proof {
            use_type_invariant(&*self);
        }
        std::mem::swap(&mut config, &mut self.config);
        let res = config.remove_tunnel(id);
        self.config = config;
        match res {
            Ok(e) => Ok(e),
            Err(c) => Err(ManagerError::Config(c)),
        }
    }
}

/// A connected tunnel reports the whole seconds since it connected: `s` seconds and any
/// fraction of a second report `s`.
pub proof fn law_connected_since_is_whole_seconds(r: TunnelStatusInfo, elapsed: u128, s: nat, frac: nat)
    requires
        r.connected_since_secs == Some(secs_in(elapsed) as u64),
        frac < 1_000_000_000,
        elapsed == s * 1_000_000_000 + frac,
        s <= u64::MAX,
    ensures
        r.connected_since_secs == Some(s as u64),
{
    law_whole_seconds_of_duration(s, frac);
}

/// A started tunnel reconnects with exponential backoff: [`TunnelManager::start_tunnel_internal`]
/// gives it the first delay of [`backoff_seq`], one second, and while its sessions fail and it
/// is not cancelled, the supervision step ([`TunnelManager::session_ended`]) after the `k`-th
/// delay waits that delay and carries the next on. The delays are `2^k` seconds up to the
/// limit of 30 and then 30: 1, 2, 4, 8, 16, 30, 30, ...
pub proof fn law_started_tunnel_backs_off(
    k: nat,
    error: String,
    status: TunnelStatus,
    action: ReconnectAction,
    after: u64,
)
    requires
        supervised(backoff_seq(k, MAX_BACKOFF_SECS), Some(error), false, status, action, after),
    ensures
        status == (TunnelStatus::Error { message: error }),
        action == (ReconnectAction::Retry {
            wait: backoff_seq(k, MAX_BACKOFF_SECS),
            next: backoff_seq(k + 1, MAX_BACKOFF_SECS),
        }),
        after == backoff_seq(k + 1, MAX_BACKOFF_SECS),
        backoff_seq(k, MAX_BACKOFF_SECS) == if vstd::arithmetic::power2::pow2(k) <= 30 {
            vstd::arithmetic::power2::pow2(k)
        } else {
            30
        },
{
    law_failing_sessions_follow_backoff(k, MAX_BACKOFF_SECS);
    law_backoff_doubles_to_limit(k, MAX_BACKOFF_SECS);
}

/// A session of a supervised tunnel that ends cleanly resets the delay: the tunnel reports
/// `Stopped`, waits one second, and carries two seconds on.
pub proof fn law_supervised_clean_session_resets(
    backoff: u64,
    status: TunnelStatus,
    action: ReconnectAction,
    after: u64,
)
    requires
        supervised(backoff, None, false, status, action, after),
    ensures
        status == TunnelStatus::Stopped,
        action == (ReconnectAction::Retry { wait: 1, next: 2 }),
        after == 2,
{
}

/// A cancelled tunnel stops: whatever its session did, no further session starts, and its
/// delay stays as it was.
pub proof fn law_supervised_cancel_stops(
    backoff: u64,
    error: Option<String>,
    status: TunnelStatus,
    action: ReconnectAction,
    after: u64,
)
    requires
        supervised(backoff, error, true, status, action, after),
    ensures
        action == ReconnectAction::Stop,
        after == backoff,
{
}

/// The running tunnels after the one with ID `id`, if any, was stopped.
pub open spec fn stopped_running(running: Seq<TunnelEntry>, id: Seq<char>) -> Seq<TunnelEntry> {
    if entry_with_id(running, id) is Some {
        running.remove(id_index(running, id) as int)
    } else {
        running
    }
}

/// A tunnel that runs keeps running when the running list only grows at its end.
proof fn lemma_running_keeps(before: Seq<TunnelEntry>, after: Seq<TunnelEntry>, id: Seq<char>)
    requires
        entry_with_id(before, id) is Some,
        before.len() <= after.len(),
        forall|k: int| 0 <= k < before.len() ==> after[k] == before[k],
    ensures
        entry_with_id(after, id) is Some,
{
    let i = id_index(before, id) as int;
    lemma_id_index_bound(before, id);
    assert forall|j: int| 0 <= j < i implies (#[trigger] after[j]).id@ != id by {
        lemma_id_index_first(before, id, j);
    }
    lemma_id_index(after, id, i);
}

/// Stopping a tunnel that was just started gives back the running tunnels as they were.
pub proof fn law_stop_undoes_start(running: Seq<TunnelEntry>, e: TunnelEntry)
    requires
        entry_with_id(running, e.id@) is None,
    ensures
        stopped_running(running.push(e), e.id@) == running,
{
    crate::client_config::law_remove_undoes_add(running, e);
}

} // verus!
