//! Decisions of the server's command line: how `start` proceeds, and what `status` and the
//! start summary show.
use vstd::prelude::*;
use crate::server_config::{RoutingMode, ServerConfig};
use crate::text::{is_whitespace, is_ws, trim_start};

verus! {

/// How `zo-tunnel-server start` proceeds.
#[derive(Debug, Clone, Copy, PartialEq, Eq, Structural)]
pub enum StartPlan {
    /// A configuration exists and `--domain` was given without `--force`: refuse.
    AlreadyConfigured,
    /// No configuration exists and no `--domain` was given: refuse.
    DomainRequired,
    /// Create a new configuration from the arguments.
    Create,
    /// Load the existing configuration.
    Load,
}

/// Picks the way `start` proceeds from whether a configuration exists, whether `--domain` was
/// given, and whether `--force` was.
pub fn start_plan(config_exists: bool, domain_given: bool, force: bool) -> (r: StartPlan)
    ensures
        config_exists && domain_given && !force ==> r == StartPlan::AlreadyConfigured,
        config_exists && domain_given && force ==> r == StartPlan::Create,
        config_exists && !domain_given ==> r == StartPlan::Load,
        !config_exists && !domain_given ==> r == StartPlan::DomainRequired,
        !config_exists && domain_given ==> r == StartPlan::Create,
{
    if config_exists {
        if domain_given {
            if force {
                StartPlan::Create
            } else {
                StartPlan::AlreadyConfigured
            }
        } else {
            StartPlan::Load
        }
    } else if domain_given {
        StartPlan::Create
    } else {
        StartPlan::DomainRequired
    }
}

/// The client token shown to the operator: the first configured one, else `(none)`.
pub fn first_token(tokens: &Vec<String>) -> (r: String)
    ensures
        tokens@.len() > 0 ==> r@ == tokens@[0]@,
        tokens@.len() == 0 ==> r@ == "(none)"@,
{
    if tokens.len() > 0 {
        tokens[0].clone()
    } else {
        "(none)".to_string()
    }
}

/// The scheme of public URLs: `https` when Caddy terminates TLS, else `http`.
pub fn public_scheme(caddy_enabled: bool) -> (r: &'static str)
    ensures
        caddy_enabled ==> r@ == "https"@,
        !caddy_enabled ==> r@ == "http"@,
{
    if caddy_enabled {
        "https"
    } else {
        "http"
    }
}

/// The label of the service state in `status`.
pub fn service_label(active: bool, installed: bool) -> (r: &'static str)
    ensures
        active ==> r@ == "\u{1F7E2} running"@,
        !active && installed ==> r@ == "\u{1F534} stopped"@,
        !active && !installed ==> r@ == "\u{26AA} not installed"@,
{
    if active {
        "\u{1F7E2} running"
    } else if installed {
        "\u{1F534} stopped"
    } else {
        "\u{26AA} not installed"
    }
}

/// Position of the first whitespace character, or the length when there is none.
pub open spec fn ws_index(s: Seq<char>) -> nat
    decreases s.len(),
{
    if s.len() == 0 {
        0
    } else if is_ws(s[0]) {
        0
    } else {
        1 + ws_index(s.drop_first())
    }
}

/// The first whitespace-separated word of `s` (empty when there is none).
pub open spec fn first_word(s: Seq<char>) -> Seq<char> {
    let t = trim_start(s);
    t.subrange(0, ws_index(t) as int)
}

/// The address shown for the server: the first word of what `hostname -I` printed, when it ran
/// successfully and printed one, else the placeholder `<VPS_IP>`.
pub open spec fn primary_ip_of(output: Option<Seq<char>>) -> Seq<char> {
    match output {
        Some(o) => if first_word(o).len() > 0 {
            first_word(o)
        } else {
            "<VPS_IP>"@
        },
        None => "<VPS_IP>"@,
    }
}

proof fn lemma_ws_index(s: Seq<char>, k: int)
    requires
        0 <= k <= s.len(),
        forall|j: int| 0 <= j < k ==> !is_ws(#[trigger] s[j]),
        k == s.len() || is_ws(s[k]),
    ensures
        ws_index(s) == k,
    decreases k,
{
    if k > 0 {
        assert forall|j: int| 0 <= j < k - 1 implies !is_ws(#[trigger] s.drop_first()[j]) by {
            assert(s.drop_first()[j] == s[j + 1]);
        }
        lemma_ws_index(s.drop_first(), k - 1);
    }
}

/// Picks the server address from the output of `hostname -I` (`None` when it failed).
pub fn primary_ip(output: Option<&str>) -> (r: String)
    ensures
        r@ == primary_ip_of(match output {
            Some(o) => Some(o@),
            None => None,
        }),
{
    let o = match output {
        Some(o) => o,
        None => return "<VPS_IP>".to_string(),
    };
    let n = o.unicode_len();
    let mut i: usize = 0;
    assert(o@.subrange(0, n as int) =~= o@);
    while i < n && is_whitespace(o.get_char(i))
        invariant
            n == o@.len(),
            i <= n,
            trim_start(o@) == trim_start(o@.subrange(i as int, n as int)),
        decreases n - i,
    {
        assert(o@.subrange(i as int, n as int).drop_first() =~= o@.subrange(i + 1, n as int));
        i = i + 1;
    }
    let ghost t = o@.subrange(i as int, n as int);
    assert(trim_start(o@) == t);
    let mut j: usize = i;
    while j < n && !is_whitespace(o.get_char(j))
        invariant
            n == o@.len(),
            i <= j <= n,
            t == o@.subrange(i as int, n as int),
            forall|k: int| 0 <= k < j - i ==> !is_ws(#[trigger] t[k]),
        decreases n - j,
    {
        j = j + 1;
    }
    proof {
        lemma_ws_index(t, (j - i) as int);
        assert(t.subrange(0, (j - i) as int) =~= o@.subrange(i as int, j as int));
    }
    if j > i {
        o.substring_char(i, j).to_string()
    } else {
        "<VPS_IP>".to_string()
    }
}

/// The arguments of `journalctl` for `logs`: the service's last `lines` lines without a pager,
/// followed live with `-f`.
pub fn journal_args(lines: u32, follow: bool) -> (r: Vec<String>)
    ensures
        follow ==> r@.len() == 6 && r@[5]@ == "-f"@,
        !follow ==> r@.len() == 5,
        r@[0]@ == "-u"@,
        r@[1]@ == "zo-tunnel"@,
        r@[2]@ == "-n"@,
        r@[3]@ == crate::text::decimal(lines as nat),
        r@[4]@ == "--no-pager"@,
{
    let mut args: Vec<String> = Vec::new();
    args.push("-u".to_string());
    args.push("zo-tunnel".to_string());
    args.push("-n".to_string());
    args.push(crate::text::decimal_string(lines as u64));
    args.push("--no-pager".to_string());
    if follow {
        args.push("-f".to_string());
    }
    args
}

/// The configuration that `start --domain` creates: the defaults, with the domain, the two
/// ports, one client token and the dashboard token given.
pub fn new_server_config(
    domain: String,
    control_port: u16,
    public_port: u16,
    client_token: String,
    dashboard_token: String,
) -> (r: ServerConfig)
    ensures
        r.domain matches Some(d) && d@ == domain@,
        r.control_port == control_port,
        r.public_port == public_port,
        r.auth.tokens@.len() == 1 && r.auth.tokens@[0]@ == client_token@,
        r.dashboard_auth.token@ == dashboard_token@,
        r.dashboard_port == 6220,
        r.routing_mode == RoutingMode::Path,
        !r.tls.enabled,
        r.dashboard_auth.session_ttl_secs == 86400,
        r.rate_limit.requests_per_second == 100,
        r.rate_limit.max_connections_per_client == 50,
        r.tcp_ports.enabled && r.tcp_ports.port_start == 10000 && r.tcp_ports.port_end == 10100,
        r.log_level@ == "info"@,
{
    let mut cfg = ServerConfig::default();
    cfg.domain = Some(domain);
    cfg.control_port = control_port;
    cfg.public_port = public_port;
    let mut tokens: Vec<String> = Vec::new();
    tokens.push(client_token);
    cfg.auth.tokens = tokens;
    cfg.dashboard_auth.token = dashboard_token;
    cfg
}

} // verus!
