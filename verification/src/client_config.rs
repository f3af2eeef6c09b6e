//! Client configuration: saved credentials, paths, and the list of tunnels.
use vstd::prelude::*;
use crate::text::{concat, ends_with, str_eq, trim, trim_str, str_ends_with};

verus! {

/// TLS settings of the control-channel connection.
#[derive(Debug, Clone)]
pub struct ClientTlsConfig {
    /// Use TLS for the control channel.
    pub enabled: bool,
    /// Name for SNI and certificate checks; empty: the host of the server address.
    pub server_name: String,
    /// Accept any certificate (self-signed ones in development).
    pub skip_verify: bool,
}

impl Default for ClientTlsConfig {
    fn default() -> (r: Self)
        ensures
            !r.enabled,
            r.server_name@.len() == 0,
            !r.skip_verify,
    {
        ClientTlsConfig { enabled: false, server_name: String::new(), skip_verify: false }
    }
}

/// Reconnection policy.
#[derive(Debug, Clone)]
pub struct ReconnectConfig {
    pub enabled: bool,
    /// Longest wait between attempts, in seconds.
    pub max_interval: u64,
}

/// `true`, the default of flags that are on unless set.
pub fn default_true() -> (r: bool)
    ensures
        r,
{
    true
}

/// Default longest wait between reconnection attempts: 30 seconds.
pub fn default_max_interval() -> (r: u64)
    ensures
        r == 30,
{
    30
}

impl Default for ReconnectConfig {
    fn default() -> (r: Self)
        ensures
            r.enabled,
            r.max_interval == 30,
    {
        ReconnectConfig { enabled: default_true(), max_interval: default_max_interval() }
    }
}

/// Configuration of a single tunnel client.
#[derive(Debug, Clone)]
pub struct ClientConfig {
    pub server: String,
    pub client_id: String,
    pub local_addr: String,
    pub token: String,
    pub reconnect: ReconnectConfig,
    pub tls: ClientTlsConfig,
}

/// Errors of the client configuration.
#[derive(Debug)]
pub enum ConfigError {
    /// `HOME` is not set.
    HomeNotSet,
    /// A tunnel's `client_id` is empty or blank.
    EmptyClientId,
    /// A tunnel's `local_addr` is empty or blank.
    EmptyLocalAddr,
    /// Another tunnel already has this `client_id`.
    DuplicateClientId(String),
    /// No tunnel has this ID.
    NotFound(String),
    /// Another tunnel already has this ID.
    DuplicateId(String),
    /// The operating system gave no random bytes for a new ID.
    NoRandomness,
}

impl ConfigError {
    /// The error's message.
    pub open spec fn message_text(&self) -> Seq<char> {
        match self {
            ConfigError::HomeNotSet => "HOME environment variable not set"@,
            ConfigError::EmptyClientId => "client_id cannot be empty"@,
            ConfigError::EmptyLocalAddr => "local_addr cannot be empty"@,
            ConfigError::DuplicateClientId(c) => "tunnel with client_id '"@ + c@ + "' already exists"@,
            ConfigError::NotFound(id) => "tunnel '"@ + id@ + "' not found"@,
            ConfigError::DuplicateId(id) => "tunnel with id '"@ + id@ + "' already exists"@,
            ConfigError::NoRandomness => "getrandom failed"@,
        }
    }

    /// The error's message.
    pub fn message(&self) -> (r: String)
        ensures
            r@ == self.message_text(),
            self matches ConfigError::HomeNotSet ==> r@ == "HOME environment variable not set"@,
            self matches ConfigError::EmptyClientId ==> r@ == "client_id cannot be empty"@,
            self matches ConfigError::EmptyLocalAddr ==> r@ == "local_addr cannot be empty"@,
            self matches ConfigError::DuplicateClientId(c) ==> r@ == "tunnel with client_id '"@ + c@
                + "' already exists"@,
            self matches ConfigError::NotFound(id) ==> r@ == "tunnel '"@ + id@ + "' not found"@,
    {
        match self {
            ConfigError::HomeNotSet => "HOME environment variable not set".to_string(),
            ConfigError::EmptyClientId => "client_id cannot be empty".to_string(),
            ConfigError::EmptyLocalAddr => "local_addr cannot be empty".to_string(),
            ConfigError::DuplicateClientId(c) => {
                let mut m = concat("tunnel with client_id '", c.as_str());
                m.append("' already exists");
                m
            },
            ConfigError::NotFound(id) => {
                let mut m = concat("tunnel '", id.as_str());
                m.append("' not found");
                m
            },
            ConfigError::DuplicateId(id) => {
                let mut m = concat("tunnel with id '", id.as_str());
                m.append("' already exists");
                m
            },
            ConfigError::NoRandomness => "getrandom failed".to_string(),
        }
    }
}

/// `base` joined with the relative name `name`, as `PathBuf::join` does on Unix: a `/` goes
/// between them unless `base` is empty or already ends with one.
pub open spec fn path_join(base: Seq<char>, name: Seq<char>) -> Seq<char> {
    if base.len() == 0 || base.last() == '/' {
        base + name
    } else {
        base + seq!['/'] + name
    }
}

/// `PathBuf::from(base).join(name)` for a relative `name`.
pub fn join_path(base: &str, name: &str) -> (r: String)
    ensures
        r@ == path_join(base@, name@),
{
    let n = base.unicode_len();
    if n == 0 || base.get_char(n - 1) == '/' {
        concat(base, name)
    } else {
        let mut p = concat(base, "/");
        p.append(name);
        proof {
            reveal_strlit("/");
        }
        assert(p@ =~= base@ + seq!['/'] + name@);
        p
    }
}

/// The credentials directory under home directory `home`: `~/.zo-tunnel`.
pub open spec fn credentials_dir_in(home: Seq<char>) -> Seq<char> {
    path_join(home, ".zo-tunnel"@)
}

/// The directory `~/.zo-tunnel`, given the value of `HOME` (`None` when it is not set).
pub fn credentials_dir(home: Option<&str>) -> (r: Result<String, ConfigError>)
    ensures
        home is None ==> r matches Err(ConfigError::HomeNotSet),
        home matches Some(h) ==> (r matches Ok(p) && p@ == credentials_dir_in(h@)),
{
    match home {
        Some(h) => Ok(join_path(h, ".zo-tunnel")),
        None => Err(ConfigError::HomeNotSet),
    }
}

/// The file `name` in `~/.zo-tunnel`, given the value of `HOME`.
fn file_in_credentials_dir(home: Option<&str>, name: &str) -> (r: Result<String, ConfigError>)
    ensures
        home is None ==> r matches Err(ConfigError::HomeNotSet),
        home matches Some(h) ==> (r matches Ok(p) && p@ == path_join(credentials_dir_in(h@), name@)),
{
    match credentials_dir(home) {
        Ok(dir) => Ok(join_path(dir.as_str(), name)),
        Err(e) => Err(e),
    }
}

/// The credentials file `~/.zo-tunnel/credentials.yaml`, given the value of `HOME`.
pub fn credentials_path(home: Option<&str>) -> (r: Result<String, ConfigError>)
    ensures
        home is None ==> r matches Err(ConfigError::HomeNotSet),
        home matches Some(h) ==> (r matches Ok(p) && p@ == path_join(credentials_dir_in(h@), "credentials.yaml"@)),
{
    file_in_credentials_dir(home, "credentials.yaml")
}

/// The tunnels file `~/.zo-tunnel/tunnels.yaml`, given the value of `HOME`.
pub fn tunnels_path(home: Option<&str>) -> (r: Result<String, ConfigError>)
    ensures
        home is None ==> r matches Err(ConfigError::HomeNotSet),
        home matches Some(h) ==> (r matches Ok(p) && p@ == path_join(credentials_dir_in(h@), "tunnels.yaml"@)),
{
    file_in_credentials_dir(home, "tunnels.yaml")
}

/// The PID file `~/.zo-tunnel/client.pid`, given the value of `HOME`.
pub fn pid_path(home: Option<&str>) -> (r: Result<String, ConfigError>)
    ensures
        home is None ==> r matches Err(ConfigError::HomeNotSet),
        home matches Some(h) ==> (r matches Ok(p) && p@ == path_join(credentials_dir_in(h@), "client.pid"@)),
{
    file_in_credentials_dir(home, "client.pid")
}

/// `std::path::Path::exists`. Nothing is claimed of the result: it depends on what is on disk.
#[verifier::external_body]
fn path_exists(path: &str) -> bool {
    std::path::Path::new(path).exists()
}

/// Credentials saved after logging in.
#[derive(Debug, Clone)]
pub struct SavedCredentials {
    pub server: String,
    pub token: String,
    pub tls: ClientTlsConfig,
}

/// The token as shown to the user: its first four bytes (when longer than four bytes) followed
/// by `****`; only `****` for a token of at most four bytes.
pub open spec fn masked(token: Seq<char>) -> Seq<char> {
    let bytes = vstd::utf8::encode_utf8(token);
    if bytes.len() <= 4 {
        "****"@
    } else {
        vstd::utf8::decode_utf8(bytes.subrange(0, 4)) + "****"@
    }
}

impl SavedCredentials {
    /// Whether the credentials file exists, given the value of `HOME` (`false` when it is not
    /// set).
    pub fn is_present(home: Option<&str>) -> (r: bool)
        ensures
            home is None ==> !r,
    {
        match credentials_path(home) {
            Ok(p) => path_exists(p.as_str()),
            Err(_) => false,
        }
    }

    /// The token with all but its first four bytes hidden. A token longer than four bytes must
    /// have a character boundary after its fourth byte.
    pub fn masked_token(&self) -> (r: String)
        requires
            vstd::utf8::encode_utf8(self.token@).len() > 4 ==> vstd::utf8::is_char_boundary(
                vstd::utf8::encode_utf8(self.token@),
                4,
            ),
        ensures
            r@ == masked(self.token@),
    {
        let t = self.token.as_str();
        if t.as_bytes().len() <= 4 {
            "****".to_string()
        } else {
            let (visible, _) = t.split_at(4);
            proof {
                vstd::utf8::encode_utf8_decode_utf8(visible@);
                assert(vstd::utf8::encode_utf8(visible@) =~= vstd::utf8::encode_utf8(self.token@).subrange(0, 4));
                assert(visible@ == vstd::utf8::decode_utf8(vstd::utf8::encode_utf8(self.token@).subrange(0, 4)));
            }
            concat(visible, "****")
        }
    }
}


/// A tunnel: its name on the server (`client_id`) and the local service it forwards to.
#[derive(Debug, Clone)]
pub struct TunnelEntry {
    /// Unique ID.
    pub id: String,
    /// Tunnel name, used as subdomain on the server.
    pub client_id: String,
    /// Local service address (e.g. `localhost:3000`).
    pub local_addr: String,
    /// Whether the tunnel starts automatically.
    pub enabled: bool,
}

impl TunnelEntry {
    /// An exact copy of the entry.
    pub fn duplicate(&self) -> (r: Self)
        ensures
            r == *self,
    {
        TunnelEntry {
            id: self.id.clone(),
            client_id: self.client_id.clone(),
            local_addr: self.local_addr.clone(),
            enabled: self.enabled,
        }
    }
}

/// The configured tunnels, kept in `~/.zo-tunnel/tunnels.yaml`.
#[derive(Debug, Clone)]
pub struct TunnelsConfig {
    pub tunnels: Vec<TunnelEntry>,
}

impl Default for TunnelsConfig {
    fn default() -> (r: Self)
        ensures
            r.tunnels@.len() == 0,
    {
        TunnelsConfig { tunnels: Vec::new() }
    }
}

/// The string is empty or only whitespace.
pub open spec fn blank(s: Seq<char>) -> bool {
    trim(s).len() == 0
}

/// Some tunnel has client ID `cid`.
pub open spec fn client_id_taken(s: Seq<TunnelEntry>, cid: Seq<char>) -> bool {
    exists|i: int| 0 <= i < s.len() && (#[trigger] s[i]).client_id@ == cid
}

/// Some tunnel other than those with ID `id` has client ID `cid`.
pub open spec fn client_id_taken_by_other(s: Seq<TunnelEntry>, cid: Seq<char>, id: Seq<char>) -> bool {
    exists|i: int| 0 <= i < s.len() && (#[trigger] s[i]).client_id@ == cid && s[i].id@ != id
}

/// Position of the first tunnel with ID `id`, or the number of tunnels when there is none.
pub open spec fn id_index(s: Seq<TunnelEntry>, id: Seq<char>) -> nat
    decreases s.len(),
{
    if s.len() == 0 {
        0
    } else if s[0].id@ == id {
        0
    } else {
        1 + id_index(s.drop_first(), id)
    }
}

/// The first tunnel with ID `id`.
pub open spec fn entry_with_id(s: Seq<TunnelEntry>, id: Seq<char>) -> Option<TunnelEntry> {
    let i = id_index(s, id);
    if i < s.len() {
        Some(s[i as int])
    } else {
        None
    }
}

/// No two tunnels share a client ID.
pub open spec fn client_ids_unique(s: Seq<TunnelEntry>) -> bool {
    forall|i: int, j: int| 0 <= i < s.len() && 0 <= j < s.len() && i != j ==> s[i].client_id@ != s[j].client_id@
}

/// No two tunnels share an ID.
pub open spec fn ids_unique(s: Seq<TunnelEntry>) -> bool {
    forall|i: int, j: int| 0 <= i < s.len() && 0 <= j < s.len() && i != j ==> s[i].id@ != s[j].id@
}

/// A generated tunnel ID: sixteen lowercase hexadecimal digits.
pub open spec fn hex_id(s: Seq<char>) -> bool {
    s.len() == 16 && forall|i: int| 0 <= i < 16 ==> is_hex_digit(#[trigger] s[i])
}

/// A lowercase hexadecimal digit.
pub open spec fn is_hex_digit(c: char) -> bool {
    ('0' <= c && c <= '9') || ('a' <= c && c <= 'f')
}

/// The lowercase hexadecimal notation of bytes, two digits each, as `format!("{:02x}", b)`
/// writes them.
pub open spec fn hex(bytes: Seq<u8>) -> Seq<char>
    decreases bytes.len(),
{
    if bytes.len() == 0 {
        Seq::empty()
    } else {
        hex(bytes.drop_last()) + seq![hex_char(bytes.last() / 16), hex_char(bytes.last() % 16)]
    }
}

/// The hexadecimal digit of `d` (below 16).
pub open spec fn hex_char(d: u8) -> char {
    if d < 10 {
        (48 + d) as char
    } else {
        (87 + d) as char
    }
}

/// `position` is where the first tunnel with ID `id` is, or the number of tunnels.
pub proof fn lemma_id_index(s: Seq<TunnelEntry>, id: Seq<char>, position: int)
    requires
        0 <= position <= s.len(),
        forall|j: int| 0 <= j < position ==> (#[trigger] s[j]).id@ != id,
        position == s.len() || s[position].id@ == id,
    ensures
        id_index(s, id) == position,
    decreases position,
{
    if position > 0 {
        assert(s[0].id@ != id);
        assert forall|j: int| 0 <= j < position - 1 implies (#[trigger] s.drop_first()[j]).id@ != id by {
            assert(s.drop_first()[j] == s[j + 1]);
        }
        lemma_id_index(s.drop_first(), id, position - 1);
    }
}

/// `getrandom::getrandom` filling `n` bytes. Claimed: when it succeeds, `n` bytes come back;
/// their values are random. `None` when the operating system gave no random bytes.
#[verifier::external_body]
pub(crate) fn random_bytes(n: usize) -> (r: Option<Vec<u8>>)
    ensures
        r matches Some(v) ==> v@.len() == n,
{
    let mut buf = vec![0u8; n];
    match getrandom::getrandom(&mut buf) {
        Ok(()) => Some(buf),
        Err(_) => None,
    }
}

fn hex_digit_str(d: u8) -> (r: &'static str)
    requires
        d < 16,
    ensures
        r@ == seq![hex_char(d)],
{
    let digits = "0123456789abcdef";
    proof {
        reveal_strlit("0123456789abcdef");
    }
    let r = digits.substring_char(d as usize, (d + 1) as usize);
    assert(r@ =~= seq![hex_char(d)]);
    r
}

/// The lowercase hexadecimal notation of `bytes`.
pub fn hex_encode(bytes: &Vec<u8>) -> (r: String)
    ensures
        r@ == hex(bytes@),
        r@.len() == 2 * bytes@.len(),
{
    let mut r = String::new();
    let mut i: usize = 0;
    while i < bytes.len()
        invariant
            i <= bytes@.len(),
            r@ == hex(bytes@.subrange(0, i as int)),
            r@.len() == 2 * i,
        decreases bytes@.len() - i,
    {
        let b = bytes[i];
        r.append(hex_digit_str(b / 16));
        r.append(hex_digit_str(b % 16));
        assert(bytes@.subrange(0, i + 1).drop_last() =~= bytes@.subrange(0, i as int));
        assert(r@ =~= hex(bytes@.subrange(0, i + 1)));
        i = i + 1;
    }
    assert(bytes@.subrange(0, bytes@.len() as int) =~= bytes@);
    r
}

/// Every character of `hex` is a hexadecimal digit.
pub proof fn lemma_hex_digits(bytes: Seq<u8>)
    ensures
        hex(bytes).len() == 2 * bytes.len(),
        forall|i: int| 0 <= i < hex(bytes).len() ==> is_hex_digit(#[trigger] hex(bytes)[i]),
    decreases bytes.len(),
{
    if bytes.len() > 0 {
        lemma_hex_digits(bytes.drop_last());
    }
}

/// Digit `2 * k` of the hexadecimal notation is the high half of byte `k`.
pub proof fn lemma_hex_high(bytes: Seq<u8>, k: int)
    requires
        0 <= k < bytes.len(),
    ensures
        hex(bytes).len() == 2 * bytes.len(),
        hex(bytes)[2 * k] == hex_char(bytes[k] / 16),
    decreases bytes.len(),
{
    lemma_hex_digits(bytes);
    let init = bytes.drop_last();
    lemma_hex_digits(init);
    if k < bytes.len() - 1 {
        lemma_hex_high(init, k);
        assert(init[k] == bytes[k]);
    }
}

/// Whether some tunnel in `s` has client ID `cid`, other than those with ID `except` when given.
fn find_client_id(s: &Vec<TunnelEntry>, cid: &str, except: Option<&str>) -> (r: bool)
    ensures
        except is None ==> r == client_id_taken(s@, cid@),
        except matches Some(id) ==> r == client_id_taken_by_other(s@, cid@, id@),
{
    let mut i: usize = 0;
    while i < s.len()
        invariant
            i <= s@.len(),
            except is None ==> forall|j: int| 0 <= j < i ==> (#[trigger] s@[j]).client_id@ != cid@,
            except matches Some(id) ==> forall|j: int| 0 <= j < i ==> (#[trigger] s@[j]).client_id@ != cid@ || s@[j].id@ == id@,
        decreases s@.len() - i,
    {
        let t = &s[i];
        if str_eq(t.client_id.as_str(), cid) {
            match except {
                None => {
                    return true;
                },
                Some(id) => {
                    if !str_eq(t.id.as_str(), id) {
                        return true;
                    }
                },
            }
        }
        i = i + 1;
    }
    false
}

/// Position of the first tunnel with ID `id`, or the number of tunnels.
pub(crate) fn position_of(s: &Vec<TunnelEntry>, id: &str) -> (r: usize)
    ensures
        r == id_index(s@, id@),
        r <= s@.len(),
{
    let mut i: usize = 0;
    while i < s.len() && !str_eq(s[i].id.as_str(), id)
        invariant
            i <= s@.len(),
            forall|j: int| 0 <= j < i ==> (#[trigger] s@[j]).id@ != id@,
        decreases s@.len() - i,
    {
        i = i + 1;
    }
    proof {
        lemma_id_index(s@, id@, i as int);
    }
    i
}

/// `added` is `entry` as it was added: the same fields, and a generated ID when `entry` had none.
pub open spec fn added_entry(entry: TunnelEntry, added: TunnelEntry) -> bool {
    &&& added.client_id == entry.client_id
    &&& added.local_addr == entry.local_addr
    &&& added.enabled == entry.enabled
    &&& entry.id@.len() > 0 ==> added.id == entry.id
    &&& entry.id@.len() == 0 ==> hex_id(added.id@)
}

/// What adding `entry` to the tunnels `before` may give: the tunnels `after` and the result `r`
/// that [`TunnelsConfig::add_tunnel`] promises. An entry that passes the checks of its fields
/// is added with its own ID, refused when that ID is in use, or, without an ID, added with a
/// fresh generated one (refused when no random bytes came, or the generated ID is in use).
pub open spec fn tunnel_added(
    before: Seq<TunnelEntry>,
    entry: TunnelEntry,
    after: Seq<TunnelEntry>,
    r: Result<TunnelEntry, ConfigError>,
) -> bool {
    &&& (blank(entry.client_id@) ==> r matches Err(ConfigError::EmptyClientId))
    &&& (!blank(entry.client_id@) && blank(entry.local_addr@) ==> r matches Err(ConfigError::EmptyLocalAddr))
    &&& (!blank(entry.client_id@) && !blank(entry.local_addr@) && client_id_taken(before, entry.client_id@)
        ==> (r matches Err(ConfigError::DuplicateClientId(c)) && c@ == entry.client_id@))
    &&& (!blank(entry.client_id@) && !blank(entry.local_addr@) && !client_id_taken(before, entry.client_id@)
        && entry.id@.len() > 0 ==> if entry_with_id(before, entry.id@) is Some {
        r matches Err(ConfigError::DuplicateId(i)) && i@ == entry.id@
    } else {
        r matches Ok(a) && a == entry
    })
    &&& (!blank(entry.client_id@) && !blank(entry.local_addr@) && !client_id_taken(before, entry.client_id@)
        && entry.id@.len() == 0 ==> (r matches Ok(a) || r matches Err(ConfigError::NoRandomness) || (r matches Err(
        ConfigError::DuplicateId(i),
    ) && hex_id(i@) && entry_with_id(before, i@) is Some)))
    &&& (r matches Ok(a) ==> added_entry(entry, a) && entry_with_id(before, a.id@) is None && after == before.push(a))
    &&& (r is Err ==> after == before)
}

/// What updating the tunnel with ID `id` in `before` gives: the tunnels `after` and the result
/// `r` that [`TunnelsConfig::update_tunnel`] promises.
pub open spec fn tunnel_updated(
    before: Seq<TunnelEntry>,
    id: Seq<char>,
    client_id: String,
    local_addr: String,
    enabled: bool,
    after: Seq<TunnelEntry>,
    r: Result<TunnelEntry, ConfigError>,
) -> bool {
    &&& (blank(client_id@) ==> r matches Err(ConfigError::EmptyClientId))
    &&& (!blank(client_id@) && blank(local_addr@) ==> r matches Err(ConfigError::EmptyLocalAddr))
    &&& (!blank(client_id@) && !blank(local_addr@) && client_id_taken_by_other(before, client_id@, id)
        ==> (r matches Err(ConfigError::DuplicateClientId(c)) && c@ == client_id@))
    &&& (!blank(client_id@) && !blank(local_addr@) && !client_id_taken_by_other(before, client_id@, id)
        && entry_with_id(before, id) is None ==> (r matches Err(ConfigError::NotFound(i)) && i@ == id))
    &&& (!blank(client_id@) && !blank(local_addr@) && !client_id_taken_by_other(before, client_id@, id)
        && entry_with_id(before, id) is Some ==> (r matches Ok(u) && ({
            let i = id_index(before, id) as int;
            &&& u.id == before[i].id
            &&& u.client_id == client_id
            &&& u.local_addr == local_addr
            &&& u.enabled == enabled
            &&& after == before.update(i, u)
        })))
    &&& (r is Err ==> after == before)
}

/// What removing the tunnel with ID `id` from `before` gives: the tunnels `after` and the result
/// `r` that [`TunnelsConfig::remove_tunnel`] promises.
pub open spec fn tunnel_removed(
    before: Seq<TunnelEntry>,
    id: Seq<char>,
    after: Seq<TunnelEntry>,
    r: Result<TunnelEntry, ConfigError>,
) -> bool {
    &&& (entry_with_id(before, id) is None ==> (r matches Err(ConfigError::NotFound(i)) && i@ == id)
        && after == before)
    &&& (entry_with_id(before, id) is Some ==> (r matches Ok(e) && Some(e) == entry_with_id(before, id)
        && after == before.remove(id_index(before, id) as int)))
}

impl TunnelsConfig {
    /// A new tunnel ID: eight random bytes in hexadecimal; `None` when the operating system
    /// gave no random bytes.
    pub fn generate_id() -> (r: Option<String>)
        ensures
            r matches Some(id) ==> hex_id(id@),
    {
        let bytes = match random_bytes(8) {
            Some(b) => b,
            None => return None,
        };
        let r = hex_encode(&bytes);
        proof {
            lemma_hex_digits(bytes@);
        }
        Some(r)
    }

    /// Adds a tunnel. Refused when its client ID or local address is blank, or its client ID is
    /// taken. It keeps its ID, refused when another tunnel has it; without an ID it gets a
    /// generated one. A refusal leaves the tunnels as they were; no two tunnels come to share an
    /// ID.
    pub fn add_tunnel(&mut self, entry: TunnelEntry) -> (r: Result<TunnelEntry, ConfigError>)
        ensures
            tunnel_added(old(self).tunnels@, entry, final(self).tunnels@, r),
            ids_unique(old(self).tunnels@) ==> ids_unique(final(self).tunnels@),
    {
        if trim_str(entry.client_id.as_str()).is_empty() {
            return Err(ConfigError::EmptyClientId);
        }
        if trim_str(entry.local_addr.as_str()).is_empty() {
            return Err(ConfigError::EmptyLocalAddr);
        }
        if find_client_id(&self.tunnels, entry.client_id.as_str(), None) {
            return Err(ConfigError::DuplicateClientId(entry.client_id));
        }
        let mut entry = entry;
        if entry.id.as_str().is_empty() {
            entry.id = match Self::generate_id() {
                Some(id) => id,
                None => return Err(ConfigError::NoRandomness),
            };
            proof {
                assert(entry.id@.len() == 16);
            }
        }
        proof {
            lemma_id_index_bound(self.tunnels@, entry.id@);
        }
        if position_of(&self.tunnels, entry.id.as_str()) < self.tunnels.len() {
            return Err(ConfigError::DuplicateId(entry.id));
        }
        proof {
            if ids_unique(self.tunnels@) {
                law_add_keeps_ids_unique(self.tunnels@, entry);
            }
        }
        self.tunnels.push(entry.duplicate());
        Ok(entry)
    }

    /// Updates the first tunnel with ID `id`. Refused when the client ID or local address is
    /// blank, when another tunnel has the client ID, or when no tunnel has the ID; a refusal
    /// leaves the tunnels as they were.
    pub fn update_tunnel(&mut self, id: &str, client_id: String, local_addr: String, enabled: bool) -> (r: Result<TunnelEntry, ConfigError>)
        ensures
            blank(client_id@) ==> r matches Err(ConfigError::EmptyClientId),
            !blank(client_id@) && blank(local_addr@) ==> r matches Err(ConfigError::EmptyLocalAddr),
            !blank(client_id@) && !blank(local_addr@) && client_id_taken_by_other(old(self).tunnels@, client_id@, id@)
                ==> (r matches Err(ConfigError::DuplicateClientId(c)) && c@ == client_id@),
            !blank(client_id@) && !blank(local_addr@) && !client_id_taken_by_other(old(self).tunnels@, client_id@, id@)
                && entry_with_id(old(self).tunnels@, id@) is None ==> (r matches Err(ConfigError::NotFound(i)) && i@ == id@),
            !blank(client_id@) && !blank(local_addr@) && !client_id_taken_by_other(old(self).tunnels@, client_id@, id@)
                && entry_with_id(old(self).tunnels@, id@) is Some ==> (r matches Ok(u) && ({
                    let i = id_index(old(self).tunnels@, id@) as int;
                    &&& u.id == old(self).tunnels@[i].id
                    &&& u.client_id == client_id
                    &&& u.local_addr == local_addr
                    &&& u.enabled == enabled
                    &&& final(self).tunnels@ == old(self).tunnels@.update(i, u)
                })),
            r is Err ==> final(self).tunnels@ == old(self).tunnels@,
            tunnel_updated(old(self).tunnels@, id@, client_id, local_addr, enabled, final(self).tunnels@, r),
            ids_unique(old(self).tunnels@) ==> ids_unique(final(self).tunnels@),
    {
        if trim_str(client_id.as_str()).is_empty() {
            return Err(ConfigError::EmptyClientId);
        }
        if trim_str(local_addr.as_str()).is_empty() {
            return Err(ConfigError::EmptyLocalAddr);
        }
        if find_client_id(&self.tunnels, client_id.as_str(), Some(id)) {
            return Err(ConfigError::DuplicateClientId(client_id));
        }
        let i = position_of(&self.tunnels, id);
        if i == self.tunnels.len() {
            return Err(ConfigError::NotFound(id.to_string()));
        }
        let updated = TunnelEntry { id: self.tunnels[i].id.clone(), client_id, local_addr, enabled };
        proof {
            if ids_unique(self.tunnels@) {
                law_update_keeps_ids_unique(self.tunnels@, i as int, updated);
            }
        }
        self.tunnels.set(i, updated.duplicate());
        Ok(updated)
    }

    /// Removes the first tunnel with ID `id` and returns it; refused when no tunnel has the ID.
    pub fn remove_tunnel(&mut self, id: &str) -> (r: Result<TunnelEntry, ConfigError>)
        ensures
            entry_with_id(old(self).tunnels@, id@) is None ==> (r matches Err(ConfigError::NotFound(i)) && i@ == id@)
                && final(self).tunnels@ == old(self).tunnels@,
            entry_with_id(old(self).tunnels@, id@) is Some ==> (r matches Ok(e) && Some(e) == entry_with_id(old(self).tunnels@, id@)
                && final(self).tunnels@ == old(self).tunnels@.remove(id_index(old(self).tunnels@, id@) as int)),
            tunnel_removed(old(self).tunnels@, id@, final(self).tunnels@, r),
            ids_unique(old(self).tunnels@) ==> ids_unique(final(self).tunnels@),
    {
        let i = position_of(&self.tunnels, id);
        if i == self.tunnels.len() {
            return Err(ConfigError::NotFound(id.to_string()));
        }
        proof {
            if ids_unique(self.tunnels@) {
                law_remove_keeps_ids_unique(self.tunnels@, i as int);
            }
        }
        let removed = self.tunnels.remove(i);
        Ok(removed)
    }

    /// The first tunnel with ID `id`.
    pub fn get_tunnel(&self, id: &str) -> (r: Option<&TunnelEntry>)
        ensures
            match r {
                Some(e) => entry_with_id(self.tunnels@, id@) == Some(*e),
                None => entry_with_id(self.tunnels@, id@) is None,
            },
    {
        let i = position_of(&self.tunnels, id);
        if i == self.tunnels.len() {
            None
        } else {
            Some(&self.tunnels[i])
        }
    }
}


/// A tunnel just added can be looked up by its ID, provided no earlier tunnel has that ID.
pub proof fn law_get_after_add(s: Seq<TunnelEntry>, a: TunnelEntry)
    requires
        entry_with_id(s, a.id@) is None,
    ensures
        entry_with_id(s.push(a), a.id@) == Some(a),
        id_index(s.push(a), a.id@) == s.len(),
{
    let t = s.push(a);
    assert forall|j: int| 0 <= j < s.len() implies (#[trigger] t[j]).id@ != a.id@ by {
        lemma_id_index_first(s, a.id@, j);
    }
    lemma_id_index(t, a.id@, s.len() as int);
}

/// Before `id_index` no tunnel has the ID.
pub proof fn lemma_id_index_first(s: Seq<TunnelEntry>, id: Seq<char>, j: int)
    requires
        0 <= j < id_index(s, id),
    ensures
        s[j].id@ != id,
        id_index(s, id) <= s.len(),
    decreases s.len(),
{
    if s.len() > 0 && s[0].id@ != id && j > 0 {
        lemma_id_index_first(s.drop_first(), id, j - 1);
    }
    lemma_id_index_bound(s, id);
}

/// `id_index` never passes the end, and where it stops the tunnel has the ID.
pub proof fn lemma_id_index_bound(s: Seq<TunnelEntry>, id: Seq<char>)
    ensures
        id_index(s, id) <= s.len(),
        id_index(s, id) < s.len() ==> s[id_index(s, id) as int].id@ == id,
    decreases s.len(),
{
    if s.len() > 0 && s[0].id@ != id {
        lemma_id_index_bound(s.drop_first(), id);
    }
}

/// Removing a tunnel just added, by its ID, gives back the tunnels as they were, provided no
/// earlier tunnel has that ID.
pub proof fn law_remove_undoes_add(s: Seq<TunnelEntry>, a: TunnelEntry)
    requires
        entry_with_id(s, a.id@) is None,
    ensures
        entry_with_id(s.push(a), a.id@) == Some(a),
        s.push(a).remove(id_index(s.push(a), a.id@) as int) == s,
{
    law_get_after_add(s, a);
    lemma_id_index_bound(s, a.id@);
    assert(s.push(a).remove(s.len() as int) =~= s);
}

/// An updated tunnel reads back with its new fields.
pub proof fn law_get_after_update(s: Seq<TunnelEntry>, id: Seq<char>, u: TunnelEntry)
    requires
        entry_with_id(s, id) is Some,
        u.id == s[id_index(s, id) as int].id,
    ensures
        entry_with_id(s.update(id_index(s, id) as int, u), id) == Some(u),
{
    let i = id_index(s, id) as int;
    let t = s.update(i, u);
    lemma_id_index_bound(s, id);
    assert forall|j: int| 0 <= j < i implies (#[trigger] t[j]).id@ != id by {
        lemma_id_index_first(s, id, j);
    }
    lemma_id_index(t, id, i);
}

/// Adding keeps client IDs unique: an accepted tunnel's client ID was not taken.
pub proof fn law_add_keeps_client_ids_unique(s: Seq<TunnelEntry>, a: TunnelEntry)
    requires
        client_ids_unique(s),
        !client_id_taken(s, a.client_id@),
    ensures
        client_ids_unique(s.push(a)),
{
    let t = s.push(a);
    assert forall|i: int, j: int| 0 <= i < t.len() && 0 <= j < t.len() && i != j implies t[i].client_id@ != t[j].client_id@ by {
        if i == s.len() {
            assert(t[j] == s[j]);
        } else if j == s.len() {
            assert(t[i] == s[i]);
        }
    }
}

/// Updating keeps client IDs unique, when tunnel IDs are unique too: the new client ID is held by
/// no other tunnel. (With two tunnels of the same ID, the second could hold the client ID that the
/// first is updated to.)
pub proof fn law_update_keeps_client_ids_unique(s: Seq<TunnelEntry>, id: Seq<char>, u: TunnelEntry)
    requires
        client_ids_unique(s),
        ids_unique(s),
        entry_with_id(s, id) is Some,
        u.id == s[id_index(s, id) as int].id,
        !client_id_taken_by_other(s, u.client_id@, id),
    ensures
        client_ids_unique(s.update(id_index(s, id) as int, u)),
{
    let k = id_index(s, id) as int;
    lemma_id_index_bound(s, id);
    let t = s.update(k, u);
    assert forall|i: int, j: int| 0 <= i < t.len() && 0 <= j < t.len() && i != j implies t[i].client_id@ != t[j].client_id@ by {
        if i == k {
            assert(t[j] == s[j]);
            if s[j].client_id@ == u.client_id@ {
                assert(s[j].id@ == id);
            }
        } else if j == k {
            assert(t[i] == s[i]);
            if s[i].client_id@ == u.client_id@ {
                assert(s[i].id@ == id);
            }
        }
    }
}

/// Removing keeps client IDs unique.
pub proof fn law_remove_keeps_client_ids_unique(s: Seq<TunnelEntry>, i: int)
    requires
        client_ids_unique(s),
        0 <= i < s.len(),
    ensures
        client_ids_unique(s.remove(i)),
{
    let t = s.remove(i);
    assert forall|a: int, b: int| 0 <= a < t.len() && 0 <= b < t.len() && a != b implies t[a].client_id@ != t[b].client_id@ by {
        let a2 = if a < i { a } else { a + 1 };
        let b2 = if b < i { b } else { b + 1 };
        assert(t[a] == s[a2]);
        assert(t[b] == s[b2]);
    }
}

/// Adding a tunnel whose ID no tunnel has keeps the IDs unique.
pub proof fn law_add_keeps_ids_unique(s: Seq<TunnelEntry>, a: TunnelEntry)
    requires
        ids_unique(s),
        entry_with_id(s, a.id@) is None,
    ensures
        ids_unique(s.push(a)),
{
    let t = s.push(a);
    assert forall|i: int, j: int| 0 <= i < t.len() && 0 <= j < t.len() && i != j implies t[i].id@ != t[j].id@ by {
        if i == s.len() {
            lemma_id_index_first(s, a.id@, j);
        } else if j == s.len() {
            lemma_id_index_first(s, a.id@, i);
        } else {
            assert(t[i] == s[i] && t[j] == s[j]);
        }
    }
}

/// Updating a tunnel in place, with its ID kept, keeps the IDs unique.
pub proof fn law_update_keeps_ids_unique(s: Seq<TunnelEntry>, k: int, u: TunnelEntry)
    requires
        ids_unique(s),
        0 <= k < s.len(),
        u.id == s[k].id,
    ensures
        ids_unique(s.update(k, u)),
{
    let t = s.update(k, u);
    assert forall|i: int, j: int| 0 <= i < t.len() && 0 <= j < t.len() && i != j implies t[i].id@ != t[j].id@ by {
        assert(t[i].id == s[i].id && t[j].id == s[j].id);
    }
}

/// Removing a tunnel keeps the IDs unique.
pub proof fn law_remove_keeps_ids_unique(s: Seq<TunnelEntry>, k: int)
    requires
        ids_unique(s),
        0 <= k < s.len(),
    ensures
        ids_unique(s.remove(k)),
{
    let t = s.remove(k);
    assert forall|a: int, b: int| 0 <= a < t.len() && 0 <= b < t.len() && a != b implies t[a].id@ != t[b].id@ by {
        let a2 = if a < k { a } else { a + 1 };
        let b2 = if b < k { b } else { b + 1 };
        assert(t[a] == s[a2] && t[b] == s[b2]);
    }
}

} // verus!
