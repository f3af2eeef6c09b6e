//! The client's process bookkeeping: the PID file and recognising our own binary.
use vstd::prelude::*;
use crate::text::{opt_str_view, find_char, lemma_split_step, split_char, str_eq, strip_suffix, trim, trim_str};

verus! {

/// An ASCII decimal digit.
pub open spec fn is_digit(c: char) -> bool {
    48 <= (c as u32) <= 57
}

/// The value of a string of decimal digits.
pub open spec fn digits_value(s: Seq<char>) -> nat
    decreases s.len(),
{
    if s.len() == 0 {
        0
    } else {
        10 * digits_value(s.drop_last()) + ((s.last() as u32) - 48) as nat
    }
}

/// What `str::parse::<u32>` accepts: an optional `+`, then one or more decimal digits whose value
/// fits in a `u32`.
pub open spec fn parsed_u32(s: Seq<char>) -> Option<u32> {
    let d = unsigned_part(s);
    if d.len() > 0 && all_digits(d) && digits_value(d) <= u32::MAX {
        Some(digits_value(d) as u32)
    } else {
        None
    }
}

/// The string after an optional leading `+`.
pub open spec fn unsigned_part(s: Seq<char>) -> Seq<char> {
    if s.len() > 0 && s[0] == '+' {
        s.drop_first()
    } else {
        s
    }
}

/// Every character is a decimal digit.
pub open spec fn all_digits(d: Seq<char>) -> bool {
    forall|i: int| 0 <= i < d.len() ==> is_digit(#[trigger] d[i])
}

/// The value of a digit string is at least that of each of its prefixes.
pub proof fn lemma_digits_value_prefix(s: Seq<char>, i: int)
    requires
        0 <= i <= s.len(),
        forall|k: int| 0 <= k < s.len() ==> is_digit(#[trigger] s[k]),
    ensures
        digits_value(s.subrange(0, i)) <= digits_value(s),
    decreases s.len() - i,
{
    if i < s.len() {
        let t = s.drop_last();
        assert forall|k: int| 0 <= k < t.len() implies is_digit(#[trigger] t[k]) by {
            assert(t[k] == s[k]);
        }
        if i < t.len() {
            lemma_digits_value_prefix(t, i);
            assert(t.subrange(0, i) =~= s.subrange(0, i));
        } else {
            assert(t =~= s.subrange(0, i));
        }
    } else {
        assert(s.subrange(0, i) =~= s);
    }
}

/// `s.parse::<u32>().ok()`.
pub fn parse_u32(s: &str) -> (r: Option<u32>)
    ensures
        r == parsed_u32(s@),
{
    let n = s.unicode_len();
    let start: usize = if n > 0 && s.get_char(0) == '+' { 1 } else { 0 };
    let ghost d = unsigned_part(s@);
    assert(d =~= s@.subrange(start as int, n as int));
    if start == n {
        return None;
    }
    let mut acc: u64 = 0;
    let mut i: usize = start;
    while i < n
        invariant
            n == s@.len(),
            start < n,
            start <= i <= n,
            d == s@.subrange(start as int, n as int),
            d == unsigned_part(s@),
            forall|k: int| 0 <= k < i - start ==> is_digit(#[trigger] d[k]),
            acc == digits_value(d.subrange(0, i - start)),
            acc <= u32::MAX,
        decreases n - i,
    {
        let c = s.get_char(i);
        let u = c as u32;
        if u < 48 || u > 57 {
            assert(!is_digit(d[i - start]));
            return None;
        }
        assert(d.subrange(0, i + 1 - start).drop_last() =~= d.subrange(0, i - start));
        acc = acc * 10 + (u - 48) as u64;
        if acc > 4294967295 {
            proof {
                if all_digits(d) {
                    lemma_digits_value_prefix(d, i + 1 - start);
                }
            }
            return None;
        }
        i = i + 1;
    }
    assert(d.subrange(0, n - start) =~= d);
    Some(acc as u32)
}

/// The PID recorded in the PID file's content, if it holds one (surrounding whitespace allowed).
pub fn parse_pid(content: &str) -> (r: Option<u32>)
    ensures
        r == parsed_u32(trim(content@)),
{
    parse_u32(trim_str(content))
}


/// A path component that names something: not empty and not `.`.
pub open spec fn normal_component(c: Seq<char>) -> bool {
    c.len() > 0 && c != seq!['.']
}

/// The last component among `segs` that names something.
pub open spec fn last_normal(segs: Seq<Seq<char>>) -> Option<Seq<char>>
    decreases segs.len(),
{
    if segs.len() == 0 {
        None
    } else if normal_component(segs.last()) {
        Some(segs.last())
    } else {
        last_normal(segs.drop_last())
    }
}

/// What `Path::file_name` gives on Unix: the last component of the path, ignoring empty and `.`
/// components, unless that is `..` or there is none.
pub open spec fn file_name_of(p: Seq<char>) -> Option<Seq<char>> {
    match last_normal(split_char(p, '/')) {
        Some(c) => if c == seq!['.', '.'] {
            None
        } else {
            Some(c)
        },
        None => None,
    }
}

/// `Path::new(p).file_name()` on Unix, as a string slice.
pub fn file_name(p: &str) -> (r: Option<&str>)
    ensures
        match r {
            Some(f) => file_name_of(p@) == Some(f@),
            None => file_name_of(p@) is None,
        },
{
    let n = p.unicode_len();
    let mut pos: usize = 0;
    let mut last: Option<(usize, usize)> = None;
    let ghost mut done: Seq<Seq<char>> = Seq::empty();
    assert(p@.subrange(0, n as int) =~= p@);
    assert(split_char(p@, '/') =~= done + split_char(p@.subrange(0, n as int), '/'));
    loop
        invariant_except_break
            split_char(p@, '/') == done + split_char(p@.subrange(pos as int, n as int), '/'),
        invariant
            n == p@.len(),
            pos <= n,
            last_normal(done) == match last {
                Some((a, b)) => Some(p@.subrange(a as int, b as int)),
                None => None,
            },
            last matches Some((a, b)) ==> a <= b <= n,
        ensures
            split_char(p@, '/') == done,
        decreases n - pos,
    {
        let j = find_char(p, '/', pos);
        proof {
            lemma_split_step(p@, '/', pos as int, j as int);
        }
        let seg = p.substring_char(pos, j);
        let dot = str_eq(seg, ".");
        proof {
            reveal_strlit(".");
            assert("."@ =~= seq!['.']);
        }
        if j > pos && !dot {
            last = Some((pos, j));
        }
        proof {
            let old_done = done;
            done = done.push(seg@);
            assert(done.drop_last() =~= old_done);
            if j < n {
                assert(split_char(p@, '/') =~= done + split_char(p@.subrange(j + 1, n as int), '/'));
            } else {
                assert(split_char(p@, '/') =~= done);
            }
        }
        if j == n {
            break;
        }
        pos = j + 1;
    }
    match last {
        Some((a, b)) => {
            let c = p.substring_char(a, b);
            proof {
                reveal_strlit("..");
                assert(".."@ =~= seq!['.', '.']);
            }
            if str_eq(c, "..") {
                None
            } else {
                Some(c)
            }
        },
        None => None,
    }
}

/// The path names the `zo-tunnel-client` binary: its file name, after dropping a ` (deleted)`
/// suffix, is exactly `zo-tunnel-client`.
pub open spec fn binary_path(path: Seq<char>) -> bool {
    file_name_of(if crate::text::ends_with(path, " (deleted)"@) {
        path.subrange(0, path.len() - " (deleted)"@.len())
    } else {
        path
    }) == Some("zo-tunnel-client"@)
}

/// Whether a path (as `/proc/<pid>/exe` or the first word of `/proc/<pid>/cmdline` gives it)
/// is a `zo-tunnel-client` binary.
pub fn is_zo_tunnel_binary(path: &str) -> (r: bool)
    ensures
        r == binary_path(path@),
{
    let cleaned = match strip_suffix(path, " (deleted)") {
        Some(c) => c,
        None => path,
    };
    match file_name(cleaned) {
        Some(f) => str_eq(f, "zo-tunnel-client"),
        None => false,
    }
}

/// What to do with the PID file when the client starts in the foreground.
#[derive(Debug, Clone, Copy, PartialEq, Eq, Structural)]
pub enum PidClaim {
    /// The file already holds our PID (the parent wrote it).
    AlreadyOurs,
    /// Another running client owns the file: refuse to start.
    Refuse(u32),
    /// Write our PID.
    Claim,
}

/// Decides about the PID file, given the PID it records (if any), our PID, and whether the
/// recorded process is a running `zo-tunnel-client`.
pub fn pid_claim(recorded: Option<u32>, own_pid: u32, recorded_is_running_client: bool) -> (r: PidClaim)
    ensures
        recorded == Some(own_pid) ==> r == PidClaim::AlreadyOurs,
        recorded matches Some(p) ==> (p != own_pid && recorded_is_running_client ==> r == PidClaim::Refuse(p)),
        recorded matches Some(p) ==> (p != own_pid && !recorded_is_running_client ==> r == PidClaim::Claim),
        recorded is None ==> r == PidClaim::Claim,
{
    match recorded {
        Some(p) => {
            if p == own_pid {
                PidClaim::AlreadyOurs
            } else if recorded_is_running_client {
                PidClaim::Refuse(p)
            } else {
                PidClaim::Claim
            }
        },
        None => PidClaim::Claim,
    }
}


/// Whether a recorded PID may be probed with `kill(pid, 0)`: PID 0 would address the whole
/// process group, so it never names a client.
pub fn signalable(pid: u32) -> (r: bool)
    ensures
        r == (pid != 0),
{
    pid != 0
}

/// What the PID file says about a client process.
#[derive(Debug, Clone, Copy, PartialEq, Eq, Structural)]
pub enum PidStatus {
    /// There is no PID file, or it holds no PID.
    NoFile,
    /// The recorded process is not a running client: the file is stale.
    Stale(u32),
    /// The recorded process is a running client.
    Running(u32),
}

/// Classifies the PID file, given the PID it records (if any) and whether that process is a
/// running `zo-tunnel-client`.
pub fn pid_status(recorded: Option<u32>, recorded_is_ours: bool) -> (r: PidStatus)
    ensures
        recorded is None ==> r == PidStatus::NoFile,
        recorded matches Some(p) ==> r == if recorded_is_ours {
            PidStatus::Running(p)
        } else {
            PidStatus::Stale(p)
        },
{
    match recorded {
        Some(p) => {
            if recorded_is_ours {
                PidStatus::Running(p)
            } else {
                PidStatus::Stale(p)
            }
        },
        None => PidStatus::NoFile,
    }
}

/// `std::str::from_utf8`: the bytes as a string when they are valid UTF-8, as its documentation
/// says.
#[verifier::external_body]
fn utf8_str(bytes: &[u8]) -> (r: Option<&str>)
    ensures
        r is Some <==> vstd::utf8::valid_utf8(bytes@),
        r matches Some(s) ==> s@ == vstd::utf8::decode_utf8(bytes@),
{
    std::str::from_utf8(bytes).ok()
}

/// Position of the first zero byte, or the length when there is none.
pub open spec fn nul_index(b: Seq<u8>) -> nat
    decreases b.len(),
{
    if b.len() == 0 {
        0
    } else if b[0] == 0 {
        0
    } else {
        1 + nul_index(b.drop_first())
    }
}

/// The first NUL-separated field of `/proc/<pid>/cmdline`: the program's path as it was started.
pub open spec fn first_field(b: Seq<u8>) -> Seq<u8> {
    b.subrange(0, nul_index(b) as int)
}

proof fn lemma_nul_index(b: Seq<u8>, k: int)
    requires
        0 <= k <= b.len(),
        forall|j: int| 0 <= j < k ==> b[j] != 0,
        k == b.len() || b[k] == 0,
    ensures
        nul_index(b) == k,
    decreases k,
{
    if k > 0 {
        assert forall|j: int| 0 <= j < k - 1 implies b.drop_first()[j] != 0 by {
            assert(b.drop_first()[j] == b[j + 1]);
        }
        lemma_nul_index(b.drop_first(), k - 1);
    }
}

/// Whether the process with a recorded PID is our client: it must be alive; then its executable
/// (`/proc/<pid>/exe`), when readable, must be the client binary; else the first field of its
/// command line (`/proc/<pid>/cmdline`), when readable and valid UTF-8, must be. With neither to
/// go by, a live process counts as ours.
pub open spec fn process_ours(alive: bool, exe: Option<Seq<char>>, cmdline: Option<Seq<u8>>) -> bool {
    if !alive {
        false
    } else {
        match exe {
            Some(p) => binary_path(p),
            None => match cmdline {
                Some(c) => if vstd::utf8::valid_utf8(first_field(c)) {
                    binary_path(vstd::utf8::decode_utf8(first_field(c)))
                } else {
                    true
                },
                None => true,
            },
        }
    }
}

/// Decides whether a recorded PID belongs to a running client, from whether the process is
/// alive and what `/proc` gave of its executable and command line.
pub fn is_our_process(alive: bool, exe: Option<&str>, cmdline: Option<&[u8]>) -> (r: bool)
    ensures
        r == process_ours(alive, opt_str_view(exe), match cmdline {
            Some(c) => Some(c@),
            None => None,
        }),
{
    if !alive {
        return false;
    }
    if let Some(p) = exe {
        return is_zo_tunnel_binary(p);
    }
    let c = match cmdline {
        Some(c) => c,
        None => return true,
    };
    let mut k: usize = 0;
    while k < c.len() && c[k] != 0
        invariant
            k <= c@.len(),
            forall|j: int| 0 <= j < k ==> c@[j] != 0,
        decreases c@.len() - k,
    {
        k = k + 1;
    }
    proof {
        lemma_nul_index(c@, k as int);
    }
    let arg0 = slice_prefix(c, k);
    match utf8_str(arg0) {
        Some(a) => is_zo_tunnel_binary(a),
        None => true,
    }
}

/// The first `k` bytes of `c`.
fn slice_prefix(c: &[u8], k: usize) -> (r: &[u8])
    requires
        k <= c@.len(),
    ensures
        r@ == c@.subrange(0, k as int),
{
    let (a, _) = c.split_at(k);
    a
}
} // verus!
