//! Checks of the requests that the client's web UI sends.
use vstd::prelude::*;
use crate::text::{concat, decimal, decimal_string, trim, trim_str};

verus! {

/// Whether `char::is_alphanumeric` holds of `c` (Unicode `Alphabetic` or `Numeric`).
pub uninterp spec fn char_alphanumeric(c: char) -> bool;

/// An ASCII letter or digit.
pub open spec fn ascii_alphanumeric(c: char) -> bool {
    ||| 48 <= (c as u32) <= 57
    ||| 65 <= (c as u32) <= 90
    ||| 97 <= (c as u32) <= 122
}

/// `char::is_alphanumeric`: the result is [`char_alphanumeric`] of the character. Claimed
/// beside it, as its documentation gives: among ASCII characters exactly the letters and digits
/// are alphabetic or numeric.
#[verifier::external_body]
fn is_alphanumeric(c: char) -> (r: bool)
    ensures
        r == char_alphanumeric(c),
        (c as u32) < 128 ==> (r == ascii_alphanumeric(c)),
{
    c.is_alphanumeric()
}

/// A character allowed in a tunnel name: alphanumeric, `-` or `_`.
pub open spec fn name_char(c: char) -> bool {
    char_alphanumeric(c) || c == '-' || c == '_'
}

/// Every character of `s` is allowed in a tunnel name.
pub open spec fn valid_name(s: Seq<char>) -> bool {
    forall|i: int| 0 <= i < s.len() ==> name_char(#[trigger] s[i])
}

/// Every character of `s` is ASCII.
pub open spec fn all_ascii(s: Seq<char>) -> bool {
    forall|i: int| 0 <= i < s.len() ==> (#[trigger] s[i] as u32) < 128
}

/// An ASCII name of letters, digits, `-` and `_`.
pub open spec fn ascii_name(s: Seq<char>) -> bool {
    forall|i: int| 0 <= i < s.len() ==> ascii_alphanumeric(#[trigger] s[i]) || s[i] == '-' || s[i] == '_'
}

/// Whether every character of `s` is allowed in a tunnel name. For an ASCII string that means
/// letters, digits, `-` and `_` only.
pub fn is_valid_name(s: &str) -> (r: bool)
    ensures
        r == valid_name(s@),
        all_ascii(s@) ==> (r == ascii_name(s@)),
{
    let n = s.unicode_len();
    let mut i: usize = 0;
    while i < n
        invariant
            n == s@.len(),
            i <= n,
            forall|k: int| 0 <= k < i ==> name_char(#[trigger] s@[k]),
            forall|k: int|
                0 <= k < i && (s@[k] as u32) < 128 ==> ascii_alphanumeric(#[trigger] s@[k]) || s@[k] == '-'
                    || s@[k] == '_',
        decreases n - i,
    {
        let c = s.get_char(i);
        if !(is_alphanumeric(c) || c == '-' || c == '_') {
            assert(!name_char(s@[i as int]));
            proof {
                if all_ascii(s@) {
                    assert((s@[i as int] as u32) < 128);
                    assert(!ascii_name(s@));
                }
            }
            return false;
        }
        i = i + 1;
    }
    true
}

/// Checks a connect request: both fields are trimmed and must not be empty.
pub fn check_connect_request(server: &str, token: &str) -> (r: Result<(String, String), String>)
    ensures
        trim(server@).len() == 0 ==> (r matches Err(m) && m@ == "Server address is required"@),
        trim(server@).len() > 0 && trim(token@).len() == 0 ==> (r matches Err(m) && m@ == "Token is required"@),
        trim(server@).len() > 0 && trim(token@).len() > 0 ==> (r matches Ok((s, t)) && s@ == trim(server@)
            && t@ == trim(token@)),
{
    let s = trim_str(server);
    let t = trim_str(token);
    if s.unicode_len() == 0 {
        return Err("Server address is required".to_string());
    }
    if t.unicode_len() == 0 {
        return Err("Token is required".to_string());
    }
    Ok((s.to_string(), t.to_string()))
}

/// The message for a tunnel name with characters that are not allowed.
pub open spec fn bad_name_msg() -> Seq<char> {
    "client_id must contain only alphanumeric characters, hyphens, and underscores"@
}

/// Checks the fields of a request that adds or updates a tunnel: both are trimmed, must not be
/// empty, and the name may hold only alphanumeric characters, `-` and `_`.
pub fn check_tunnel_request(client_id: &str, local_addr: &str) -> (r: Result<(String, String), String>)
    ensures
        trim(client_id@).len() == 0 ==> (r matches Err(m) && m@ == "client_id is required"@),
        trim(client_id@).len() > 0 && trim(local_addr@).len() == 0 ==> (r matches Err(m) && m@
            == "local_addr is required"@),
        trim(client_id@).len() > 0 && trim(local_addr@).len() > 0 && !valid_name(trim(client_id@)) ==> (r matches Err(m)
            && m@ == bad_name_msg()),
        trim(client_id@).len() > 0 && trim(local_addr@).len() > 0 && valid_name(trim(client_id@)) ==> (r matches Ok((c, l))
            && c@ == trim(client_id@) && l@ == trim(local_addr@)),
{
    let c = trim_str(client_id);
    let l = trim_str(local_addr);
    if c.unicode_len() == 0 {
        return Err("client_id is required".to_string());
    }
    if l.unicode_len() == 0 {
        return Err("local_addr is required".to_string());
    }
    if !is_valid_name(c) {
        return Err("client_id must contain only alphanumeric characters, hyphens, and underscores".to_string());
    }
    Ok((c.to_string(), l.to_string()))
}

/// The detached shell command that restarts the client after an upgrade, on the same bind
/// address and port.
pub open spec fn restart_script(bind: Seq<char>, port: u16) -> Seq<char> {
    "nohup sh -c 'sleep 1 && /usr/local/bin/zo-tunnel-client stop && sleep 1 && /usr/local/bin/zo-tunnel-client start --bind "@
        + bind + " --port "@ + decimal(port as nat) + "' >/dev/null 2>&1 &"@
}

/// Builds the command that restarts the client after an upgrade.
pub fn restart_command(bind: &str, port: u16) -> (r: String)
    ensures
        r@ == restart_script(bind@, port),
{
    let mut c = concat(
        "nohup sh -c 'sleep 1 && /usr/local/bin/zo-tunnel-client stop && sleep 1 && /usr/local/bin/zo-tunnel-client start --bind ",
        bind,
    );
    c.append(" --port ");
    let p = decimal_string(port as u64);
    c.append(p.as_str());
    c.append("' >/dev/null 2>&1 &");
    c
}

} // verus!
