//! Release versions `[v]MAJOR.MINOR.PATCH` and which of two is newer.
use vstd::prelude::*;
use crate::process::{parse_u32, parsed_u32};
use crate::text::{find_char, lemma_split_step, split_char};

verus! {

/// The version without a leading `v`.
pub open spec fn without_v(s: Seq<char>) -> Seq<char> {
    if s.len() > 0 && s[0] == 'v' {
        s.drop_first()
    } else {
        s
    }
}

/// The three numbers of a version `[v]MAJOR.MINOR.PATCH`, when it has exactly three
/// dot-separated parts that each parse as a `u32`.
pub open spec fn version_triple(s: Seq<char>) -> Option<(u32, u32, u32)> {
    let parts = split_char(without_v(s), '.');
    if parts.len() == 3 {
        match (parsed_u32(parts[0]), parsed_u32(parts[1]), parsed_u32(parts[2])) {
            (Some(a), Some(b), Some(c)) => Some((a, b, c)),
            _ => None,
        }
    } else {
        None
    }
}

/// `x` comes before `y` in the order of major, then minor, then patch numbers.
pub open spec fn triple_before(x: (u32, u32, u32), y: (u32, u32, u32)) -> bool {
    ||| x.0 < y.0
    ||| x.0 == y.0 && x.1 < y.1
    ||| x.0 == y.0 && x.1 == y.1 && x.2 < y.2
}

/// `latest` is a newer release than `current`: both are versions and `latest` comes after.
pub open spec fn newer(current: Seq<char>, latest: Seq<char>) -> bool {
    match (version_triple(current), version_triple(latest)) {
        (Some(c), Some(l)) => triple_before(c, l),
        _ => false,
    }
}

/// The three numbers of a version, if it is one.
pub fn parse_version(s: &str) -> (r: Option<(u32, u32, u32)>)
    ensures
        r == version_triple(s@),
{
    let n = s.unicode_len();
    let start: usize = if n > 0 && s.get_char(0) == 'v' { 1 } else { 0 };
    let t = s.substring_char(start, n);
    proof {
        assert(t@ =~= without_v(s@));
    }
    let m = t.unicode_len();
    assert(t@.subrange(0, m as int) =~= t@);
    let i = find_char(t, '.', 0);
    proof {
        lemma_split_step(t@, '.', 0, i as int);
    }
    if i == m {
        return None;
    }
    let j = find_char(t, '.', i + 1);
    proof {
        lemma_split_step(t@, '.', i + 1, j as int);
    }
    if j == m {
        return None;
    }
    let k = find_char(t, '.', j + 1);
    proof {
        lemma_split_step(t@, '.', j + 1, k as int);
        let p = split_char(t@, '.');
        assert(p == seq![t@.subrange(0, i as int)] + (seq![t@.subrange(i + 1, j as int)] + split_char(
            t@.subrange(j + 1, m as int),
            '.',
        )));
        if k < m {
            let rest = split_char(t@.subrange(k + 1, m as int), '.');
            assert(rest.len() >= 1) by {
                crate::text::lemma_index_of_props(t@.subrange(k + 1, m as int), '.');
            }
            assert(p.len() > 3);
        }
    }
    if k < m {
        return None;
    }
    let a = parse_u32(t.substring_char(0, i));
    let b = parse_u32(t.substring_char(i + 1, j));
    let c = parse_u32(t.substring_char(j + 1, m));
    match (a, b, c) {
        (Some(a), Some(b), Some(c)) => Some((a, b, c)),
        _ => None,
    }
}

/// Whether `latest` is a newer release than `current`.
pub fn is_newer(current: &str, latest: &str) -> (r: bool)
    ensures
        r == newer(current@, latest@),
{
    match (parse_version(current), parse_version(latest)) {
        (Some(c), Some(l)) => c.0 < l.0 || (c.0 == l.0 && c.1 < l.1) || (c.0 == l.0 && c.1 == l.1 && c.2 < l.2),
        _ => false,
    }
}

/// No version is newer than itself, and of two different versions exactly one is newer.
pub proof fn law_newer_is_strict_order(a: Seq<char>, b: Seq<char>)
    ensures
        !newer(a, a),
        newer(a, b) ==> !newer(b, a),
        version_triple(a) is Some && version_triple(b) is Some && version_triple(a) != version_triple(b)
            ==> newer(a, b) || newer(b, a),
{
}

} // verus!
