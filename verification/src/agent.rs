//! Agent-version strings.
//!
//! A peer announces itself with an agent string of the form
//! `"{prefix}1.0.0 ({device_name})"`, the parenthesised device name being
//! optional.  This module builds such strings and parses the device name
//! back out of them.

use vstd::prelude::*;

use crate::bytes::{find_byte, is_ascii_ws, rfind_byte, subrange_vec, trim_bytes, trim_spec};

verus! {

/// The bytes of `"1.0.0"`.
pub open spec fn version_tag_spec() -> Seq<u8> {
    seq![49u8, 46u8, 48u8, 46u8, 48u8]
}

/// The agent string built from a prefix and an optional device name:
/// `prefix ++ "1.0.0"`, then `" (" ++ name ++ ")"` when a name is given.
pub open spec fn build_agent_version_spec(prefix: Seq<u8>, name: Option<Seq<u8>>) -> Seq<u8> {
    match name {
        Some(n) => prefix + version_tag_spec() + seq![32u8, 40u8] + n + seq![41u8],
        None => prefix + version_tag_spec(),
    }
}

/// `i` is the index of the first `b` in `s`.
pub open spec fn is_first_index(s: Seq<u8>, b: u8, i: int) -> bool {
    0 <= i < s.len() && s[i] == b && forall|j: int| 0 <= j < i ==> s[j] != b
}

/// `i` is the index of the last `b` in `s`.
pub open spec fn is_last_index(s: Seq<u8>, b: u8, i: int) -> bool {
    0 <= i < s.len() && s[i] == b && forall|j: int| i < j < s.len() ==> s[j] != b
}

/// The device name parsed from an agent string: the text between the first
/// `(` and the last `)`, trimmed; absent when there is no such pair or the
/// trimmed text is empty.
pub open spec fn parse_device_name_spec(s: Seq<u8>) -> Option<Seq<u8>> {
    if exists|i: int, j: int| is_first_index(s, 40u8, i) && is_last_index(s, 41u8, j) && i < j {
        let i = choose|i: int| is_first_index(s, 40u8, i);
        let j = choose|j: int| is_last_index(s, 41u8, j);
        if i < j {
            let inner = trim_spec(s.subrange(i + 1, j));
            if inner.len() > 0 {
                Some(inner)
            } else {
                None
            }
        } else {
            None
        }
    } else {
        None
    }
}

/// Parse the device name out of an agent string, e.g.
/// `"localp2p-rust/1.0.0 (kitchen laptop)"` yields `"kitchen laptop"`.
pub fn parse_device_name(agent_version: &Vec<u8>) -> (r: Option<Vec<u8>>)
    ensures
        match r {
            Some(name) => parse_device_name_spec(agent_version@) == Some(name@),
            None => parse_device_name_spec(agent_version@) is None,
        },
{
    let s = agent_version;
    if let Some(start) = find_byte(s, 40u8) {
        if let Some(end) = rfind_byte(s, 41u8) {
            if start < end {
                proof {
                    let i0 = choose|i: int| is_first_index(s@, 40u8, i);
                    let j0 = choose|j: int| is_last_index(s@, 41u8, j);
                    assert(is_first_index(s@, 40u8, start as int));
                    assert(is_last_index(s@, 41u8, end as int));
                    assert(i0 == start as int);
                    assert(j0 == end as int);
                }
                let inner = subrange_vec(s, start + 1, end);
                let name = trim_bytes(&inner);
                if name.len() > 0 {
                    return Some(name);
                } else {
                    return None;
                }
            }
        }
    }
    proof {
        if exists|i: int, j: int| is_first_index(s@, 40u8, i) && is_last_index(s@, 41u8, j) && i
            < j {
            let (i0, j0) = choose|i: int, j: int|
                is_first_index(s@, 40u8, i) && is_last_index(s@, 41u8, j) && i < j;
            assert(false);
        }
    }
    None
}

/// Append the bytes of `"1.0.0"` to `out`.
fn push_version_tag(out: &mut Vec<u8>)
    ensures
        final(out)@ == old(out)@ + version_tag_spec(),
{
    out.push(49u8);
    out.push(46u8);
    out.push(48u8);
    out.push(46u8);
    out.push(48u8);
    assert(out@ =~= old(out)@ + version_tag_spec());
}

/// Append all of `src` to `out`.
pub fn push_all(out: &mut Vec<u8>, src: &Vec<u8>)
    ensures
        final(out)@ == old(out)@ + src@,
{
    let mut i: usize = 0;
    while i < src.len()
        invariant
            i <= src@.len(),
            out@ == old(out)@ + src@.take(i as int),
        decreases src@.len() - i,
    {
        out.push(src[i]);
        assert(out@ =~= old(out)@ + src@.take(i + 1 as int));
        i += 1;
    }
    assert(out@ =~= old(out)@ + src@);
}

/// Build the agent string announced for this node.
pub fn build_agent_version(prefix: &Vec<u8>, name: &Option<Vec<u8>>) -> (r: Vec<u8>)
    ensures
        r@ == build_agent_version_spec(
            prefix@,
            match name {
                Some(n) => Some(n@),
                None => None,
            },
        ),
{
    let mut out: Vec<u8> = Vec::new();
    push_all(&mut out, prefix);
    push_version_tag(&mut out);
    match name {
        Some(n) => {
            out.push(32u8);
            out.push(40u8);
            push_all(&mut out, n);
            out.push(41u8);
            assert(out@ =~= prefix@ + version_tag_spec() + seq![32u8, 40u8] + n@ + seq![41u8]);
        },
        None => {
            assert(out@ =~= prefix@ + version_tag_spec());
        },
    }
    out
}

/// Parsing inverts building: for a device name that is non-empty and carries
/// no leading or trailing whitespace, and a prefix free of `(`, the name
/// parsed from the built agent string is exactly the name that was put in.
pub proof fn lemma_parse_inverts_build(prefix: Seq<u8>, name: Seq<u8>)
    requires
        name.len() > 0,
        trim_spec(name) == name,
        forall|k: int| 0 <= k < prefix.len() ==> prefix[k] != 40u8,
    ensures
        parse_device_name_spec(build_agent_version_spec(prefix, Some(name))) == Some(name),
{
    let s = build_agent_version_spec(prefix, Some(name));
    let p = prefix.len() as int;
    let n = name.len() as int;
    let open = p + 6;
    let close = p + 7 + n;
    assert(s.len() == p + 8 + n);
    assert(s[open] == 40u8);
    assert(s[close] == 41u8);
    assert forall|j: int| 0 <= j < open implies s[j] != 40u8 by {
        if j < p {
            assert(s[j] == prefix[j]);
        } else if j < p + 5 {
            assert(s[j] == version_tag_spec()[j - p]);
        } else {
            assert(s[j] == 32u8);
        }
    }
    assert(is_first_index(s, 40u8, open));
    assert(close == s.len() - 1);
    assert(is_last_index(s, 41u8, close));
    let i0 = choose|i: int| is_first_index(s, 40u8, i);
    let j0 = choose|j: int| is_last_index(s, 41u8, j);
    assert(i0 == open);
    assert(j0 == close);
    assert(s.subrange(open + 1, close) =~= name);
}

} // verus!
