//! Header rules of the reverse proxy: hop-by-hop stripping, forwarding
//! headers and the WebSocket upgrade preamble sent to the backend.
//!
//! Header names are held lowercased, as HTTP header maps hold them.
use vstd::prelude::*;

use crate::route::ProxyTarget;
use crate::text::{
    lower_of, lowercase,
    chars_equal, chars_of, decimal, find, first_index_of, push_chars, push_decimal, push_str,
    slice_chars, string_of, trim, trim_of,
};

verus! {

#[derive(Debug, Clone)]
pub struct Header {
    pub name: String,
    pub value: String,
}

pub open spec fn ascii_lower_char(c: char) -> char {
    if 'A' <= c && c <= 'Z' {
        ((c as u8) + 32) as char
    } else {
        c
    }
}

pub open spec fn ascii_lower(s: Seq<char>) -> Seq<char> {
    s.map_values(|c: char| ascii_lower_char(c))
}

fn ascii_lower_exec(v: &Vec<char>) -> (r: Vec<char>)
    ensures
        r@ == ascii_lower(v@),
{
    let mut out: Vec<char> = Vec::new();
    let mut i: usize = 0;
    while i < v.len()
        invariant
            i <= v@.len(),
            out@ == ascii_lower(v@.subrange(0, i as int)),
        decreases v@.len() - i,
    {
        let c = v[i];
        let l = if 'A' <= c && c <= 'Z' {
            ((c as u8) + 32) as char
        } else {
            c
        };
        out.push(l);
        i = i + 1;
        assert(out@ =~= ascii_lower(v@.subrange(0, i as int)));
    }
    assert(v@.subrange(0, v@.len() as int) =~= v@);
    out
}

/// The headers RFC 7230 §6.1 names as hop-by-hop.
pub open spec fn is_fixed_hop(n: Seq<char>) -> bool {
    n == "connection"@ || n == "keep-alive"@ || n == "proxy-authenticate"@ || n
        == "proxy-authorization"@ || n == "te"@ || n == "trailer"@ || n == "transfer-encoding"@
        || n == "upgrade"@
}

/// `s` split at each comma.
pub open spec fn segments(s: Seq<char>) -> Seq<Seq<char>>
    decreases s.len(),
{
    if first_index_of(s, ',') < 0 || first_index_of(s, ',') >= s.len() {
        seq![s]
    } else {
        seq![s.subrange(0, first_index_of(s, ','))] + segments(
            s.subrange(first_index_of(s, ',') + 1, s.len() as int),
        )
    }
}

/// Each comma-separated item of a `Connection` value, trimmed and lowercased.
pub open spec fn tokens_of(v: Seq<char>) -> Seq<Seq<char>> {
    segments(v).map_values(|p: Seq<char>| ascii_lower(trim_of(p)))
}

/// The header names listed by the `Connection` headers of `hs`.
pub open spec fn connection_names(hs: Seq<Header>) -> Seq<Seq<char>>
    decreases hs.len(),
{
    if hs.len() == 0 {
        Seq::empty()
    } else if hs.last().name@ == "connection"@ {
        connection_names(hs.drop_last()) + tokens_of(hs.last().value@)
    } else {
        connection_names(hs.drop_last())
    }
}

/// A header that survives stripping, given the names listed in `Connection`.
pub open spec fn kept_header(h: Header, listed: Seq<Seq<char>>) -> bool {
    !is_fixed_hop(h.name@) && !listed.contains(h.name@)
}

/// Whether `name` is one of the fixed hop-by-hop headers.
fn fixed_hop_exec(name: &Vec<char>) -> (r: bool)
    ensures
        r == is_fixed_hop(name@),
{
    let fixed = [
        "connection",
        "keep-alive",
        "proxy-authenticate",
        "proxy-authorization",
        "te",
        "trailer",
        "transfer-encoding",
        "upgrade",
    ];
    let mut i: usize = 0;
    while i < 8
        invariant
            i <= 8,
            fixed@ == seq![
                "connection",
                "keep-alive",
                "proxy-authenticate",
                "proxy-authorization",
                "te",
                "trailer",
                "transfer-encoding",
                "upgrade",
            ],
            forall|k: int| 0 <= k < i ==> name@ != (#[trigger] fixed@[k])@,
        decreases 8 - i,
    {
        if chars_equal(name, &chars_of(fixed[i])) {
            return true;
        }
        i = i + 1;
    }
    assert(name@ != fixed@[0]@ && name@ != fixed@[1]@ && name@ != fixed@[2]@ && name@
        != fixed@[3]@ && name@ != fixed@[4]@ && name@ != fixed@[5]@ && name@ != fixed@[6]@
        && name@ != fixed@[7]@);
    false
}

/// The trimmed, lowercased items of one `Connection` value.
fn connection_tokens(v: &str) -> (r: Vec<Vec<char>>)
    ensures
        r@.map_values(|t: Vec<char>| t@) == tokens_of(v@),
{
    let mut rest = chars_of(v);
    let mut out: Vec<Vec<char>> = Vec::new();
    loop
        invariant
            out@.map_values(|t: Vec<char>| t@) + tokens_of(rest@) == tokens_of(v@),
        decreases rest@.len(),
    {
        let ghost before = rest@;
        match find(&rest, ',') {
            Some(k) => {
                let piece = string_of(&slice_chars(&rest, 0, k));
                let tok = ascii_lower_exec(&chars_of(trim(piece.as_str()).as_str()));
                let n: usize = rest.len();
                let tail = slice_chars(&rest, k + 1, n);
                let ghost old_out = out@.map_values(|t: Vec<char>| t@);
                out.push(tok);
                rest = tail;
                proof {
                    assert(segments(before) == seq![before.subrange(0, k as int)] + segments(
                        rest@,
                    ));
                    assert(tokens_of(before) =~= seq![tok@] + tokens_of(rest@));
                    assert(out@.map_values(|t: Vec<char>| t@) =~= old_out.push(tok@));
                    assert(old_out + tokens_of(before) == tokens_of(v@));
                    assert(old_out.push(tok@) + tokens_of(rest@) =~= old_out + tokens_of(before));
                }
            },
            None => {
                let tok = ascii_lower_exec(&chars_of(trim(string_of(&rest).as_str()).as_str()));
                let ghost old_out = out@.map_values(|t: Vec<char>| t@);
                out.push(tok);
                proof {
                    assert(tokens_of(before) =~= seq![tok@]);
                    assert(out@.map_values(|t: Vec<char>| t@) =~= old_out + tokens_of(before));
                }
                return out;
            },
        }
    }
}

/// The names listed by every `Connection` header.
fn listed_names(headers: &Vec<Header>) -> (r: Vec<Vec<char>>)
    ensures
        r@.map_values(|t: Vec<char>| t@) == connection_names(headers@),
{
    let mut out: Vec<Vec<char>> = Vec::new();
    let conn = chars_of("connection");
    let mut i: usize = 0;
    while i < headers.len()
        invariant
            conn@ == "connection"@,
            i <= headers@.len(),
            out@.map_values(|t: Vec<char>| t@) == connection_names(headers@.subrange(0, i as int)),
        decreases headers@.len() - i,
    {
        let ghost pre = headers@.subrange(0, i as int);
        assert(headers@.subrange(0, i + 1).drop_last() =~= pre);
        if chars_equal(&chars_of(headers[i].name.as_str()), &conn) {
            let mut toks = connection_tokens(headers[i].value.as_str());
            let ghost old_out = out@.map_values(|t: Vec<char>| t@);
            let ghost tv = toks@;
            out.append(&mut toks);
            assert(out@.map_values(|t: Vec<char>| t@) =~= old_out + tv.map_values(
                |t: Vec<char>| t@,
            ));
        }
        i = i + 1;
    }
    assert(headers@.subrange(0, i as int) =~= headers@);
    out
}

} // verus!

verus! {

/// The headers of `hs` that survive, given the listed names.
pub open spec fn keep_unlisted(hs: Seq<Header>, listed: Seq<Seq<char>>) -> Seq<Header> {
    hs.filter(|h: Header| kept_header(h, listed))
}

/// `hs` with the hop-by-hop headers removed: the fixed set, and every header
/// named by a `Connection` header of `hs`.
pub open spec fn without_hop_by_hop(hs: Seq<Header>) -> Seq<Header> {
    keep_unlisted(hs, connection_names(hs))
}

fn is_listed(names: &Vec<Vec<char>>, n: &Vec<char>) -> (r: bool)
    ensures
        r == names@.map_values(|t: Vec<char>| t@).contains(n@),
{
    let ghost views = names@.map_values(|t: Vec<char>| t@);
    let mut i: usize = 0;
    while i < names.len()
        invariant
            views == names@.map_values(|t: Vec<char>| t@),
            i <= names@.len(),
            forall|k: int| 0 <= k < i ==> views[k] != n@,
        decreases names@.len() - i,
    {
        if chars_equal(&names[i], n) {
            assert(views[i as int] == n@);
            return true;
        }
        i = i + 1;
    }
    false
}

/// Removes the hop-by-hop headers.
pub fn strip_hop_by_hop_headers(headers: &mut Vec<Header>)
    ensures
        final(headers)@ == without_hop_by_hop(old(headers)@),
{
    let names = listed_names(headers);
    let ghost listed = connection_names(headers@);
    let ghost orig = headers@;
    let mut rest: Vec<Header> = Vec::new();
    core::mem::swap(headers, &mut rest);
    let mut kept: Vec<Header> = Vec::new();
    let ghost mut i: int = 0;
    while rest.len() > 0
        invariant
            0 <= i <= orig.len(),
            names@.map_values(|t: Vec<char>| t@) == listed,
            rest@ == orig.subrange(i, orig.len() as int),
            kept@ == keep_unlisted(orig.subrange(0, i), listed),
        decreases rest@.len(),
    {
        assert(orig.subrange(0, i + 1).drop_last() =~= orig.subrange(0, i));
        let h = rest.remove(0);
        assert(h == orig[i]);
        let name = chars_of(h.name.as_str());
        if !fixed_hop_exec(&name) && !is_listed(&names, &name) {
            kept.push(h);
            proof {
                reveal(Seq::filter);
                assert(keep_unlisted(orig.subrange(0, i + 1), listed) == keep_unlisted(
                    orig.subrange(0, i),
                    listed,
                ).push(orig[i]));
            }
        } else {
            proof {
                reveal(Seq::filter);
                assert(keep_unlisted(orig.subrange(0, i + 1), listed) == keep_unlisted(
                    orig.subrange(0, i),
                    listed,
                ));
            }
        }
        proof {
            i = i + 1;
            assert(rest@ =~= orig.subrange(i, orig.len() as int));
        }
    }
    assert(orig.subrange(0, i) =~= orig);
    *headers = kept;
}

/// After stripping, no header of RFC 7230's hop-by-hop set remains, nor any
/// header that a `Connection` header named.
pub proof fn lemma_hop_by_hop_purity(hs: Seq<Header>, i: int)
    requires
        0 <= i < without_hop_by_hop(hs).len(),
    ensures
        !is_fixed_hop(without_hop_by_hop(hs)[i].name@),
        !connection_names(hs).contains(without_hop_by_hop(hs)[i].name@),
{
    let listed = connection_names(hs);
    hs.lemma_filter_pred(|h: Header| kept_header(h, listed), i);
}

/// `X-Forwarded-For` after this hop: the client appended to an existing
/// chain, or the client alone.
pub open spec fn xff_value(existing: Option<Seq<char>>, client: Seq<char>) -> Seq<char> {
    match existing {
        Some(chain) => chain + seq![',', ' '] + client,
        None => client,
    }
}

pub fn build_xff_value(existing: Option<&str>, client_ip: &str) -> (r: String)
    ensures
        r@ == xff_value(
            match existing {
                Some(e) => Some(e@),
                None => None,
            },
            client_ip@,
        ),
{
    match existing {
        Some(chain) => {
            let mut out = chars_of(chain);
            out.push(',');
            out.push(' ');
            push_str(&mut out, client_ip);
            assert(out@ =~= chain@ + seq![',', ' '] + client_ip@);
            string_of(&out)
        },
        None => client_ip.to_owned(),
    }
}

/// With a pre-existing chain `a` and client `b`, the forwarded value is
/// `a, b`.
pub proof fn lemma_forwarding_append(a: Seq<char>, b: Seq<char>)
    ensures
        xff_value(Some(a), b) == a + seq![',', ' '] + b,
        xff_value(None, b) == b,
{
}

} // verus!

verus! {

/// Characters `HeaderValue::to_str` accepts: visible ASCII and tab.
pub open spec fn visible_ascii(s: Seq<char>) -> bool {
    forall|i: int| 0 <= i < s.len() ==> (#[trigger] s[i] == '\t' || (' ' <= s[i] && s[i] <= '~'))
}

fn visible_ascii_exec(v: &Vec<char>) -> (r: bool)
    ensures
        r == visible_ascii(v@),
{
    let mut i: usize = 0;
    while i < v.len()
        invariant
            i <= v@.len(),
            forall|k: int| 0 <= k < i ==> (#[trigger] v@[k] == '\t' || (' ' <= v@[k] && v@[k] <= '~')),
        decreases v@.len() - i,
    {
        let c = v[i];
        if !(c == '\t' || (' ' <= c && c <= '~')) {
            return false;
        }
        i = i + 1;
    }
    true
}

/// The first value of header `n` in `hs`, when it is readable text.
pub open spec fn first_text_value(hs: Seq<Header>, n: Seq<char>) -> Option<Seq<char>>
    decreases hs.len(),
{
    if hs.len() == 0 {
        None
    } else if hs[0].name@ == n {
        if visible_ascii(hs[0].value@) {
            Some(hs[0].value@)
        } else {
            None
        }
    } else {
        first_text_value(hs.drop_first(), n)
    }
}

fn first_text_value_exec(headers: &Vec<Header>, n: &str) -> (r: Option<String>)
    ensures
        match first_text_value(headers@, n@) {
            Some(v) => r matches Some(s) && s@ == v,
            None => r is None,
        },
{
    let nv = chars_of(n);
    let mut i: usize = 0;
    assert(headers@.subrange(0, headers@.len() as int) =~= headers@);
    while i < headers.len()
        invariant
            nv@ == n@,
            i <= headers@.len(),
            first_text_value(headers@, n@) == first_text_value(
                headers@.subrange(i as int, headers@.len() as int),
                n@,
            ),
        decreases headers@.len() - i,
    {
        assert(headers@.subrange(i as int, headers@.len() as int).drop_first() =~= headers@.subrange(
            i + 1,
            headers@.len() as int,
        ));
        if chars_equal(&chars_of(headers[i].name.as_str()), &nv) {
            if visible_ascii_exec(&chars_of(headers[i].value.as_str())) {
                return Some(headers[i].value.clone());
            }
            return None;
        }
        i = i + 1;
    }
    None
}

/// A request asks for a WebSocket upgrade: its first `Upgrade` value is
/// `websocket`, in any ASCII case.
pub open spec fn wants_websocket(hs: Seq<Header>) -> bool {
    first_text_value(hs, "upgrade"@) matches Some(v) && ascii_lower(v) == "websocket"@
}

pub fn is_websocket_upgrade(headers: &Vec<Header>) -> (r: bool)
    ensures
        r == wants_websocket(headers@),
{
    match first_text_value_exec(headers, "upgrade") {
        Some(v) => {
            let l = ascii_lower_exec(&chars_of(v.as_str()));
            chars_equal(&l, &chars_of("websocket"))
        },
        None => false,
    }
}

/// Headers the upgrade preamble never copies from the client.
pub open spec fn preamble_skips(n: Seq<char>) -> bool {
    n == "host"@ || n == "x-forwarded-host"@ || n == "x-forwarded-proto"@ || n
        == "x-forwarded-for"@ || n == "proxy-authenticate"@ || n == "proxy-authorization"@ || n
        == "te"@ || n == "trailer"@ || n == "transfer-encoding"@ || n == "keep-alive"@
}

fn preamble_skips_exec(name: &Vec<char>) -> (r: bool)
    ensures
        r == preamble_skips(name@),
{
    let fixed = [
        "host",
        "x-forwarded-host",
        "x-forwarded-proto",
        "x-forwarded-for",
        "proxy-authenticate",
        "proxy-authorization",
        "te",
        "trailer",
        "transfer-encoding",
        "keep-alive",
    ];
    let mut i: usize = 0;
    while i < 10
        invariant
            i <= 10,
            fixed@ == seq![
                "host",
                "x-forwarded-host",
                "x-forwarded-proto",
                "x-forwarded-for",
                "proxy-authenticate",
                "proxy-authorization",
                "te",
                "trailer",
                "transfer-encoding",
                "keep-alive",
            ],
            forall|k: int| 0 <= k < i ==> name@ != (#[trigger] fixed@[k])@,
        decreases 10 - i,
    {
        if chars_equal(name, &chars_of(fixed[i])) {
            return true;
        }
        i = i + 1;
    }
    assert(name@ != fixed@[0]@ && name@ != fixed@[1]@ && name@ != fixed@[2]@ && name@
        != fixed@[3]@ && name@ != fixed@[4]@ && name@ != fixed@[5]@ && name@ != fixed@[6]@
        && name@ != fixed@[7]@ && name@ != fixed@[8]@ && name@ != fixed@[9]@);
    false
}

/// A client header the preamble copies: not one it sets itself or drops as
/// hop-by-hop, and not named in `Connection` unless it is `upgrade`; its
/// value must be readable text.
pub open spec fn copied_to_preamble(h: Header, listed: Seq<Seq<char>>) -> bool {
    &&& !preamble_skips(h.name@)
    &&& !(listed.contains(h.name@) && h.name@ != "upgrade"@ && h.name@.len() > 0)
    &&& visible_ascii(h.value@)
}

/// `name: value` lines of the copied client headers, in order.
pub open spec fn preamble_lines(hs: Seq<Header>, listed: Seq<Seq<char>>) -> Seq<char>
    decreases hs.len(),
{
    if hs.len() == 0 {
        Seq::empty()
    } else if copied_to_preamble(hs.last(), listed) {
        preamble_lines(hs.drop_last(), listed) + hs.last().name@ + ": "@ + hs.last().value@
            + "\r\n"@
    } else {
        preamble_lines(hs.drop_last(), listed)
    }
}

/// The HTTP/1.1 request that opens a WebSocket tunnel to the backend.
pub open spec fn upgrade_preamble(
    path: Seq<char>,
    query: Option<Seq<char>>,
    target: (Seq<char>, u16),
    hs: Seq<Header>,
    host: Seq<char>,
    scheme: Seq<char>,
    client: Option<Seq<char>>,
) -> Seq<char> {
    "GET "@ + path + (match query {
        Some(q) => "?"@ + q,
        None => Seq::empty(),
    }) + " HTTP/1.1\r\nHost: "@ + target.0 + ":"@ + decimal(target.1 as nat) + "\r\n"@
        + "X-Forwarded-Host: "@ + host + "\r\n"@ + "X-Forwarded-Proto: "@ + scheme + "\r\n"@
        + (match client {
        Some(c) => "X-Forwarded-For: "@ + xff_value(first_text_value(hs, "x-forwarded-for"@), c)
            + "\r\n"@,
        None => Seq::empty(),
    }) + preamble_lines(hs, connection_names(hs)) + "\r\n"@
}

pub fn build_upgrade_request(
    path: &str,
    query: Option<&str>,
    target: &ProxyTarget,
    headers: &Vec<Header>,
    host: &str,
    scheme: &str,
    client_ip: Option<&str>,
) -> (r: String)
    ensures
        r@ == upgrade_preamble(
            path@,
            match query {
                Some(q) => Some(q@),
                None => None,
            },
            target@,
            headers@,
            host@,
            scheme@,
            match client_ip {
                Some(c) => Some(c@),
                None => None,
            },
        ),
{
    let mut out: Vec<char> = Vec::new();
    push_str(&mut out, "GET ");
    push_str(&mut out, path);
    match query {
        Some(q) => {
            push_str(&mut out, "?");
            push_str(&mut out, q);
        },
        None => {},
    }
    push_str(&mut out, " HTTP/1.1\r\nHost: ");
    push_str(&mut out, target.host());
    push_str(&mut out, ":");
    push_decimal(&mut out, target.port().value() as u64);
    push_str(&mut out, "\r\n");
    push_str(&mut out, "X-Forwarded-Host: ");
    push_str(&mut out, host);
    push_str(&mut out, "\r\n");
    push_str(&mut out, "X-Forwarded-Proto: ");
    push_str(&mut out, scheme);
    push_str(&mut out, "\r\n");
    match client_ip {
        Some(c) => {
            let existing = first_text_value_exec(headers, "x-forwarded-for");
            let xff = match &existing {
                Some(e) => build_xff_value(Some(e.as_str()), c),
                None => build_xff_value(None, c),
            };
            push_str(&mut out, "X-Forwarded-For: ");
            push_str(&mut out, xff.as_str());
            push_str(&mut out, "\r\n");
        },
        None => {},
    }
    let ghost head = out@;
    let names = listed_names(headers);
    let ghost listed = connection_names(headers@);
    let upgrade = chars_of("upgrade");
    let mut i: usize = 0;
    while i < headers.len()
        invariant
            i <= headers@.len(),
            upgrade@ == "upgrade"@,
            names@.map_values(|t: Vec<char>| t@) == listed,
            out@ == head + preamble_lines(headers@.subrange(0, i as int), listed),
        decreases headers@.len() - i,
    {
        assert(headers@.subrange(0, i + 1).drop_last() =~= headers@.subrange(0, i as int));
        let h = &headers[i];
        let name = chars_of(h.name.as_str());
        let value = chars_of(h.value.as_str());
        let dynamic = is_listed(&names, &name) && !chars_equal(&name, &upgrade) && name.len() > 0;
        if !preamble_skips_exec(&name) && !dynamic && visible_ascii_exec(&value) {
            push_chars(&mut out, &name);
            push_str(&mut out, ": ");
            push_chars(&mut out, &value);
            push_str(&mut out, "\r\n");
        }
        i = i + 1;
    }
    assert(headers@.subrange(0, i as int) =~= headers@);
    push_str(&mut out, "\r\n");
    let r = string_of(&out);
    assert(r@ =~= upgrade_preamble(
        path@,
        match query {
            Some(q) => Some(q@),
            None => None,
        },
        target@,
        headers@,
        host@,
        scheme@,
        match client_ip {
            Some(c) => Some(c@),
            None => None,
        },
    ));
    r
}

} // verus!

verus! {

/// The `(name, value)` pairs of a header list.
pub open spec fn pairs(hs: Seq<Header>) -> Seq<(Seq<char>, Seq<char>)> {
    hs.map_values(|h: Header| (h.name@, h.value@))
}

/// `ps` without any header named `n`.
pub open spec fn drop_name(ps: Seq<(Seq<char>, Seq<char>)>, n: Seq<char>) -> Seq<
    (Seq<char>, Seq<char>),
> {
    ps.filter(other_than(n))
}

pub open spec fn other_than(n: Seq<char>) -> spec_fn((Seq<char>, Seq<char>)) -> bool {
    |p: (Seq<char>, Seq<char>)| p.0 != n
}

/// `ps` with header `n` set to the single value `v`.
pub open spec fn set_pair(ps: Seq<(Seq<char>, Seq<char>)>, n: Seq<char>, v: Seq<char>) -> Seq<
    (Seq<char>, Seq<char>),
> {
    drop_name(ps, n).push((n, v))
}

/// Removes every header named `name`.
pub fn remove_header(headers: &mut Vec<Header>, name: &str)
    ensures
        pairs(final(headers)@) == drop_name(pairs(old(headers)@), name@),
{
    let nv = chars_of(name);
    let ghost orig = headers@;
    let mut rest: Vec<Header> = Vec::new();
    core::mem::swap(headers, &mut rest);
    let mut kept: Vec<Header> = Vec::new();
    let ghost mut i: int = 0;
    while rest.len() > 0
        invariant
            0 <= i <= orig.len(),
            nv@ == name@,
            rest@ == orig.subrange(i, orig.len() as int),
            pairs(kept@) == drop_name(pairs(orig.subrange(0, i)), name@),
        decreases rest@.len(),
    {
        let h = rest.remove(0);
        assert(h == orig[i]);
        proof {
            assert(pairs(orig.subrange(0, i + 1)).drop_last() =~= pairs(orig.subrange(0, i)));
            assert(pairs(orig.subrange(0, i + 1)).last() == (h.name@, h.value@));
            reveal(Seq::filter);
        }
        if !chars_equal(&chars_of(h.name.as_str()), &nv) {
            kept.push(h);
            assert(pairs(kept@) =~= drop_name(pairs(orig.subrange(0, i)), name@).push(
                (h.name@, h.value@),
            ));
        }
        proof {
            i = i + 1;
            assert(rest@ =~= orig.subrange(i, orig.len() as int));
        }
    }
    assert(orig.subrange(0, i) =~= orig);
    *headers = kept;
}

/// Sets header `name` to the single value `value`.
pub fn set_header(headers: &mut Vec<Header>, name: &str, value: String)
    ensures
        pairs(final(headers)@) == set_pair(pairs(old(headers)@), name@, value@),
{
    remove_header(headers, name);
    let ghost before = headers@;
    headers.push(Header { name: name.to_owned(), value });
    assert(pairs(headers@) =~= pairs(before).push((name@, value@)));
}

/// The headers after the forwarding headers are set: `X-Forwarded-Host`,
/// `X-Forwarded-Proto`, and, for a known client, `X-Forwarded-For`
/// extending any chain already present.
pub open spec fn forwarded(
    hs: Seq<Header>,
    host: Seq<char>,
    scheme: Seq<char>,
    client: Option<Seq<char>>,
) -> Seq<(Seq<char>, Seq<char>)> {
    let ps = set_pair(set_pair(pairs(hs), "x-forwarded-host"@, host), "x-forwarded-proto"@, scheme);
    match client {
        Some(c) => set_pair(
            ps,
            "x-forwarded-for"@,
            xff_value(first_text_value(hs, "x-forwarded-for"@), c),
        ),
        None => ps,
    }
}

proof fn lemma_first_text_value_kept(hs: Seq<Header>, a: Seq<char>, b: Seq<char>, ps: Seq<Header>)
    requires
        pairs(ps) == set_pair(set_pair(pairs(hs), "x-forwarded-host"@, a), "x-forwarded-proto"@, b),
    ensures
        first_text_value(ps, "x-forwarded-for"@) == first_text_value(hs, "x-forwarded-for"@),
{
    reveal_strlit("x-forwarded-for");
    reveal_strlit("x-forwarded-host");
    reveal_strlit("x-forwarded-proto");
    assert("x-forwarded-for"@.len() != "x-forwarded-host"@.len());
    assert("x-forwarded-for"@.len() != "x-forwarded-proto"@.len());
    lemma_first_text_value_pairs(hs, "x-forwarded-for"@);
    lemma_first_text_value_pairs(ps, "x-forwarded-for"@);
    let n = "x-forwarded-for"@;
    let p1 = set_pair(pairs(hs), "x-forwarded-host"@, a);
    lemma_first_pair_set(pairs(hs), "x-forwarded-host"@, a, n);
    lemma_first_pair_set(p1, "x-forwarded-proto"@, b, n);
}

/// The first value of `n` among pairs, when readable.
pub open spec fn first_pair_value(ps: Seq<(Seq<char>, Seq<char>)>, n: Seq<char>) -> Option<
    Seq<char>,
>
    decreases ps.len(),
{
    if ps.len() == 0 {
        None
    } else if ps[0].0 == n {
        if visible_ascii(ps[0].1) {
            Some(ps[0].1)
        } else {
            None
        }
    } else {
        first_pair_value(ps.drop_first(), n)
    }
}

proof fn lemma_first_text_value_pairs(hs: Seq<Header>, n: Seq<char>)
    ensures
        first_text_value(hs, n) == first_pair_value(pairs(hs), n),
    decreases hs.len(),
{
    if hs.len() > 0 {
        assert(pairs(hs.drop_first()) =~= pairs(hs).drop_first());
        lemma_first_text_value_pairs(hs.drop_first(), n);
    }
}

proof fn lemma_first_pair_drop(ps: Seq<(Seq<char>, Seq<char>)>, m: Seq<char>, n: Seq<char>)
    requires
        m != n,
    ensures
        first_pair_value(drop_name(ps, m), n) == first_pair_value(ps, n),
    decreases ps.len(),
{
    reveal(Seq::filter);
    if ps.len() > 0 {
        let f = other_than(m);
        let t = ps.drop_first();
        lemma_first_pair_drop(t, m, n);
        assert(ps =~= seq![ps[0]] + t);
        Seq::filter_distributes_over_add(seq![ps[0]], t, f);
        assert(seq![ps[0]].filter(f) == (if f(ps[0]) {
            seq![ps[0]]
        } else {
            Seq::empty()
        })) by {
            reveal_with_fuel(Seq::filter, 2);
            assert(seq![ps[0]].drop_last() =~= Seq::<(Seq<char>, Seq<char>)>::empty());
        }
        if f(ps[0]) {
            assert((seq![ps[0]] + t.filter(f)).drop_first() =~= t.filter(f));
        } else {
            assert(Seq::<(Seq<char>, Seq<char>)>::empty() + t.filter(f) =~= t.filter(f));
        }
    }
}

proof fn lemma_first_pair_push(ps: Seq<(Seq<char>, Seq<char>)>, x: (Seq<char>, Seq<char>), n: Seq<char>)
    requires
        x.0 != n,
    ensures
        first_pair_value(ps.push(x), n) == first_pair_value(ps, n),
    decreases ps.len(),
{
    if ps.len() > 0 {
        assert(ps.push(x).drop_first() =~= ps.drop_first().push(x));
        assert(ps.push(x)[0] == ps[0]);
        if ps[0].0 != n {
            lemma_first_pair_push(ps.drop_first(), x, n);
        }
    } else {
        assert(ps.push(x).drop_first() =~= Seq::<(Seq<char>, Seq<char>)>::empty());
        assert(ps.push(x)[0] == x);
        assert(first_pair_value(ps.push(x).drop_first(), n) is None);
    }
}

proof fn lemma_first_pair_set(ps: Seq<(Seq<char>, Seq<char>)>, m: Seq<char>, v: Seq<char>, n: Seq<char>)
    requires
        m != n,
    ensures
        first_pair_value(set_pair(ps, m, v), n) == first_pair_value(ps, n),
{
    lemma_first_pair_drop(ps, m, n);
    lemma_first_pair_push(drop_name(ps, m), (m, v), n);
}

} // verus!

verus! {

/// Sets the forwarding headers on an outgoing request.
pub fn set_forwarding_headers(
    headers: &mut Vec<Header>,
    host: &str,
    scheme: &str,
    client_ip: Option<&str>,
)
    ensures
        pairs(final(headers)@) == forwarded(
            old(headers)@,
            host@,
            scheme@,
            match client_ip {
                Some(c) => Some(c@),
                None => None,
            },
        ),
{
    let ghost orig = headers@;
    set_header(headers, "x-forwarded-host", host.to_owned());
    set_header(headers, "x-forwarded-proto", scheme.to_owned());
    match client_ip {
        Some(c) => {
            proof {
                lemma_first_text_value_kept(orig, host@, scheme@, headers@);
            }
            let existing = first_text_value_exec(headers, "x-forwarded-for");
            let xff = match &existing {
                Some(e) => build_xff_value(Some(e.as_str()), c),
                None => build_xff_value(None, c),
            };
            set_header(headers, "x-forwarded-for", xff);
        },
        None => {},
    }
}

/// The headers sent to a backend: forwarding headers set, `Host` removed
/// (the client library sets it for the backend), hop-by-hop headers
/// stripped.
pub fn outgoing_request_headers(
    headers: &mut Vec<Header>,
    host: &str,
    scheme: &str,
    client_ip: Option<&str>,
)
    ensures
        ({
            let set = forwarded(
                old(headers)@,
                host@,
                scheme@,
                match client_ip {
                    Some(c) => Some(c@),
                    None => None,
                },
            );
            exists|mid: Seq<Header>|
                pairs(mid) == drop_name(set, "host"@) && final(headers)@ == without_hop_by_hop(mid)
        }),
{
    set_forwarding_headers(headers, host, scheme, client_ip);
    remove_header(headers, "host");
    let ghost mid = headers@;
    strip_hop_by_hop_headers(headers);
}

} // verus!

verus! {

/// The scheme of the listener that accepted a request.
#[derive(Debug, Clone, Copy, PartialEq, Eq)]
pub enum Scheme {
    Http,
    Https,
}

impl Scheme {
    pub fn as_str(self) -> (r: &'static str)
        ensures
            r@ == (match self {
                Scheme::Http => "http"@,
                Scheme::Https => "https"@,
            }),
    {
        match self {
            Scheme::Http => "http",
            Scheme::Https => "https",
        }
    }
}

} // verus!

verus! {

/// `s` holds `p` somewhere.
pub open spec fn contains_text(s: Seq<char>, p: Seq<char>) -> bool {
    exists|i: int| 0 <= i && i + p.len() <= s.len() && #[trigger] s.subrange(i, i + p.len()) == p
}

fn contains_text_exec(s: &Vec<char>, p: &str) -> (r: bool)
    ensures
        r == contains_text(s@, p@),
{
    let pv = chars_of(p);
    if pv.len() > s.len() {
        return false;
    }
    if pv.len() == 0 {
        assert(s@.subrange(0int, 0int + p@.len()) =~= p@);
        return true;
    }
    let mut i: usize = 0;
    while i < s.len() && pv.len() <= s.len() - i
        invariant
            pv@ == p@,
            i <= s@.len() + 1,
            forall|k: int| 0 <= k < i && k + p@.len() <= s@.len() ==> #[trigger] s@.subrange(k, k + p@.len()) != p@,
        decreases s@.len() + 1 - i,
    {
        if crate::text::matches_at(s, i, &pv) {
            return true;
        }
        i = i + 1;
    }
    false
}

/// The text before the first line break.
pub open spec fn first_line(s: Seq<char>) -> Seq<char> {
    if first_index_of(s, '\n') < 0 {
        s
    } else {
        s.subrange(0, first_index_of(s, '\n'))
    }
}

/// The backend agreed to switch protocols: its status line mentions 101.
pub open spec fn upgrade_accepted_spec(reply: Seq<char>) -> bool {
    contains_text(first_line(reply), "101"@)
}

pub fn upgrade_accepted(reply: &str) -> (r: bool)
    ensures
        r == upgrade_accepted_spec(reply@),
{
    let v = chars_of(reply);
    let line = match find(&v, '\n') {
        Some(k) => slice_chars(&v, 0, k),
        None => v,
    };
    assert(line@ == first_line(reply@)) by {
        if first_index_of(reply@, '\n') < 0 {
            assert(line@ =~= reply@);
        }
    }
    contains_text_exec(&line, "101")
}

/// `s` split at each line break, a trailing carriage return dropped from
/// each line.
pub open spec fn lines_of(s: Seq<char>) -> Seq<Seq<char>>
    decreases s.len(),
{
    let k = first_index_of(s, '\n');
    if k < 0 || k >= s.len() {
        seq![strip_cr(s)]
    } else {
        seq![strip_cr(s.subrange(0, k))] + lines_of(s.subrange(k + 1, s.len() as int))
    }
}

pub open spec fn strip_cr(l: Seq<char>) -> Seq<char> {
    if l.len() > 0 && l.last() == '\r' {
        l.drop_last()
    } else {
        l
    }
}

/// The text between the first and the second `:` of a line, if it has one.
pub open spec fn second_field(l: Seq<char>) -> Option<Seq<char>> {
    let a = first_index_of(l, ':');
    if a < 0 {
        None
    } else {
        let rest = l.subrange(a + 1, l.len() as int);
        let b = first_index_of(rest, ':');
        Some(
            if b < 0 {
                rest
            } else {
                rest.subrange(0, b)
            },
        )
    }
}

/// Index of the first line at or after `from` that names the accept key.
pub open spec fn accept_line(ls: Seq<Seq<char>>, from: int) -> Option<int>
    decreases ls.len() - from,
{
    if from < 0 || from >= ls.len() {
        None
    } else if crate::text::starts_with(lower_of(ls[from]), "sec-websocket-accept:"@) {
        Some(from)
    } else {
        accept_line(ls, from + 1)
    }
}

/// The `Sec-WebSocket-Accept` value of a backend reply, trimmed.
pub open spec fn accept_key(reply: Seq<char>) -> Option<Seq<char>> {
    let ls = lines_of(reply);
    match accept_line(ls, 0) {
        Some(i) => match second_field(ls[i]) {
            Some(f) => Some(trim_of(f)),
            None => None,
        },
        None => None,
    }
}

fn strip_cr_exec(v: Vec<char>) -> (r: Vec<char>)
    ensures
        r@ == strip_cr(v@),
{
    if v.len() > 0 && v[v.len() - 1] == '\r' {
        let n: usize = v.len();
        slice_chars(&v, 0, n - 1)
    } else {
        v
    }
}

fn split_lines(s: &str) -> (r: Vec<Vec<char>>)
    ensures
        r@.map_values(|v: Vec<char>| v@) == lines_of(s@),
{
    let mut rest = chars_of(s);
    let mut out: Vec<Vec<char>> = Vec::new();
    loop
        invariant
            out@.map_values(|v: Vec<char>| v@) + lines_of(rest@) == lines_of(s@),
        decreases rest@.len(),
    {
        let ghost before = rest@;
        let ghost old_out = out@.map_values(|v: Vec<char>| v@);
        match find(&rest, '\n') {
            Some(k) => {
                let n: usize = rest.len();
                let line = strip_cr_exec(slice_chars(&rest, 0, k));
                let tail = slice_chars(&rest, k + 1, n);
                out.push(line);
                rest = tail;
                assert(out@.map_values(|v: Vec<char>| v@) =~= old_out.push(line@));
                assert(old_out.push(line@) + lines_of(rest@) =~= old_out + lines_of(before));
            },
            None => {
                let line = strip_cr_exec(rest);
                out.push(line);
                assert(out@.map_values(|v: Vec<char>| v@) =~= old_out + lines_of(before));
                return out;
            },
        }
    }
}

/// Reads the accept key the backend sent with its 101 reply.
pub fn websocket_accept_key(reply: &str) -> (r: Option<String>)
    ensures
        match accept_key(reply@) {
            Some(k) => r matches Some(s) && s@ == k,
            None => r is None,
        },
{
    let lines = split_lines(reply);
    let ghost ls = lines@.map_values(|v: Vec<char>| v@);
    let prefix = chars_of("sec-websocket-accept:");
    let mut i: usize = 0;
    while i < lines.len()
        invariant
            ls == lines@.map_values(|v: Vec<char>| v@),
            ls == lines_of(reply@),
            prefix@ == "sec-websocket-accept:"@,
            i <= lines@.len(),
            accept_line(ls, 0) == accept_line(ls, i as int),
        decreases lines@.len() - i,
    {
        let text = string_of(&lines[i]);
        let lower = chars_of(lowercase(text.as_str()).as_str());
        if crate::text::starts_with_exec(&lower, &prefix) {
            assert(accept_line(ls, i as int) == Some(i as int));
            let l = &lines[i];
            return match find(l, ':') {
                Some(a) => {
                    let n: usize = l.len();
                    let rest = slice_chars(l, a + 1, n);
                    let field = match find(&rest, ':') {
                        Some(b) => slice_chars(&rest, 0, b),
                        None => rest,
                    };
                    assert(second_field(ls[i as int]) == Some(field@)) by {
                        if first_index_of(rest@, ':') < 0 {
                            assert(field@ =~= rest@);
                        }
                    }
                    let f = string_of(&field);
                    Some(trim(f.as_str()))
                },
                None => None,
            };
        }
        i = i + 1;
    }
    None
}

/// Where a plain request is forwarded.
pub open spec fn backend_uri_text(target: (Seq<char>, u16), path: Seq<char>, query: Option<Seq<char>>) -> Seq<char> {
    "http://"@ + target.0 + ":"@ + decimal(target.1 as nat) + path + (match query {
        Some(q) => "?"@ + q,
        None => Seq::empty(),
    })
}

pub fn backend_uri(target: &ProxyTarget, path: &str, query: Option<&str>) -> (r: String)
    ensures
        r@ == backend_uri_text(
            target@,
            path@,
            match query {
                Some(q) => Some(q@),
                None => None,
            },
        ),
{
    let mut out: Vec<char> = Vec::new();
    push_str(&mut out, "http://");
    push_str(&mut out, target.host());
    push_str(&mut out, ":");
    push_decimal(&mut out, target.port().value() as u64);
    push_str(&mut out, path);
    match query {
        Some(q) => {
            push_str(&mut out, "?");
            push_str(&mut out, q);
        },
        None => {},
    }
    let r = string_of(&out);
    assert(r@ =~= backend_uri_text(
        target@,
        path@,
        match query {
            Some(q) => Some(q@),
            None => None,
        },
    ));
    r
}

/// The body of the 502 sent when the backend cannot be reached: a refused
/// connection means the service is not running.
pub open spec fn bad_gateway_text(target: (Seq<char>, u16), error: Seq<char>) -> Seq<char> {
    if contains_text(error, "Connection refused"@) {
        "Service not running at "@ + target.0 + seq![':'] + decimal(target.1 as nat)
    } else {
        "Proxy error: "@ + error
    }
}

pub fn bad_gateway_body(target: &ProxyTarget, error: &str) -> (r: String)
    ensures
        r@ == bad_gateway_text(target@, error@),
{
    let e = chars_of(error);
    let mut out: Vec<char> = Vec::new();
    if contains_text_exec(&e, "Connection refused") {
        push_str(&mut out, "Service not running at ");
        let t = target.to_string();
        push_str(&mut out, t.as_str());
    } else {
        push_str(&mut out, "Proxy error: ");
        push_str(&mut out, error);
    }
    let r = string_of(&out);
    assert(r@ =~= bad_gateway_text(target@, error@));
    r
}

} // verus!

verus! {

/// On the WebSocket path the preamble copies no hop-by-hop header but
/// `Connection` and `Upgrade`, and no header a `Connection` value names but
/// `Upgrade`.
pub proof fn lemma_preamble_hop_by_hop(h: Header, listed: Seq<Seq<char>>)
    requires
        copied_to_preamble(h, listed),
        h.name@.len() > 0,
    ensures
        is_fixed_hop(h.name@) ==> h.name@ == "connection"@ || h.name@ == "upgrade"@,
        listed.contains(h.name@) ==> h.name@ == "upgrade"@,
{
}

} // verus!
