//! Path handling for directories served under a mount prefix: prefix
//! stripping, mount-root redirects, percent-decoding and the traversal gate.
use vstd::prelude::*;
use vstd::string::StringSliceAdditionalSpecFns;

use crate::text::{
    chars_equal, chars_of, push_chars, push_decimal, push_str, slice_chars, starts_with,
    starts_with_exec, string_of, decimal,
};

verus! {

pub open spec fn str_view(q: Option<&str>) -> Option<Seq<char>> {
    match q {
        Some(s) => Some(s@),
        None => None,
    }
}

pub open spec fn string_view(q: Option<String>) -> Option<Seq<char>> {
    match q {
        Some(s) => Some(s@),
        None => None,
    }
}

/// The request path as the directory sees it once the mount prefix is gone.
pub open spec fn stripped_path(uri: Seq<char>, prefix: Seq<char>) -> Seq<char> {
    if prefix == seq!['/'] {
        uri
    } else if uri == prefix {
        seq!['/']
    } else if starts_with(uri, prefix) {
        uri.subrange(prefix.len() as int, uri.len() as int)
    } else {
        uri
    }
}

pub fn strip_route_prefix(uri_path: &str, route_prefix: &str) -> (r: String)
    ensures
        r@ == stripped_path(uri_path@, route_prefix@),
{
    let u = chars_of(uri_path);
    let p = chars_of(route_prefix);
    let root: Vec<char> = vec!['/'];
    assert(root@ =~= seq!['/']);
    if chars_equal(&p, &root) {
        return uri_path.to_owned();
    }
    if chars_equal(&u, &p) {
        return string_of(&root);
    }
    if starts_with_exec(&u, &p) {
        return string_of(&slice_chars(&u, p.len(), u.len()));
    }
    uri_path.to_owned()
}

/// Where a `GET` or `HEAD` of the bare mount prefix is redirected: the
/// prefix with a slash added, the query kept.
pub open spec fn mount_redirect_target(
    uri: Seq<char>,
    prefix: Seq<char>,
    query: Option<Seq<char>>,
) -> Option<Seq<char>> {
    if prefix != seq!['/'] && uri == prefix {
        Some(
            match query {
                Some(q) => prefix + seq!['/', '?'] + q,
                None => prefix + seq!['/'],
            },
        )
    } else {
        None
    }
}

/// The `Location` of the temporary redirect owed to a `GET` or `HEAD` of
/// the bare mount prefix, if this request is one.
pub fn mount_redirect(uri_path: &str, route_prefix: &str, query: Option<&str>) -> (r: Option<
    String,
>)
    ensures
        r matches Some(l) ==> mount_redirect_target(
            uri_path@,
            route_prefix@,
            str_view(query),
        ) == Some(l@),
        r is None ==> mount_redirect_target(uri_path@, route_prefix@, str_view(query))
            is None,
{
    let u = chars_of(uri_path);
    let p = chars_of(route_prefix);
    let root: Vec<char> = vec!['/'];
    assert(root@ =~= seq!['/']);
    if chars_equal(&p, &root) || !chars_equal(&u, &p) {
        return None;
    }
    let mut out = p;
    out.push('/');
    match query {
        Some(q) => {
            out.push('?');
            push_str(&mut out, q);
            assert(out@ =~= route_prefix@ + seq!['/', '?'] + q@);
        },
        None => {
            assert(out@ =~= route_prefix@ + seq!['/']);
        },
    }
    Some(string_of(&out))
}

/// A redirect `Location` from the file layer, kept inside the mount: a
/// path starting with `/` gets the mount prefix in front unless the mount
/// is `/`.
pub open spec fn mounted_location(prefix: Seq<char>, location: Seq<char>) -> Option<Seq<char>> {
    if prefix != seq!['/'] && location.len() > 0 && location[0] == '/' {
        Some(prefix + location)
    } else {
        None
    }
}

/// The new `Location` for a redirect response, or `None` when it stays.
pub fn rewrite_redirect_location(mount_prefix: &str, is_redirect: bool, location: &str) -> (r:
    Option<String>)
    ensures
        !is_redirect ==> r is None,
        is_redirect ==> string_view(r) == mounted_location(mount_prefix@, location@),
{
    if !is_redirect {
        return None;
    }
    let p = chars_of(mount_prefix);
    let l = chars_of(location);
    let root: Vec<char> = vec!['/'];
    assert(root@ =~= seq!['/']);
    if chars_equal(&p, &root) || l.len() == 0 || l[0] != '/' {
        return None;
    }
    let mut out = p;
    push_chars(&mut out, &l);
    let r = string_of(&out);
    assert(r@ == mount_prefix@ + location@);
    Some(r)
}

} // verus!

verus! {

pub open spec fn is_hex_byte(c: u8) -> bool {
    (48 <= c && c <= 57) || (65 <= c && c <= 70) || (97 <= c && c <= 102)
}

pub open spec fn hex_value(c: u8) -> u8 {
    if 48 <= c && c <= 57 {
        (c - 48) as u8
    } else if 65 <= c && c <= 70 {
        (c - 55) as u8
    } else {
        (c - 87) as u8
    }
}

/// Percent-decoding on bytes: `%` followed by two hex digits becomes that
/// byte; every other byte, a stray `%` included, is kept.
pub open spec fn decode_bytes(b: Seq<u8>) -> Seq<u8>
    decreases b.len(),
{
    if b.len() == 0 {
        Seq::empty()
    } else if b.len() >= 3 && b[0] == 37 && is_hex_byte(b[1]) && is_hex_byte(b[2]) {
        seq![(hex_value(b[1]) * 16 + hex_value(b[2])) as u8] + decode_bytes(
            b.subrange(3, b.len() as int),
        )
    } else {
        seq![b[0]] + decode_bytes(b.drop_first())
    }
}

fn hex_digit_value(c: u8) -> (r: Option<u8>)
    ensures
        r is Some <==> is_hex_byte(c),
        r matches Some(v) ==> v == hex_value(c) && v < 16,
{
    if 48 <= c && c <= 57 {
        Some(c - 48)
    } else if 65 <= c && c <= 70 {
        Some(c - 55)
    } else if 97 <= c && c <= 102 {
        Some(c - 87)
    } else {
        None
    }
}

/// Percent-decodes raw bytes.
pub fn percent_decode_bytes(b: &[u8]) -> (r: Vec<u8>)
    ensures
        r@ == decode_bytes(b@),
{
    let mut out: Vec<u8> = Vec::new();
    let mut i: usize = 0;
    let n = b.len();
    assert(b@.subrange(0, n as int) =~= b@);
    while i < n
        invariant
            n == b@.len(),
            i <= n,
            out@ + decode_bytes(b@.subrange(i as int, n as int)) == decode_bytes(b@),
        decreases n - i,
    {
        let ghost rest = b@.subrange(i as int, n as int);
        if b[i] == 37 && n - i >= 3 {
            let hi = hex_digit_value(b[i + 1]);
            let lo = hex_digit_value(b[i + 2]);
            match (hi, lo) {
                (Some(h), Some(l)) => {
                    assert(rest.subrange(3, rest.len() as int) =~= b@.subrange(i + 3, n as int));
                    out.push(h * 16 + l);
                    i = i + 3;
                    assert(out@ + decode_bytes(b@.subrange(i as int, n as int)) =~= decode_bytes(
                        b@,
                    ));
                    continue;
                },
                _ => {},
            }
        }
        assert(rest.drop_first() =~= b@.subrange(i + 1, n as int));
        out.push(b[i]);
        i = i + 1;
        assert(out@ + decode_bytes(b@.subrange(i as int, n as int)) =~= decode_bytes(b@));
    }
    assert(b@.subrange(n as int, n as int) =~= Seq::<u8>::empty());
    assert(out@ + Seq::<u8>::empty() =~= out@);
    out
}

/// What `String::from_utf8_lossy` yields for a byte sequence.
pub uninterp spec fn lossy_of(b: Seq<u8>) -> Seq<char>;

/// Relies on `String::from_utf8_lossy`: the result depends on the bytes
/// alone, and ASCII bytes come back as the same characters.
#[verifier::external_body]
fn utf8_lossy(b: &Vec<u8>) -> (r: String)
    ensures
        r@ == lossy_of(b@),
        (forall|i: int| 0 <= i < b@.len() ==> b@[i] < 128) ==> r@ == b@.map_values(
            |c: u8| c as char,
        ),
{
    String::from_utf8_lossy(b.as_slice()).into_owned()
}

/// Percent-decodes the bytes of `s`, turning invalid UTF-8 into
/// replacement characters.
pub fn percent_decode(s: &str) -> (r: String)
    ensures
        r@ == lossy_of(decode_bytes(s.spec_bytes())),
{
    let decoded = percent_decode_bytes(s.as_bytes());
    utf8_lossy(&decoded)
}

/// Bytes a path segment keeps unencoded: `A-Z a-z 0-9 - _ . ~`.
pub open spec fn is_unreserved(b: u8) -> bool {
    (65 <= b && b <= 90) || (97 <= b && b <= 122) || (48 <= b && b <= 57) || b == 45 || b == 95
        || b == 46 || b == 126
}

pub open spec fn hex_upper(n: u8) -> char {
    if n < 10 {
        ((n + 48) as u8) as char
    } else {
        ((n + 55) as u8) as char
    }
}

/// Percent-encoding of a path segment's bytes, with upper-case hex.
pub open spec fn encode_segment(b: Seq<u8>) -> Seq<char>
    decreases b.len(),
{
    if b.len() == 0 {
        Seq::empty()
    } else {
        let head = if is_unreserved(b[0]) {
            seq![b[0] as char]
        } else {
            seq!['%', hex_upper(b[0] / 16), hex_upper(b[0] % 16)]
        };
        head + encode_segment(b.drop_first())
    }
}

fn hex_upper_exec(n: u8) -> (r: char)
    requires
        n < 16,
    ensures
        r == hex_upper(n),
{
    if n < 10 {
        (n + 48) as char
    } else {
        (n + 55) as char
    }
}

/// Percent-encodes every byte of `s` outside the unreserved set.
pub fn encode_path_segment(s: &str) -> (r: String)
    ensures
        r@ == encode_segment(s.spec_bytes()),
{
    let b = s.as_bytes();
    let n = b.len();
    let mut out: Vec<char> = Vec::new();
    let mut i: usize = 0;
    assert(b@.subrange(0, n as int) =~= b@);
    while i < n
        invariant
            n == b@.len(),
            b@ == s.spec_bytes(),
            i <= n,
            out@ + encode_segment(b@.subrange(i as int, n as int)) == encode_segment(b@),
        decreases n - i,
    {
        let ghost rest = b@.subrange(i as int, n as int);
        assert(rest.drop_first() =~= b@.subrange(i + 1, n as int));
        let c = b[i];
        if (65 <= c && c <= 90) || (97 <= c && c <= 122) || (48 <= c && c <= 57) || c == 45 || c
            == 95 || c == 46 || c == 126 {
            out.push(c as char);
        } else {
            out.push('%');
            out.push(hex_upper_exec(c / 16));
            out.push(hex_upper_exec(c % 16));
        }
        i = i + 1;
        assert(out@ + encode_segment(b@.subrange(i as int, n as int)) =~= encode_segment(b@));
    }
    assert(b@.subrange(n as int, n as int) =~= Seq::<u8>::empty());
    assert(out@ + Seq::<char>::empty() =~= out@);
    string_of(&out)
}

/// The bytes of an ASCII character sequence.
pub open spec fn ascii_bytes(s: Seq<char>) -> Seq<u8> {
    s.map_values(|c: char| c as u8)
}

/// For ASCII letters and digits, encoding changes nothing and decoding the
/// bytes gives the same bytes back; so decoding an encoded alphanumeric
/// string returns the string.
pub proof fn lemma_alnum_round_trip(s: Seq<char>)
    requires
        forall|i: int| 0 <= i < s.len() ==> crate::text::is_ascii_alnum(#[trigger] s[i]),
    ensures
        encode_segment(ascii_bytes(s)) == s,
        decode_bytes(ascii_bytes(s)) == ascii_bytes(s),
    decreases s.len(),
{
    if s.len() > 0 {
        let t = s.drop_first();
        lemma_alnum_round_trip(t);
        let b = ascii_bytes(s);
        assert(b.drop_first() =~= ascii_bytes(t));
        assert(b[0] == s[0] as u8);
        assert(s[0] as u8 as char == s[0]);
        assert(seq![b[0] as char] + t =~= s);
        assert(seq![b[0]] + ascii_bytes(t) =~= b);
    } else {
        assert(ascii_bytes(s) =~= Seq::<u8>::empty());
        assert(s =~= Seq::<char>::empty());
    }
}

} // verus!

verus! {

/// `path` lies at or below `root`, comparing whole path components; both
/// are canonical, so neither ends with `/` unless it is `/`.
pub open spec fn within_root(path: Seq<char>, root: Seq<char>) -> bool {
    path == root || (starts_with(path, root) && path.len() > root.len() && ((root.len() > 0
        && root.last() == '/') || path[root.len() as int] == '/'))
}

/// The traversal gate: a canonical target is served only when it lies
/// within the canonical root.
pub fn confine(canonical: &str, canonical_root: &str) -> (r: Option<String>)
    ensures
        r is Some <==> within_root(canonical@, canonical_root@),
        r matches Some(p) ==> p@ == canonical@ && starts_with(p@, canonical_root@),
{
    let c = chars_of(canonical);
    let root = chars_of(canonical_root);
    if chars_equal(&c, &root) {
        assert(c@.subrange(0, root@.len() as int) =~= root@);
        return Some(canonical.to_owned());
    }
    if starts_with_exec(&c, &root) && c.len() > root.len() && ((root.len() > 0 && root[root.len()
        - 1] == '/') || c[root.len()] == '/') {
        return Some(canonical.to_owned());
    }
    None
}

/// The relative path a request names under the root: percent-decoded, its
/// leading slashes removed.
pub open spec fn trim_leading_slashes(s: Seq<char>) -> Seq<char>
    decreases s.len(),
{
    if s.len() > 0 && s[0] == '/' {
        trim_leading_slashes(s.drop_first())
    } else {
        s
    }
}

pub fn relative_request_path(uri_path: &str) -> (r: String)
    ensures
        r@ == trim_leading_slashes(lossy_of(decode_bytes(uri_path.spec_bytes()))),
{
    let decoded = percent_decode(uri_path);
    let v = chars_of(decoded.as_str());
    let mut i: usize = 0;
    assert(v@.subrange(0, v@.len() as int) =~= v@);
    while i < v.len() && v[i] == '/'
        invariant
            i <= v@.len(),
            trim_leading_slashes(v@) == trim_leading_slashes(
                v@.subrange(i as int, v@.len() as int),
            ),
        decreases v@.len() - i,
    {
        assert(v@.subrange(i as int, v@.len() as int).drop_first() =~= v@.subrange(
            i + 1,
            v@.len() as int,
        ));
        i = i + 1;
    }
    string_of(&slice_chars(&v, i, v.len()))
}

/// Rounds `n / d` to the nearest integer, ties to even.
pub open spec fn round_half_even(n: nat, d: nat) -> nat
    recommends
        d > 0,
{
    let q = n / d;
    let r = n % d;
    if 2 * r > d || (2 * r == d && q % 2 == 1) {
        q + 1
    } else {
        q
    }
}

pub open spec fn size_unit(bytes: nat) -> (nat, Seq<char>) {
    if bytes >= 1073741824 {
        (1073741824, seq!['G', 'B'])
    } else if bytes >= 1048576 {
        (1048576, seq!['M', 'B'])
    } else {
        (1024, seq!['K', 'B'])
    }
}

/// A byte count for humans: whole bytes below 1 KiB, else KB, MB or GB
/// with one decimal, in units of 1024.
pub open spec fn size_text(bytes: nat) -> Seq<char> {
    if bytes < 1024 {
        decimal(bytes) + seq![' ', 'B']
    } else {
        let (unit, name) = size_unit(bytes);
        let tenths = round_half_even(bytes * 10, unit);
        decimal(tenths / 10) + seq!['.'] + decimal(tenths % 10) + seq![' '] + name
    }
}

pub fn format_size(bytes: u64) -> (r: String)
    ensures
        r@ == size_text(bytes as nat),
{
    let mut out: Vec<char> = Vec::new();
    if bytes < 1024 {
        push_decimal(&mut out, bytes);
        out.push(' ');
        out.push('B');
        assert(out@ =~= size_text(bytes as nat));
        return string_of(&out);
    }
    let unit: u128 = if bytes >= 1073741824 {
        1073741824
    } else if bytes >= 1048576 {
        1048576
    } else {
        1024
    };
    let n: u128 = bytes as u128 * 10;
    let q: u128 = n / unit;
    let rem: u128 = n % unit;
    let tenths: u128 = if 2 * rem > unit || (2 * rem == unit && q % 2 == 1) {
        q + 1
    } else {
        q
    };
    assert(tenths == round_half_even(bytes as nat * 10, unit as nat));
    assert(tenths / 10 <= u64::MAX) by (nonlinear_arith)
        requires
            q == n / unit,
            unit >= 1024,
            n == bytes as u128 * 10,
            tenths <= q + 1,
    {
    }
    push_decimal(&mut out, (tenths / 10) as u64);
    out.push('.');
    push_decimal(&mut out, (tenths % 10) as u64);
    out.push(' ');
    if bytes >= 1073741824 {
        out.push('G');
    } else if bytes >= 1048576 {
        out.push('M');
    } else {
        out.push('K');
    }
    out.push('B');
    assert(out@ =~= size_text(bytes as nat));
    string_of(&out)
}

} // verus!
