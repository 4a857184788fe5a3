//! Path prefixes, backend targets and routes.
use vstd::prelude::*;

use crate::text::{
    chars_equal, chars_of, digits_value, find, is_alphabetic, alphabetic, is_ascii_alnum,
    is_ascii_alnum_exec, last_index_of, parse_u16, parses_as_u16, push_decimal,
    decimal, rfind, slice_chars, starts_with, starts_with_exec, string_of, trim, trim_of,
    unsigned_digits, first_index_of,
};

verus! {

/// Characters a path prefix may hold.
pub open spec fn is_prefix_char(c: char) -> bool {
    is_ascii_alnum(c) || c == '-' || c == '_' || c == '.' || c == '~' || c == '/'
}

/// Prefix `p` covers request path `q`: `/` covers everything; any other
/// prefix covers itself and whatever continues it after a `/`.
pub open spec fn prefix_covers(p: Seq<char>, q: Seq<char>) -> bool {
    p == seq!['/'] || (starts_with(q, p) && (q.len() == p.len() || q[p.len() as int] == '/'))
}

#[derive(Debug, Clone, PartialEq, Eq, Hash)]
pub struct PathPrefix(String);

#[derive(Debug, Clone, Copy, PartialEq, Eq)]
pub enum PathPrefixError {
    MustStartWithSlash,
    TrailingSlash,
    InvalidCharacters,
}

impl View for PathPrefix {
    type V = Seq<char>;

    closed spec fn view(&self) -> Seq<char> {
        self.0@
    }
}

impl PathPrefix {
    pub open spec fn valid(p: Seq<char>) -> bool {
        &&& p.len() > 0 && p[0] == '/'
        &&& !(p.len() > 1 && p.last() == '/')
        &&& forall|i: int| 0 <= i < p.len() ==> is_prefix_char(#[trigger] p[i])
    }

    /// Accepts a path that starts with `/`, has no trailing `/` unless it is
    /// `/` itself, and holds only letters, digits and `-_.~/`.
    /// Why `p` is refused as a prefix, checked in this order.
    pub open spec fn refusal(p: Seq<char>) -> Option<PathPrefixError> {
        if !(p.len() > 0 && p[0] == '/') {
            Some(PathPrefixError::MustStartWithSlash)
        } else if p.len() > 1 && p.last() == '/' {
            Some(PathPrefixError::TrailingSlash)
        } else if !PathPrefix::valid(p) {
            Some(PathPrefixError::InvalidCharacters)
        } else {
            None
        }
    }

    pub fn new(path: &str) -> (r: Result<PathPrefix, PathPrefixError>)
        ensures
            PathPrefix::refusal(path@) is None <==> PathPrefix::valid(path@),
            match PathPrefix::refusal(path@) {
                Some(e) => r == Err::<PathPrefix, _>(e),
                None => r matches Ok(p) && p@ == path@,
            },
    {
        let v = chars_of(path);
        if v.len() == 0 || v[0] != '/' {
            return Err(PathPrefixError::MustStartWithSlash);
        }
        if v.len() > 1 && v[v.len() - 1] == '/' {
            return Err(PathPrefixError::TrailingSlash);
        }
        let mut i: usize = 0;
        while i < v.len()
            invariant
                v@ == path@,
                v@.len() > 0 && v@[0] == '/',
                !(v@.len() > 1 && v@.last() == '/'),
                i <= v@.len(),
                forall|k: int| 0 <= k < i ==> is_prefix_char(#[trigger] v@[k]),
            decreases v@.len() - i,
        {
            let c = v[i];
            if !(is_ascii_alnum_exec(c) || c == '-' || c == '_' || c == '.' || c == '~' || c
                == '/') {
                assert(!is_prefix_char(v@[i as int]));
                return Err(PathPrefixError::InvalidCharacters);
            }
            i = i + 1;
        }
        Ok(PathPrefix(path.to_owned()))
    }

    pub fn matches(&self, request_path: &str) -> (r: bool)
        ensures
            r == prefix_covers(self@, request_path@),
    {
        let p = chars_of(self.0.as_str());
        let q = chars_of(request_path);
        let root: Vec<char> = vec!['/'];
        assert(root@ =~= seq!['/']);
        if chars_equal(&p, &root) {
            assert(p@ =~= seq!['/']);
            return true;
        }
        assert(p@ != seq!['/']);
        starts_with_exec(&q, &p) && (q.len() == p.len() || q[p.len()] == '/')
    }

    /// Number of characters in the prefix.
    pub fn len(&self) -> (r: usize)
        ensures
            r == self@.len(),
    {
        chars_of(self.0.as_str()).len()
    }

    pub fn is_empty(&self) -> (r: bool)
        ensures
            r == (self@.len() == 0),
    {
        self.len() == 0
    }

    pub fn as_str(&self) -> (r: &str)
        ensures
            r@ == self@,
    {
        self.0.as_str()
    }

    pub fn to_string(&self) -> (r: String)
        ensures
            r@ == self@,
    {
        self.0.clone()
    }

    /// Whether two prefixes are the same path.
    pub fn same_as(&self, other: &PathPrefix) -> (r: bool)
        ensures
            r == (self@ == other@),
    {
        self.0 == other.0
    }
}

/// For a prefix other than `/`, a request path is covered exactly when it is
/// the prefix or starts with the prefix followed by `/`; so `/api` covers
/// `/api`, `/api/` and `/api/x` but neither `/apix` nor `/application`.
pub proof fn lemma_prefix_boundary(p: PathPrefix, q: Seq<char>)
    requires
        PathPrefix::valid(p@),
        p@ != seq!['/'],
    ensures
        prefix_covers(p@, q) <==> (q == p@ || starts_with(q, p@ + seq!['/'])),
{
    let pp = p@ + seq!['/'];
    let n = p@.len() as int;
    if prefix_covers(p@, q) {
        if q.len() != n {
            assert forall|i: int| 0 <= i < pp.len() implies q.subrange(0, pp.len() as int)[i]
                == pp[i] by {
                if i < n {
                    assert(q.subrange(0, n)[i] == p@[i]);
                }
            }
            assert(q.subrange(0, pp.len() as int) =~= pp);
        } else {
            assert(q =~= q.subrange(0, n));
        }
    }
    if q == p@ {
        assert(q.subrange(0, n) =~= q);
    }
    if starts_with(q, pp) {
        assert forall|i: int| 0 <= i < n implies q.subrange(0, n)[i] == p@[i] by {
            assert(q.subrange(0, pp.len() as int)[i] == pp[i]);
        }
        assert(q.subrange(0, n) =~= p@);
        assert(q.subrange(0, pp.len() as int)[n] == pp[n]);
    }
}

#[derive(Debug, Clone, Copy, PartialEq, Eq)]
pub struct Port(u16);

#[derive(Debug, Clone, Copy, PartialEq, Eq)]
pub enum PortError {
    OutOfRange(u16),
    Privileged(u16),
}

impl View for Port {
    type V = u16;

    closed spec fn view(&self) -> u16 {
        self.0
    }
}

impl Port {
    /// Backends listen on unprivileged ports: 1024 and up.
    pub fn new(port: u16) -> (r: Result<Port, PortError>)
        ensures
            r is Ok <==> port >= 1024,
            r matches Ok(p) ==> p@ == port,
            r == Err::<Port, _>(PortError::OutOfRange(port)) <==> port == 0,
            r == Err::<Port, _>(PortError::Privileged(port)) <==> 0 < port < 1024,
    {
        if port == 0 {
            return Err(PortError::OutOfRange(port));
        }
        if port < 1024 {
            return Err(PortError::Privileged(port));
        }
        Ok(Port(port))
    }

    pub fn value(&self) -> (r: u16)
        ensures
            r == self@,
    {
        self.0
    }
}

pub open spec fn loopback_host() -> Seq<char> {
    seq!['1', '2', '7', '.', '0', '.', '0', '.', '1']
}

/// Text before the last `:` names a host when it holds a letter or a dot.
pub open spec fn names_host(h: Seq<char>) -> bool {
    exists|i: int| 0 <= i < h.len() && (alphabetic(#[trigger] h[i]) || h[i] == '.')
}

/// Whether a trimmed target text carries its own host before a `:`.
pub open spec fn has_host_part(t: Seq<char>) -> bool {
    last_index_of(t, ':') >= 0 && names_host(t.subrange(0, last_index_of(t, ':')))
}

/// The host a trimmed target text names.
pub open spec fn target_host(t: Seq<char>) -> Seq<char> {
    if has_host_part(t) {
        t.subrange(0, last_index_of(t, ':'))
    } else {
        loopback_host()
    }
}

/// The text that holds the port.
pub open spec fn target_port_text(t: Seq<char>) -> Seq<char> {
    if has_host_part(t) {
        t.subrange(last_index_of(t, ':') + 1, t.len() as int)
    } else {
        t
    }
}

pub open spec fn target_port_value(t: Seq<char>) -> nat {
    digits_value(unsigned_digits(target_port_text(t)))
}

/// What reading a backend target from `s` yields: its host and port, or
/// the error.
pub open spec fn target_outcome(s: Seq<char>) -> Result<(Seq<char>, u16), ProxyTargetError> {
    let t = trim_of(s);
    if t.len() == 0 {
        Err(ProxyTargetError::Empty)
    } else if !parses_as_u16(target_port_text(t)) {
        Err(ProxyTargetError::ParsePort)
    } else if target_port_value(t) == 0 {
        Err(ProxyTargetError::InvalidPort(PortError::OutOfRange(0)))
    } else if target_port_value(t) < 1024 {
        Err(ProxyTargetError::InvalidPort(PortError::Privileged(target_port_value(t) as u16)))
    } else {
        Ok((target_host(t), target_port_value(t) as u16))
    }
}

#[derive(Debug, Clone, PartialEq, Eq)]
pub struct ProxyTarget {
    host: String,
    port: Port,
}

#[derive(Debug, Clone, Copy, PartialEq, Eq)]
pub enum ProxyTargetError {
    InvalidPort(PortError),
    ParsePort,
    Empty,
}

impl View for ProxyTarget {
    type V = (Seq<char>, u16);

    closed spec fn view(&self) -> (Seq<char>, u16) {
        (self.host@, self.port@)
    }
}

impl ProxyTarget {
    pub fn new(host: String, port: Port) -> (r: ProxyTarget)
        ensures
            r@ == (host@, port@),
    {
        ProxyTarget { host, port }
    }

    pub fn localhost(port: Port) -> (r: ProxyTarget)
        ensures
            r@ == (loopback_host(), port@),
    {
        let host = string_of(&vec!['1', '2', '7', '.', '0', '.', '0', '.', '1']);
        proof {
            assert(host@ =~= loopback_host());
        }
        ProxyTarget::new(host, port)
    }

    /// Reads `PORT` or `HOST:PORT` (surrounding whitespace ignored); a bare
    /// port means the loopback host.
    pub fn parse(s: &str) -> (r: Result<ProxyTarget, ProxyTargetError>)
        ensures
            match target_outcome(s@) {
                Ok(v) => r matches Ok(p) && p@ == v,
                Err(e) => r == Err::<ProxyTarget, _>(e),
            },
    {
        let trimmed = trim(s);
        let t = chars_of(trimmed.as_str());
        if t.len() == 0 {
            return Err(ProxyTargetError::Empty);
        }
        let ghost tv = t@;
        let mut host_end: Option<usize> = None;
        match rfind(&t, ':') {
            Some(c) => {
                let mut i: usize = 0;
                let mut named = false;
                while i < c
                    invariant
                        c < t@.len(),
                        i <= c,
                        named == exists|k: int|
                            0 <= k < i && (alphabetic(#[trigger] t@[k]) || t@[k] == '.'),
                    decreases c - i,
                {
                    let ch = t[i];
                    if is_alphabetic(ch) || ch == '.' {
                        named = true;
                    }
                    i = i + 1;
                }
                proof {
                    let h = t@.subrange(0, c as int);
                    if named {
                        let k = choose|k: int|
                            0 <= k < c && (alphabetic(#[trigger] t@[k]) || t@[k] == '.');
                        assert(alphabetic(h[k]) || h[k] == '.');
                    } else {
                        assert forall|k: int| 0 <= k < h.len() implies !(alphabetic(
                            #[trigger] h[k],
                        ) || h[k] == '.') by {
                            assert(h[k] == t@[k]);
                        }
                    }
                    assert(named == names_host(h));
                }
                if named {
                    host_end = Some(c);
                }
            },
            None => {},
        }
        let port_text = match host_end {
            Some(c) => slice_chars(&t, c + 1, t.len()),
            None => slice_chars(&t, 0, t.len()),
        };
        assert(port_text@ == target_port_text(tv)) by {
            if host_end is None {
                assert(t@.subrange(0, t@.len() as int) =~= t@);
            }
        }
        let value = match parse_u16(&port_text) {
            Some(v) => v,
            None => {
                return Err(ProxyTargetError::ParsePort);
            },
        };
        let port = match Port::new(value) {
            Ok(p) => p,
            Err(e) => {
                return Err(ProxyTargetError::InvalidPort(e));
            },
        };
        match host_end {
            Some(c) => {
                let host = string_of(&slice_chars(&t, 0, c));
                Ok(ProxyTarget::new(host, port))
            },
            None => Ok(ProxyTarget::localhost(port)),
        }
    }

    pub fn host(&self) -> (r: &str)
        ensures
            r@ == self@.0,
    {
        self.host.as_str()
    }

    pub fn port(&self) -> (r: Port)
        ensures
            r@ == self@.1,
    {
        self.port
    }

    /// `host:port`.
    pub fn to_string(&self) -> (r: String)
        ensures
            r@ == self@.0 + seq![':'] + decimal(self@.1 as nat),
    {
        let mut out = chars_of(self.host.as_str());
        out.push(':');
        push_decimal(&mut out, self.port.value() as u64);
        string_of(&out)
    }
}

} // verus!

verus! {

/// What a filesystem probe found at a directory target's path.
#[derive(Debug, Clone, PartialEq, Eq)]
pub enum PathKind {
    Missing,
    NotADirectory,
    /// A directory, with its canonical path.
    Directory(String),
}

#[derive(Debug, Clone, PartialEq, Eq)]
pub enum RouteTarget {
    Proxy(ProxyTarget),
    StaticFiles(String),
}

#[derive(Debug, Clone, PartialEq, Eq)]
pub enum RouteTargetError {
    PathNotFound(String),
    NotADirectory(String),
    InvalidProxyTarget(ProxyTargetError),
}

#[derive(Debug, Clone, PartialEq, Eq)]
pub enum RouteError {
    InvalidPathPrefix(PathPrefixError),
    InvalidTarget(RouteTargetError),
    InvalidFormat(String),
}

/// Why `s` is refused as a route target.
pub open spec fn target_refusal(s: Seq<char>) -> Option<RouteTargetError> {
    if s.len() > 0 && s[0] == '/' {
        None
    } else {
        match target_outcome(s) {
            Ok(_) => None,
            Err(e) => Some(RouteTargetError::InvalidProxyTarget(e)),
        }
    }
}

/// `t` is what reading `s` as a route target gives.
pub open spec fn parsed_as(s: Seq<char>, t: RouteTarget) -> bool {
    if s.len() > 0 && s[0] == '/' {
        t matches RouteTarget::StaticFiles(p) && p@ == s
    } else {
        target_outcome(s) matches Ok(v) && t matches RouteTarget::Proxy(q) && q@ == v
    }
}

impl RouteTarget {
    /// Reads a target: text starting with `/` names a directory, anything
    /// else a backend.
    pub fn parse(s: &str) -> (r: Result<RouteTarget, RouteTargetError>)
        ensures
            match target_refusal(s@) {
                Some(e) => r == Err::<RouteTarget, _>(e),
                None => r matches Ok(t) && parsed_as(s@, t),
            },
    {
        let v = chars_of(s);
        if v.len() > 0 && v[0] == '/' {
            return Ok(RouteTarget::StaticFiles(s.to_owned()));
        }
        match ProxyTarget::parse(s) {
            Ok(t) => Ok(RouteTarget::Proxy(t)),
            Err(e) => Err(RouteTargetError::InvalidProxyTarget(e)),
        }
    }

    /// A directory target for `path`, given what a probe of the
    /// filesystem found there.
    pub fn static_dir(path: String, kind: PathKind) -> (r: Result<RouteTarget, RouteTargetError>)
        ensures
            match kind {
                PathKind::Missing => r == Err::<RouteTarget, _>(RouteTargetError::PathNotFound(path)),
                PathKind::NotADirectory => r == Err::<RouteTarget, _>(
                    RouteTargetError::NotADirectory(path),
                ),
                PathKind::Directory(c) => r == Ok::<_, RouteTargetError>(RouteTarget::StaticFiles(c)),
            },
    {
        match kind {
            PathKind::Missing => Err(RouteTargetError::PathNotFound(path)),
            PathKind::NotADirectory => Err(RouteTargetError::NotADirectory(path)),
            PathKind::Directory(c) => Ok(RouteTarget::StaticFiles(c)),
        }
    }

    pub open spec fn text(&self) -> Seq<char> {
        match self {
            RouteTarget::Proxy(p) => p@.0 + seq![':'] + decimal(p@.1 as nat),
            RouteTarget::StaticFiles(d) => d@,
        }
    }

    /// `host:port` for a backend, the directory path otherwise.
    pub fn to_string(&self) -> (r: String)
        ensures
            r@ == self.text(),
    {
        match self {
            RouteTarget::Proxy(p) => p.to_string(),
            RouteTarget::StaticFiles(d) => d.clone(),
        }
    }
}

#[derive(Debug, Clone)]
pub struct Route {
    pub path: PathPrefix,
    pub target: RouteTarget,
}

impl Route {
    pub fn new(path: PathPrefix, target: RouteTarget) -> (r: Route)
        ensures
            r.path == path && r.target == target,
    {
        Route { path, target }
    }

    /// Reads `PATH=TARGET`, split at the first `=`.
    pub fn parse(s: &str) -> (r: Result<Route, RouteError>)
        ensures
            first_index_of(s@, '=') < 0 ==> (r matches Err(RouteError::InvalidFormat(t)) && t@
                == s@),
            ({
                let e = first_index_of(s@, '=');
                let ps = s@.subrange(0, e);
                let ts = s@.subrange(e + 1, s@.len() as int);
                e >= 0 ==> match PathPrefix::refusal(ps) {
                    Some(pe) => r == Err::<Route, _>(RouteError::InvalidPathPrefix(pe)),
                    None => match target_refusal(ts) {
                        Some(te) => r == Err::<Route, _>(RouteError::InvalidTarget(te)),
                        None => r matches Ok(route) && route.path@ == ps && parsed_as(
                            ts,
                            route.target,
                        ),
                    },
                }
            }),
    {
        let v = chars_of(s);
        let e = match find(&v, '=') {
            Some(e) => e,
            None => {
                return Err(RouteError::InvalidFormat(s.to_owned()));
            },
        };
        let n: usize = v.len();
        assert(e < n);
        let path_str = string_of(&slice_chars(&v, 0, e));
        let target_str = string_of(&slice_chars(&v, e + 1, v.len()));
        let path = match PathPrefix::new(path_str.as_str()) {
            Ok(p) => p,
            Err(pe) => {
                return Err(RouteError::InvalidPathPrefix(pe));
            },
        };
        let target = match RouteTarget::parse(target_str.as_str()) {
            Ok(t) => t,
            Err(te) => {
                return Err(RouteError::InvalidTarget(te));
            },
        };
        Ok(Route { path, target })
    }
}

} // verus!
