//! The registry snapshot that requests are dispatched against: registrations
//! ordered from most to least specific, looked up first-match.
use vstd::prelude::*;

use crate::domain::DomainPattern;
use crate::registration::DomainRegistration;
use crate::text::{chars_of, find, first_index_of, lower_of, lowercase, slice_chars, string_of};

verus! {

broadcast use vstd::seq_lib::group_to_multiset_ensures;

/// `a` may stand before `b`: its base is longer, or as long and `a` is not a
/// wildcard unless `b` is one too.
pub open spec fn ordered(a: DomainPattern, b: DomainPattern) -> bool {
    a.spec_specificity() > b.spec_specificity() || (a.spec_specificity() == b.spec_specificity()
        && (!a.wildcard() || b.wildcard()))
}

/// `a` must stand before `b`.
pub open spec fn strictly_before(a: DomainPattern, b: DomainPattern) -> bool {
    a.spec_specificity() > b.spec_specificity() || (a.spec_specificity() == b.spec_specificity()
        && !a.wildcard() && b.wildcard())
}

/// Descending specificity, exact before wildcard at equal specificity.
pub open spec fn sorted(s: Seq<DomainRegistration>) -> bool {
    forall|i: int, j: int|
        0 <= i < j < s.len() ==> ordered(#[trigger] s[i]@.pattern, #[trigger] s[j]@.pattern)
}

/// Index `i` holds the first registration of `s` whose pattern matches `h`.
pub open spec fn first_match(s: Seq<DomainRegistration>, h: Seq<char>, i: int) -> bool {
    &&& 0 <= i < s.len()
    &&& s[i]@.pattern.matches(h)
    &&& forall|j: int| 0 <= j < i ==> !(#[trigger] s[j]@.pattern).matches(h)
}

/// The part of a `Host` value before its first `:`.
pub open spec fn before_colon(s: Seq<char>) -> Seq<char> {
    if first_index_of(s, ':') < 0 {
        s
    } else {
        s.subrange(0, first_index_of(s, ':'))
    }
}

/// `s` without its trailing dots.
pub open spec fn trim_trailing_dots(s: Seq<char>) -> Seq<char>
    decreases s.len(),
{
    if s.len() > 0 && s.last() == '.' {
        trim_trailing_dots(s.drop_last())
    } else {
        s
    }
}

/// A `Host` value without its port and trailing dots; lowercasing follows.
pub open spec fn host_text(host: Seq<char>) -> Seq<char> {
    trim_trailing_dots(before_colon(host))
}

/// The hostname a `Host` value names: port and trailing dots stripped,
/// lowercased.
pub open spec fn normalized_host(host: Seq<char>) -> Seq<char> {
    lower_of(host_text(host))
}

/// Strips the port and the trailing dots from a `Host` value.
pub fn strip_host(host: &str) -> (r: String)
    ensures
        r@ == host_text(host@),
{
    let v = chars_of(host);
    let base = match find(&v, ':') {
        Some(c) => slice_chars(&v, 0, c),
        None => v,
    };
    assert(base@ == before_colon(host@)) by {
        if first_index_of(host@, ':') < 0 {
            assert(v@.subrange(0, v@.len() as int) =~= v@);
        }
    }
    let mut n: usize = base.len();
    assert(base@.subrange(0, n as int) =~= base@);
    while n > 0 && base[n - 1] == '.'
        invariant
            n <= base@.len(),
            trim_trailing_dots(base@) == trim_trailing_dots(base@.subrange(0, n as int)),
        decreases n,
    {
        assert(base@.subrange(0, n as int).drop_last() =~= base@.subrange(0, n - 1));
        n = n - 1;
    }
    let out = slice_chars(&base, 0, n);
    string_of(&out)
}

/// Normalizes a `Host` value for lookup.
pub fn normalize_host(host: &str) -> (r: String)
    ensures
        r@ == normalized_host(host@),
{
    let stripped = strip_host(host);
    lowercase(stripped.as_str())
}

pub struct AppState {
    registrations: Vec<DomainRegistration>,
}

impl View for AppState {
    type V = Seq<DomainRegistration>;

    closed spec fn view(&self) -> Seq<DomainRegistration> {
        self.registrations@
    }
}

fn must_precede(a: &DomainPattern, b: &DomainPattern) -> (r: bool)
    ensures
        r == strictly_before(*a, *b),
{
    let sa = a.specificity();
    let sb = b.specificity();
    sa > sb || (sa == sb && !a.is_wildcard() && b.is_wildcard())
}

impl AppState {
    #[verifier::type_invariant]
    spec fn inv(&self) -> bool {
        sorted(self.registrations@)
    }

    /// Orders the registrations from most to least specific, exact before
    /// wildcard on a tie, keeping the given order otherwise.
    pub fn new(registrations: Vec<DomainRegistration>) -> (r: AppState)
        ensures
            sorted(r@),
            r@.to_multiset() == registrations@.to_multiset(),
    {
        let ghost orig = registrations@;
        let mut rest = registrations;
        let mut out: Vec<DomainRegistration> = Vec::new();
        let ghost mut taken: int = 0;
        while rest.len() > 0
            invariant
                0 <= taken <= orig.len(),
                rest@ == orig.subrange(taken, orig.len() as int),
                out@.to_multiset() == orig.subrange(0, taken).to_multiset(),
                sorted(out@),
            decreases rest@.len(),
        {
            let x = rest.remove(0);
            assert(orig.subrange(0, taken + 1) =~= orig.subrange(0, taken).push(x));
            let mut p: usize = 0;
            while p < out.len() && !must_precede(x.pattern(), out[p].pattern())
                invariant
                    p <= out@.len(),
                    forall|k: int| 0 <= k < p ==> !strictly_before(x@.pattern, #[trigger] out@[k]@.pattern),
                decreases out@.len() - p,
            {
                p = p + 1;
            }
            let ghost before = out@;
            out.insert(p, x);
            proof {
                assert(out@ == before.insert(p as int, x));
                assert forall|i: int, j: int|
                    0 <= i < j < out@.len() implies ordered(
                    #[trigger] out@[i]@.pattern,
                    #[trigger] out@[j]@.pattern,
                ) by {
                    if j == p {
                        assert(out@[i] == before[i]);
                        assert(!strictly_before(x@.pattern, before[i]@.pattern));
                    } else if i == p {
                        assert(out@[j] == before[j - 1]);
                        assert(strictly_before(x@.pattern, before[p as int]@.pattern));
                        if j - 1 > p {
                            assert(ordered(before[p as int]@.pattern, before[j - 1]@.pattern));
                        }
                    } else if i < p && j < p {
                        assert(ordered(before[i]@.pattern, before[j]@.pattern));
                    } else if i < p {
                        assert(ordered(before[i]@.pattern, before[j - 1]@.pattern));
                    } else {
                        assert(ordered(before[i - 1]@.pattern, before[j - 1]@.pattern));
                    }
                }
                taken = taken + 1;
                assert(rest@ =~= orig.subrange(taken, orig.len() as int));
            }
        }
        assert(orig.subrange(0, taken) =~= orig);
        AppState { registrations: out }
    }

    /// The registrations, most specific first.
    pub fn registrations(&self) -> (r: &[DomainRegistration])
        ensures
            r@ == self@,
            sorted(self@),
    {
        proof {
            use_type_invariant(self);
        }
        self.registrations.as_slice()
    }

    /// The first registration whose pattern matches `hostname` as given.
    pub fn find_registration(&self, hostname: &str) -> (r: Option<&DomainRegistration>)
        ensures
            r is None <==> forall|j: int|
                0 <= j < self@.len() ==> !(#[trigger] self@[j]@.pattern).matches(hostname@),
            r matches Some(reg) ==> exists|i: int|
                first_match(self@, hostname@, i) && *reg == self@[i],
            sorted(self@),
    {
        proof {
            use_type_invariant(self);
        }
        let mut i: usize = 0;
        while i < self.registrations.len()
            invariant
                sorted(self@),
                i <= self@.len(),
                forall|j: int| 0 <= j < i ==> !(#[trigger] self@[j]@.pattern).matches(hostname@),
            decreases self@.len() - i,
        {
            if self.registrations[i].pattern().matches_hostname(hostname) {
                return Some(&self.registrations[i]);
            }
            i = i + 1;
        }
        None
    }

    /// The first registration whose pattern matches the normalized host.
    pub fn get_domain(&self, host: &str) -> (r: Option<&DomainRegistration>)
        ensures
            r is None <==> forall|j: int|
                0 <= j < self@.len() ==> !(#[trigger] self@[j]@.pattern).matches(
                    normalized_host(host@),
                ),
            r matches Some(reg) ==> exists|i: int|
                first_match(self@, normalized_host(host@), i) && *reg == self@[i],
            sorted(self@),
    {
        let domain = normalize_host(host);
        self.find_registration(domain.as_str())
    }
}

/// In a sorted snapshot, the registration that lookup returns for a hostname
/// is at least as specific as any other that matches it, and at equal
/// specificity an exact pattern is returned before a wildcard.
pub proof fn lemma_most_specific_wins(s: Seq<DomainRegistration>, h: Seq<char>, i: int, j: int)
    requires
        sorted(s),
        first_match(s, h, i),
        0 <= j < s.len(),
        s[j]@.pattern.matches(h),
    ensures
        s[i]@.pattern.spec_specificity() >= s[j]@.pattern.spec_specificity(),
        s[i]@.pattern.spec_specificity() == s[j]@.pattern.spec_specificity()
            && !s[j]@.pattern.wildcard() ==> !s[i]@.pattern.wildcard(),
{
    if i != j {
        assert(i < j);
        assert(ordered(s[i]@.pattern, s[j]@.pattern));
    }
}

} // verus!

verus! {

/// What a request is dispatched to.
#[derive(Debug)]
pub enum Dispatch {
    /// No `Host` header: 400.
    MissingHost,
    /// No registration matches the host: themed 404.
    NotRegistered,
    /// The registration at this index has no route for the path: themed 404.
    NoRoute(usize),
    /// Route `route` of registration `registration` serves the request.
    Route { registration: usize, route: usize },
}

/// The dispatch owed to a request with `host` and `path` on snapshot `s`.
pub open spec fn dispatch_spec(s: Seq<DomainRegistration>, host: Option<Seq<char>>, path: Seq<char>, d: Dispatch) -> bool {
    match host {
        None => d is MissingHost,
        Some(h) => {
            let n = normalized_host(h);
            if forall|j: int| 0 <= j < s.len() ==> !(#[trigger] s[j]@.pattern).matches(n) {
                d is NotRegistered
            } else {
                match d {
                    Dispatch::NoRoute(i) => first_match(s, n, i as int) && forall|k: int|
                        0 <= k < s[i as int]@.routes.len() ==> !crate::route::prefix_covers(
                            (#[trigger] s[i as int]@.routes[k]).path@,
                            path,
                        ),
                    Dispatch::Route { registration: i, route: k } => first_match(s, n, i as int)
                        && crate::registration::best_route(s[i as int]@.routes, path, k as int),
                    _ => false,
                }
            }
        },
    }
}

impl AppState {
    /// Resolves `(host, path)` to a registration and route: the first
    /// registration whose pattern matches the normalized host, then its
    /// longest covering prefix.
    pub fn dispatch(&self, host: Option<&str>, path: &str) -> (r: Dispatch)
        ensures
            dispatch_spec(
                self@,
                match host {
                    Some(h) => Some(h@),
                    None => None,
                },
                path@,
                r,
            ),
            sorted(self@),
    {
        proof {
            use_type_invariant(self);
        }
        let h = match host {
            Some(h) => h,
            None => {
                return Dispatch::MissingHost;
            },
        };
        let domain = normalize_host(h);
        let mut i: usize = 0;
        while i < self.registrations.len()
            invariant
                sorted(self@),
                host == Some(h),
                domain@ == normalized_host(h@),
                i <= self@.len(),
                forall|j: int| 0 <= j < i ==> !(#[trigger] self@[j]@.pattern).matches(domain@),
            decreases self@.len() - i,
        {
            if self.registrations[i].pattern().matches_hostname(domain.as_str()) {
                let reg = &self.registrations[i];
                let mut best: Option<usize> = None;
                let routes = reg.routes();
                let mut k: usize = 0;
                while k < routes.len()
                    invariant
                        sorted(self@),
                        host == Some(h),
                        i < self@.len(),
                        domain@ == normalized_host(h@),
                        self@[i as int]@.pattern.matches(domain@),
                        forall|j: int| 0 <= j < i ==> !(#[trigger] self@[j]@.pattern).matches(domain@),
                        routes@ == self@[i as int]@.routes,
                        k <= routes@.len(),
                        best is None ==> forall|j: int|
                            0 <= j < k ==> !crate::route::prefix_covers(
                                (#[trigger] routes@[j]).path@,
                                path@,
                            ),
                        best matches Some(b) ==> b < k && crate::registration::best_route(
                            routes@.subrange(0, k as int),
                            path@,
                            b as int,
                        ),
                    decreases routes@.len() - k,
                {
                    let ghost before = routes@.subrange(0, k as int);
                    let ghost after = routes@.subrange(0, k + 1);
                    assert(forall|j: int| 0 <= j < k ==> before[j] == after[j]);
                    if routes[k].path.matches(path) {
                        let take = match best {
                            None => true,
                            Some(b) => routes[k].path.len() >= routes[b].path.len(),
                        };
                        if take {
                            best = Some(k);
                        }
                    }
                    k = k + 1;
                }
                assert(routes@.subrange(0, k as int) =~= routes@);
                return match best {
                    None => Dispatch::NoRoute(i),
                    Some(b) => Dispatch::Route { registration: i, route: b },
                };
            }
            i = i + 1;
        }
        Dispatch::NotRegistered
    }
}

} // verus!
