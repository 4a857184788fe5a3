//! Certificate selection for a TLS handshake and the bounded cache of
//! certificates minted on demand.
use vstd::prelude::*;

use crate::domain::{one_label_above, valid_domain, DomainName, DomainPattern};
use crate::text::{chars_equal, chars_of, ends_with_exec, free_of_exec, lower_of};

verus! {

/// How many on-demand certificates are kept before the cache is cleared.
pub const ON_DEMAND_CERT_CACHE_MAX: usize = 256;

/// Whether a wildcard certificate for `base` covers `hostname`: the base
/// itself or one label above it.
pub fn wildcard_cert_covers_hostname(base: &str, hostname: &str) -> (r: bool)
    ensures
        r == (hostname@ == base@ || one_label_above(hostname@, base@)),
{
    let h = chars_of(hostname);
    let b = chars_of(base);
    if chars_equal(&h, &b) {
        return true;
    }
    if h.len() <= b.len() || h.len() - b.len() <= 1 {
        return false;
    }
    if !ends_with_exec(&h, &b) {
        return false;
    }
    let dot = h.len() - b.len() - 1;
    h[dot] == '.' && free_of_exec(&h, 0, dot, '.')
}

/// A map from lowercased hostname to certificate holding at most
/// `capacity` entries; inserting into a full cache clears it first.
pub struct OnDemandCertCache<V> {
    entries: Vec<(String, V)>,
    capacity: usize,
}

/// The value of the first entry at or after `from` whose key is `k`.
pub open spec fn lookup_from<V>(s: Seq<(String, V)>, k: Seq<char>, from: int) -> Option<V>
    decreases s.len() - from,
{
    if from < 0 || from >= s.len() {
        None
    } else if s[from].0@ == k {
        Some(s[from].1)
    } else {
        lookup_from(s, k, from + 1)
    }
}

proof fn lemma_lookup_absent<V>(s: Seq<(String, V)>, k: Seq<char>, from: int)
    requires
        0 <= from,
        forall|j: int| from <= j < s.len() ==> (#[trigger] s[j]).0@ != k,
    ensures
        lookup_from(s, k, from) is None,
    decreases s.len() - from,
{
    if from < s.len() {
        lemma_lookup_absent(s, k, from + 1);
    }
}

proof fn lemma_lookup_at<V>(s: Seq<(String, V)>, k: Seq<char>, from: int, i: int)
    requires
        0 <= from <= i < s.len(),
        s[i].0@ == k,
        forall|a: int, b: int| 0 <= a < b < s.len() ==> (#[trigger] s[a]).0@ != (#[trigger] s[b]).0@,
    ensures
        lookup_from(s, k, from) == Some(s[i].1),
    decreases s.len() - from,
{
    if from < i {
        assert(s[from].0@ != s[i].0@);
        lemma_lookup_at(s, k, from + 1, i);
    }
}

/// Lookup in `s` and in `t` agree on `k` when both hold distinct keys and
/// the entries with key `k` are the same.
proof fn lemma_lookup_same<V>(s: Seq<(String, V)>, t: Seq<(String, V)>, k: Seq<char>)
    requires
        forall|a: int, b: int| 0 <= a < b < s.len() ==> (#[trigger] s[a]).0@ != (#[trigger] s[b]).0@,
        forall|a: int, b: int| 0 <= a < b < t.len() ==> (#[trigger] t[a]).0@ != (#[trigger] t[b]).0@,
        forall|i: int| 0 <= i < s.len() && (#[trigger] s[i]).0@ == k ==> exists|j: int|
            0 <= j < t.len() && (#[trigger] t[j]) == s[i],
        forall|j: int| 0 <= j < t.len() && (#[trigger] t[j]).0@ == k ==> exists|i: int|
            0 <= i < s.len() && (#[trigger] s[i]) == t[j],
    ensures
        lookup_from(s, k, 0) == lookup_from(t, k, 0),
{
    if exists|i: int| 0 <= i < s.len() && (#[trigger] s[i]).0@ == k {
        let i = choose|i: int| 0 <= i < s.len() && (#[trigger] s[i]).0@ == k;
        let j = choose|j: int| 0 <= j < t.len() && (#[trigger] t[j]) == s[i];
        lemma_lookup_at(s, k, 0, i);
        lemma_lookup_at(t, k, 0, j);
    } else {
        lemma_lookup_absent(s, k, 0);
        assert forall|j: int| 0 <= j < t.len() implies (#[trigger] t[j]).0@ != k by {
            if t[j].0@ == k {
                let i = choose|i: int| 0 <= i < s.len() && (#[trigger] s[i]) == t[j];
                assert(s[i].0@ == k);
            }
        }
        lemma_lookup_absent(t, k, 0);
    }
}

impl<V> OnDemandCertCache<V> {
    pub closed spec fn spec_entries(&self) -> Seq<(String, V)> {
        self.entries@
    }

    pub closed spec fn spec_capacity(&self) -> nat {
        self.capacity as nat
    }

    /// The value held for `k`, if any.
    pub open spec fn lookup(&self, k: Seq<char>) -> Option<V> {
        lookup_from(self.spec_entries(), k, 0)
    }

    /// At most `capacity` entries, keys distinct, capacity positive.
    pub open spec fn wf(&self) -> bool {
        &&& self.spec_capacity() > 0
        &&& self.spec_entries().len() <= self.spec_capacity()
        &&& forall|i: int, j: int|
            0 <= i < j < self.spec_entries().len() ==> (#[trigger] self.spec_entries()[i]).0@ != (
            #[trigger] self.spec_entries()[j]).0@
    }

    pub fn new(capacity: usize) -> (r: OnDemandCertCache<V>)
        requires
            capacity > 0,
        ensures
            r.wf(),
            r.spec_capacity() == capacity,
            r.spec_entries().len() == 0,
    {
        OnDemandCertCache { entries: Vec::new(), capacity }
    }

    pub fn len(&self) -> (r: usize)
        ensures
            r == self.spec_entries().len(),
    {
        self.entries.len()
    }

    pub fn capacity(&self) -> (r: usize)
        ensures
            r == self.spec_capacity(),
    {
        self.capacity
    }

    fn position(&self, host: &str) -> (r: Option<usize>)
        ensures
            r matches Some(i) ==> i < self.spec_entries().len() && self.spec_entries()[i as int].0@
                == host@,
            r is None ==> forall|k: int|
                0 <= k < self.spec_entries().len() ==> (#[trigger] self.spec_entries()[k]).0@
                    != host@,
    {
        let h = chars_of(host);
        let mut i: usize = 0;
        while i < self.entries.len()
            invariant
                h@ == host@,
                i <= self.spec_entries().len(),
                forall|k: int| 0 <= k < i ==> (#[trigger] self.spec_entries()[k]).0@ != host@,
            decreases self.spec_entries().len() - i,
        {
            if chars_equal(&chars_of(self.entries[i].0.as_str()), &h) {
                return Some(i);
            }
            i = i + 1;
        }
        None
    }

    pub fn get(&self, host: &str) -> (r: Option<&V>)
        requires
            self.wf(),
        ensures
            match self.lookup(host@) {
                Some(v) => r matches Some(x) && *x == v,
                None => r is None,
            },
    {
        match self.position(host) {
            Some(i) => {
                proof {
                    lemma_lookup_at(self.spec_entries(), host@, 0, i as int);
                }
                Some(&self.entries[i].1)
            },
            None => {
                proof {
                    lemma_lookup_absent(self.spec_entries(), host@, 0);
                }
                None
            },
        }
    }

    /// Stores `cert` for `host`, clearing the cache first when it is full.
    pub fn insert(&mut self, host: String, cert: V)
        requires
            old(self).wf(),
        ensures
            final(self).wf(),
            final(self).spec_capacity() == old(self).spec_capacity(),
            final(self).lookup(host@) == Some(cert),
            old(self).spec_entries().len() >= old(self).spec_capacity()
                ==> final(self).spec_entries().len() == 1,
            old(self).spec_entries().len() < old(self).spec_capacity() ==> forall|k: Seq<char>|
                k != host@ ==> #[trigger] final(self).lookup(k) == old(self).lookup(k),
    {
        if self.entries.len() >= self.capacity {
            self.entries.clear();
        }
        let ghost before = self.entries@;
        let ghost hv = host@;
        match self.position(host.as_str()) {
            Some(i) => {
                self.entries.set(i, (host, cert));
                proof {
                    let s = self.spec_entries();
                    assert(s.len() == before.len());
                    assert forall|a: int, b: int| 0 <= a < b < s.len() implies (#[trigger] s[a]).0@
                        != (#[trigger] s[b]).0@ by {
                        assert(before[a].0@ != before[b].0@);
                    }
                    lemma_lookup_at(s, hv, 0, i as int);
                    assert forall|k: Seq<char>| k != hv implies #[trigger] self.lookup(k)
                        == lookup_from(before, k, 0) by {
                        assert forall|a: int| 0 <= a < before.len() && (#[trigger] before[a]).0@
                            == k implies exists|j: int| 0 <= j < s.len() && (#[trigger] s[j])
                            == before[a] by {
                            assert(s[a] == before[a]);
                        }
                        assert forall|j: int| 0 <= j < s.len() && (#[trigger] s[j]).0@
                            == k implies exists|a: int| 0 <= a < before.len() && (#[trigger] before[a])
                            == s[j] by {
                            assert(s[j] == before[j]);
                        }
                        lemma_lookup_same(before, s, k);
                    }
                }
            },
            None => {
                self.entries.push((host, cert));
                proof {
                    let s = self.spec_entries();
                    let n = before.len() as int;
                    assert(s[n].0@ == hv);
                    lemma_lookup_at(s, hv, 0, n);
                    assert forall|k: Seq<char>| k != hv implies #[trigger] self.lookup(k)
                        == lookup_from(before, k, 0) by {
                        assert forall|i: int| 0 <= i < before.len() && (#[trigger] before[i]).0@
                            == k implies exists|j: int| 0 <= j < s.len() && (#[trigger] s[j])
                            == before[i] by {
                            assert(s[i] == before[i]);
                        }
                        lemma_lookup_same(before, s, k);
                    }
                }
            },
        }
    }
}

/// Where the certificate for a handshake comes from.
#[derive(Debug, Clone, Copy, PartialEq, Eq)]
pub enum CertChoice {
    /// The certificate minted earlier for this hostname.
    Cached,
    /// The certificate of the registered pattern at this index.
    Registered(usize),
    /// A fresh leaf signed by the root CA.
    Mint,
    /// None: the handshake fails.
    NoCertificate,
}

/// Index of the first pattern at or after `from` that matches `h`.
pub open spec fn first_matching(ps: Seq<DomainPattern>, h: Seq<char>, from: int) -> Option<int>
    decreases ps.len() - from,
{
    if from < 0 || from >= ps.len() {
        None
    } else if ps[from].matches(h) {
        Some(from)
    } else {
        first_matching(ps, h, from + 1)
    }
}

/// Precedence: the on-demand cache, then the first registered pattern that
/// matches, then minting for a valid `.roxy` name when the CA key is at
/// hand.
pub open spec fn certificate_choice(
    h: Seq<char>,
    cached: bool,
    patterns: Seq<DomainPattern>,
    has_ca_key: bool,
) -> CertChoice {
    if cached {
        CertChoice::Cached
    } else {
        match first_matching(patterns, h, 0) {
            Some(i) => CertChoice::Registered(i as usize),
            None => if has_ca_key && valid_domain(lower_of(h)) {
                CertChoice::Mint
            } else {
                CertChoice::NoCertificate
            },
        }
    }
}

/// Picks the certificate source for an SNI hostname (already lowercased).
pub fn choose_certificate(
    hostname: &str,
    cached: bool,
    patterns: &Vec<DomainPattern>,
    has_ca_key: bool,
) -> (r: CertChoice)
    ensures
        r == certificate_choice(hostname@, cached, patterns@, has_ca_key),
{
    if cached {
        return CertChoice::Cached;
    }
    let mut i: usize = 0;
    while i < patterns.len()
        invariant
            !cached,
            i <= patterns@.len(),
            first_matching(patterns@, hostname@, 0) == first_matching(patterns@, hostname@, i as int),
        decreases patterns@.len() - i,
    {
        if patterns[i].matches_hostname(hostname) {
            assert(first_matching(patterns@, hostname@, i as int) == Some(i as int));
            return CertChoice::Registered(i);
        }
        i = i + 1;
    }
    if has_ca_key && DomainName::new(hostname).is_ok() {
        return CertChoice::Mint;
    }
    CertChoice::NoCertificate
}

} // verus!
