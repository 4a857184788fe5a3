//! A registered domain pattern with its routes.
use vstd::prelude::*;

use crate::domain::{DomainName, DomainPattern};
use crate::route::{prefix_covers, PathKind, PathPrefix, Route, RouteTarget};

verus! {

#[derive(Debug, Clone, PartialEq, Eq)]
pub enum RegistrationError {
    PathNotFound(String),
    NotADirectory(String),
    RouteExists(String),
    RouteNotFound(String),
    CannotRemoveLastRoute,
}

/// The contents of a registration.
pub ghost struct RegistrationView {
    pub pattern: DomainPattern,
    pub routes: Seq<Route>,
    pub https: bool,
}

#[derive(Debug, Clone)]
pub struct DomainRegistration {
    pattern: DomainPattern,
    routes: Vec<Route>,
    https_enabled: bool,
}

impl View for DomainRegistration {
    type V = RegistrationView;

    closed spec fn view(&self) -> RegistrationView {
        RegistrationView { pattern: self.pattern, routes: self.routes@, https: self.https_enabled }
    }
}

/// Some route in `routes` has prefix `p`.
pub open spec fn has_prefix(routes: Seq<Route>, p: Seq<char>) -> bool {
    exists|i: int| 0 <= i < routes.len() && (#[trigger] routes[i]).path@ == p
}

/// The routes whose prefix is not `p`, in order.
pub open spec fn without_prefix(routes: Seq<Route>, p: Seq<char>) -> Seq<Route> {
    routes.filter(|rt: Route| rt.path@ != p)
}

/// Index of the first directory route at or after `from` whose probe did
/// not find a directory.
pub open spec fn first_bad_dir(routes: Seq<Route>, probes: Seq<PathKind>, from: int) -> Option<int>
    decreases routes.len() - from,
{
    if from < 0 || from >= routes.len() {
        None
    } else if routes[from].target is StaticFiles && !(probes[from] is Directory) {
        Some(from)
    } else {
        first_bad_dir(routes, probes, from + 1)
    }
}

/// Index `i` holds the route that serves `q`: its prefix covers `q`, and no
/// covering prefix is longer; among equally long ones the last wins.
pub open spec fn best_route(routes: Seq<Route>, q: Seq<char>, i: int) -> bool {
    &&& 0 <= i < routes.len()
    &&& prefix_covers(routes[i].path@, q)
    &&& forall|j: int|
        0 <= j < routes.len() && prefix_covers(#[trigger] routes[j].path@, q) ==> routes[j].path@.len()
            <= routes[i].path@.len()
    &&& forall|j: int|
        i < j < routes.len() && prefix_covers(#[trigger] routes[j].path@, q) ==> routes[j].path@.len()
            < routes[i].path@.len()
}

impl DomainRegistration {
    /// Routes are present and their prefixes pairwise distinct.
    pub open spec fn wf(&self) -> bool {
        &&& self@.routes.len() > 0
        &&& forall|i: int, j: int|
            0 <= i < j < self@.routes.len() ==> (#[trigger] self@.routes[i]).path@ != (
            #[trigger] self@.routes[j]).path@
    }

    pub fn new(pattern: DomainPattern, routes: Vec<Route>) -> (r: DomainRegistration)
        ensures
            r@ == (RegistrationView { pattern, routes: routes@, https: false }),
    {
        DomainRegistration { pattern, routes, https_enabled: false }
    }

    pub fn pattern(&self) -> (r: &DomainPattern)
        ensures
            *r == self@.pattern,
    {
        &self.pattern
    }

    pub fn domain(&self) -> (r: &DomainName)
        ensures
            r@ == self@.pattern.base(),
    {
        self.pattern.base_domain()
    }

    pub fn routes(&self) -> (r: &[Route])
        ensures
            r@ == self@.routes,
    {
        self.routes.as_slice()
    }

    pub fn is_https_enabled(&self) -> (r: bool)
        ensures
            r == self@.https,
    {
        self.https_enabled
    }

    pub fn is_wildcard(&self) -> (r: bool)
        ensures
            r == self@.pattern.wildcard(),
    {
        self.pattern.is_wildcard()
    }

    pub fn display_pattern(&self) -> (r: String)
        ensures
            r@ == (if self@.pattern.wildcard() {
                seq!['*', '.'] + self@.pattern.base()
            } else {
                self@.pattern.base()
            }),
    {
        self.pattern.display_pattern()
    }

    /// The key the registration is stored under: its displayed pattern.
    pub fn config_key(&self) -> (r: String)
        ensures
            r@ == (if self@.pattern.wildcard() {
                seq!['*', '.'] + self@.pattern.base()
            } else {
                self@.pattern.base()
            }),
    {
        self.pattern.display_pattern()
    }

    pub fn enable_https(&mut self)
        ensures
            final(self)@ == (RegistrationView { https: true, ..old(self)@ }),
    {
        self.https_enabled = true;
    }

    /// The route with the longest prefix that covers `request_path`.
    pub fn match_route(&self, request_path: &str) -> (r: Option<&Route>)
        ensures
            r is None <==> forall|j: int|
                0 <= j < self@.routes.len() ==> !prefix_covers(
                    (#[trigger] self@.routes[j]).path@,
                    request_path@,
                ),
            r matches Some(rt) ==> exists|i: int|
                best_route(self@.routes, request_path@, i) && *rt == self@.routes[i],
    {
        let mut best: Option<usize> = None;
        let mut i: usize = 0;
        while i < self.routes.len()
            invariant
                i <= self.routes@.len(),
                best is None ==> forall|j: int|
                    0 <= j < i ==> !prefix_covers(
                        (#[trigger] self.routes@[j]).path@,
                        request_path@,
                    ),
                best matches Some(b) ==> b < i && best_route(
                    self.routes@.subrange(0, i as int),
                    request_path@,
                    b as int,
                ),
            decreases self.routes@.len() - i,
        {
            let ghost before = self.routes@.subrange(0, i as int);
            let ghost after = self.routes@.subrange(0, i + 1);
            assert(forall|j: int| 0 <= j < i ==> before[j] == after[j]);
            if self.routes[i].path.matches(request_path) {
                let take = match best {
                    None => true,
                    Some(b) => self.routes[i].path.len() >= self.routes[b].path.len(),
                };
                if take {
                    best = Some(i);
                }
            }
            i = i + 1;
        }
        assert(self.routes@.subrange(0, i as int) =~= self.routes@);
        match best {
            None => None,
            Some(b) => Some(&self.routes[b]),
        }
    }

    /// Adds a route whose prefix is not yet present.
    pub fn add_route(&mut self, route: Route) -> (r: Result<(), RegistrationError>)
        ensures
            has_prefix(old(self)@.routes, route.path@) ==> final(self)@ == old(self)@ && (r
                matches Err(RegistrationError::RouteExists(s)) && s@ == route.path@),
            !has_prefix(old(self)@.routes, route.path@) ==> r is Ok && final(self)@ == (
            RegistrationView { routes: old(self)@.routes.push(route), ..old(self)@ }),
            old(self).wf() ==> final(self).wf(),
    {
        let mut i: usize = 0;
        while i < self.routes.len()
            invariant
                i <= self.routes@.len(),
                forall|j: int| 0 <= j < i ==> (#[trigger] self.routes@[j]).path@ != route.path@,
            decreases self.routes@.len() - i,
        {
            if self.routes[i].path.same_as(&route.path) {
                return Err(RegistrationError::RouteExists(route.path.to_string()));
            }
            i = i + 1;
        }
        self.routes.push(route);
        Ok(())
    }

    /// Checks the directory targets against what a filesystem probe found
    /// at each route's path (`probes[i]` for route `i`; ignored for
    /// backends): the first missing or non-directory path is reported.
    pub fn validate(&self, probes: &Vec<PathKind>) -> (r: Result<(), RegistrationError>)
        requires
            probes@.len() == self@.routes.len(),
        ensures
            match first_bad_dir(self@.routes, probes@, 0) {
                None => r is Ok,
                Some(i) => match self@.routes[i].target {
                    RouteTarget::StaticFiles(d) => match probes@[i] {
                        PathKind::Missing => r == Err::<(), _>(RegistrationError::PathNotFound(d)),
                        _ => r == Err::<(), _>(RegistrationError::NotADirectory(d)),
                    },
                    _ => false,
                },
            },
    {
        let mut i: usize = 0;
        while i < self.routes.len()
            invariant
                probes@.len() == self@.routes.len(),
                i <= self@.routes.len(),
                first_bad_dir(self@.routes, probes@, 0) == first_bad_dir(
                    self@.routes,
                    probes@,
                    i as int,
                ),
            decreases self@.routes.len() - i,
        {
            match &self.routes[i].target {
                RouteTarget::StaticFiles(d) => match &probes[i] {
                    PathKind::Missing => {
                        return Err(RegistrationError::PathNotFound(d.clone()));
                    },
                    PathKind::NotADirectory => {
                        return Err(RegistrationError::NotADirectory(d.clone()));
                    },
                    PathKind::Directory(_) => {},
                },
                RouteTarget::Proxy(_) => {},
            }
            i = i + 1;
        }
        Ok(())
    }

    /// Removes the route with prefix `path`; the last route stays.
    pub fn remove_route(&mut self, path: &PathPrefix) -> (r: Result<(), RegistrationError>)
        ensures
            old(self)@.routes.len() == 1 ==> final(self)@ == old(self)@ && r == Err::<(), _>(
                RegistrationError::CannotRemoveLastRoute,
            ),
            old(self)@.routes.len() != 1 && !has_prefix(old(self)@.routes, path@)
                ==> final(self)@ == old(self)@
                && (r matches Err(RegistrationError::RouteNotFound(s)) && s@ == path@),
            old(self)@.routes.len() != 1 && has_prefix(old(self)@.routes, path@) ==> r is Ok
                && final(self)@ == (RegistrationView {
                    routes: without_prefix(old(self)@.routes, path@),
                    ..old(self)@
                }),
            old(self).wf() ==> final(self).wf(),
    {
        if self.routes.len() == 1 {
            return Err(RegistrationError::CannotRemoveLastRoute);
        }
        let ghost orig = self.routes@;
        let mut rest: Vec<Route> = Vec::new();
        core::mem::swap(&mut self.routes, &mut rest);
        let mut kept: Vec<Route> = Vec::new();
        let mut found = false;
        let ghost mut i: int = 0;
        while rest.len() > 0
            invariant
                0 <= i <= orig.len(),
                rest@ == orig.subrange(i, orig.len() as int),
                kept@ == without_prefix(orig.subrange(0, i), path@),
                found == exists|j: int| 0 <= j < i && (#[trigger] orig[j]).path@ == path@,
                !found ==> kept@ == orig.subrange(0, i),
                self@ == (RegistrationView { routes: Seq::empty(), ..old(self)@ }),
            decreases rest@.len(),
        {
            proof {
                assert(orig.subrange(0, i + 1).drop_last() =~= orig.subrange(0, i));
                assert(orig.subrange(0, i + 1).last() == orig[i]);
            }
            let rt = rest.remove(0);
            assert(rt == orig[i]);
            if rt.path.same_as(path) {
                found = true;
                proof {
                    reveal(Seq::filter);
                    assert(without_prefix(orig.subrange(0, i + 1), path@) == without_prefix(
                        orig.subrange(0, i),
                        path@,
                    ));
                }
            } else {
                kept.push(rt);
                proof {
                    reveal(Seq::filter);
                    assert(without_prefix(orig.subrange(0, i + 1), path@) == without_prefix(
                        orig.subrange(0, i),
                        path@,
                    ).push(orig[i]));
                }
                assert(!found ==> kept@ =~= orig.subrange(0, i + 1));
            }
            proof {
                i = i + 1;
                assert(rest@ =~= orig.subrange(i, orig.len() as int));
            }
        }
        assert(orig.subrange(0, i) =~= orig);
        self.routes = kept;
        proof {
            if old(self).wf() {
                lemma_filter_keeps_distinct(orig, |rt: Route| rt.path@ != path@);
                if found {
                    let a = orig[0];
                    let b = orig[1];
                    assert(a.path@ != b.path@);
                    let x = if a.path@ != path@ { 0int } else { 1int };
                    orig.lemma_filter_contains(|rt: Route| rt.path@ != path@, x);
                    assert(self.routes@.contains(orig[x]));
                }
            }
        }
        if !found {
            return Err(RegistrationError::RouteNotFound(path.to_string()));
        }
        Ok(())
    }
}

/// Filtering routes keeps their prefixes pairwise distinct.
proof fn lemma_filter_keeps_distinct(s: Seq<Route>, keep: spec_fn(Route) -> bool)
    requires
        forall|i: int, j: int|
            0 <= i < j < s.len() ==> (#[trigger] s[i]).path@ != (#[trigger] s[j]).path@,
    ensures
        forall|i: int, j: int|
            0 <= i < j < s.filter(keep).len() ==> (#[trigger] s.filter(keep)[i]).path@ != (
            #[trigger] s.filter(keep)[j]).path@,
    decreases s.len(),
{
    reveal(Seq::filter);
    if s.len() > 0 {
        let d = s.drop_last();
        lemma_filter_keeps_distinct(d, keep);
        let fd = d.filter(keep);
        if keep(s.last()) {
            assert forall|i: int| 0 <= i < fd.len() implies (#[trigger] fd[i]).path@
                != s.last().path@ by {
                assert(fd.contains(fd[i]));
                d.lemma_filter_contains_rev(keep, fd[i]);
                let k = choose|k: int| 0 <= k < d.len() && d[k] == fd[i];
                assert(s[k] == d[k]);
                assert(s[s.len() - 1] == s.last());
            }
            assert(s.filter(keep) == fd.push(s.last()));
        } else {
            assert(s.filter(keep) == fd);
        }
    }
}

} // verus!
