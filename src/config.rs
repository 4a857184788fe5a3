//! The daemon's configuration: listener ports, log level, and the
//! registered domains keyed by their displayed pattern. Reading and
//! writing the file happens outside; this is the model and its rules.
use vstd::prelude::*;

use crate::domain::DomainPattern;
use crate::registration::{DomainRegistration, RegistrationError};
use crate::route::{PathKind, Port, PortError};
use crate::text::{chars_equal, chars_of, push_str, rfind, slice_chars, string_of};

verus! {

pub fn default_http_port() -> (r: u16)
    ensures
        r == 80,
{
    80
}

pub fn default_https_port() -> (r: u16)
    ensures
        r == 443,
{
    443
}

pub fn default_dns_port() -> (r: u16)
    ensures
        r == 1053,
{
    1053
}

pub fn default_log_level() -> (r: String)
    ensures
        r@ == "info"@,
{
    "info".to_owned()
}

#[derive(Debug, Clone, PartialEq, Eq)]
pub enum ConfigError {
    DomainExists(String),
    DomainNotFound(String),
    InvalidConfig(String),
    InvalidDomain(String, RegistrationError),
}

#[derive(Debug, Clone)]
pub struct DaemonConfig {
    pub http_port: u16,
    pub https_port: u16,
    pub dns_port: u16,
    pub log_level: String,
}

impl Default for DaemonConfig {
    fn default() -> (r: DaemonConfig)
        ensures
            r.http_port == 80 && r.https_port == 443 && r.dns_port == 1053 && r.log_level@
                == "info"@,
    {
        DaemonConfig {
            http_port: default_http_port(),
            https_port: default_https_port(),
            dns_port: default_dns_port(),
            log_level: default_log_level(),
        }
    }
}

pub open spec fn known_level(l: Seq<char>) -> bool {
    l == "error"@ || l == "warn"@ || l == "info"@ || l == "debug"@
}

/// Why a daemon configuration is refused, checked in this order: a zero
/// port, HTTP and HTTPS on one port, any two listeners on one port, an
/// unknown log level.
pub open spec fn daemon_refusal(c: DaemonConfig) -> Option<Seq<char>> {
    if c.http_port == 0 {
        Some("http_port cannot be 0"@)
    } else if c.https_port == 0 {
        Some("https_port cannot be 0"@)
    } else if c.dns_port == 0 {
        Some("dns_port cannot be 0"@)
    } else if c.http_port == c.https_port {
        Some("http_port and https_port must be different"@)
    } else if c.http_port == c.dns_port || c.https_port == c.dns_port {
        Some("http_port, https_port, and dns_port must all be different"@)
    } else if !known_level(c.log_level@) {
        Some("Invalid log_level '"@ + c.log_level@ + "'. Must be one of: error, warn, info, debug"@)
    } else {
        None
    }
}

fn invalid(msg: &str) -> (r: ConfigError)
    ensures
        r matches ConfigError::InvalidConfig(s) && s@ == msg@,
{
    ConfigError::InvalidConfig(msg.to_owned())
}

impl DaemonConfig {
    pub fn validate(&self) -> (r: Result<(), ConfigError>)
        ensures
            match daemon_refusal(*self) {
                None => r is Ok,
                Some(m) => r matches Err(ConfigError::InvalidConfig(s)) && s@ == m,
            },
    {
        if self.http_port == 0 {
            return Err(invalid("http_port cannot be 0"));
        }
        if self.https_port == 0 {
            return Err(invalid("https_port cannot be 0"));
        }
        if self.dns_port == 0 {
            return Err(invalid("dns_port cannot be 0"));
        }
        if self.http_port == self.https_port {
            return Err(invalid("http_port and https_port must be different"));
        }
        if self.http_port == self.dns_port || self.https_port == self.dns_port {
            return Err(invalid("http_port, https_port, and dns_port must all be different"));
        }
        let level = chars_of(self.log_level.as_str());
        if !(chars_equal(&level, &chars_of("error")) || chars_equal(&level, &chars_of("warn"))
            || chars_equal(&level, &chars_of("info")) || chars_equal(&level, &chars_of("debug"))) {
            let mut msg = chars_of("Invalid log_level '");
            push_str(&mut msg, self.log_level.as_str());
            push_str(&mut msg, "'. Must be one of: error, warn, info, debug");
            return Err(ConfigError::InvalidConfig(string_of(&msg)));
        }
        Ok(())
    }
}

/// The key a registration is stored under: its displayed pattern.
pub open spec fn key_of(p: DomainPattern) -> Seq<char> {
    if p.wildcard() {
        seq!['*', '.'] + p.base()
    } else {
        p.base()
    }
}

/// Keys are distinct.
pub open spec fn keys_distinct(s: Seq<DomainRegistration>) -> bool {
    forall|i: int, j: int|
        0 <= i < j < s.len() ==> key_of((#[trigger] s[i])@.pattern) != key_of(
            (#[trigger] s[j])@.pattern,
        )
}

/// Index of the first registration at or after `from` whose directory
/// routes fail their probes.
pub open spec fn first_bad_domain(
    domains: Seq<DomainRegistration>,
    probes: Seq<Vec<PathKind>>,
    from: int,
) -> Option<int>
    decreases domains.len() - from,
{
    if from < 0 || from >= domains.len() {
        None
    } else if crate::registration::first_bad_dir(domains[from]@.routes, probes[from]@, 0) is Some {
        Some(from)
    } else {
        first_bad_domain(domains, probes, from + 1)
    }
}

#[derive(Debug, Clone)]
pub struct Config {
    pub daemon: DaemonConfig,
    pub domains: Vec<DomainRegistration>,
}

impl Config {
    /// The daemon settings first, then each registration against the
    /// probes of its directory targets (`probes[i]` for domain `i`).
    pub fn validate(&self, probes: &Vec<Vec<PathKind>>) -> (r: Result<(), ConfigError>)
        requires
            probes@.len() == self.domains@.len(),
            forall|i: int|
                0 <= i < probes@.len() ==> (#[trigger] probes@[i])@.len()
                    == self.domains@[i]@.routes.len(),
        ensures
            match daemon_refusal(self.daemon) {
                Some(m) => r matches Err(ConfigError::InvalidConfig(s)) && s@ == m,
                None => match first_bad_domain(self.domains@, probes@, 0) {
                    None => r is Ok,
                    Some(i) => r matches Err(ConfigError::InvalidDomain(k, _)) && k@ == key_of(
                        self.domains@[i]@.pattern,
                    ),
                },
            },
    {
        self.daemon.validate()?;
        let mut i: usize = 0;
        while i < self.domains.len()
            invariant
                i <= self.domains@.len(),
                probes@.len() == self.domains@.len(),
                forall|k: int|
                    0 <= k < probes@.len() ==> (#[trigger] probes@[k])@.len()
                        == self.domains@[k]@.routes.len(),
                daemon_refusal(self.daemon) is None,
                first_bad_domain(self.domains@, probes@, 0) == first_bad_domain(
                    self.domains@,
                    probes@,
                    i as int,
                ),
            decreases self.domains@.len() - i,
        {
            match self.domains[i].validate(&probes[i]) {
                Ok(()) => {},
                Err(e) => {
                    let key = self.domains[i].config_key();
                    return Err(ConfigError::InvalidDomain(key, e));
                },
            }
            i = i + 1;
        }
        Ok(())
    }
}

/// The configuration as loaded from its file, with the domain operations.
pub struct ConfigStore {
    path: String,
    domains: Vec<DomainRegistration>,
}

impl ConfigStore {
    pub closed spec fn spec_domains(&self) -> Seq<DomainRegistration> {
        self.domains@
    }

    pub closed spec fn spec_path(&self) -> Seq<char> {
        self.path@
    }

    /// Opens a store at `path` holding `domains`; a repeated key keeps its
    /// first registration.
    pub fn new(path: String, domains: Vec<DomainRegistration>) -> (r: ConfigStore)
        ensures
            r.spec_path() == path@,
            keys_distinct(r.spec_domains()),
    {
        let mut store = ConfigStore { path, domains: Vec::new() };
        let mut rest = domains;
        while rest.len() > 0
            invariant
                keys_distinct(store.spec_domains()),
                store.spec_path() == path@,
            decreases rest@.len(),
        {
            let reg = rest.remove(0);
            let _ = store.add_domain(reg);
        }
        store
    }

    /// The directory that holds the configuration file.
    pub fn config_dir(&self) -> (r: String)
        ensures
            crate::text::last_index_of(self.spec_path(), '/') > 0 ==> r@ == self.spec_path().subrange(
                0,
                crate::text::last_index_of(self.spec_path(), '/'),
            ),
            crate::text::last_index_of(self.spec_path(), '/') == 0 ==> r@ == seq!['/'],
            crate::text::last_index_of(self.spec_path(), '/') < 0 ==> r@.len() == 0,
    {
        let v = chars_of(self.path.as_str());
        match rfind(&v, '/') {
            Some(k) => if k == 0 {
                string_of(&vec!['/'])
            } else {
                string_of(&slice_chars(&v, 0, k))
            },
            None => string_of(&Vec::new()),
        }
    }

    fn position(&self, pattern: &DomainPattern) -> (r: Option<usize>)
        ensures
            r matches Some(i) ==> i < self.spec_domains().len() && key_of(
                self.spec_domains()[i as int]@.pattern,
            ) == key_of(*pattern),
            r is None ==> forall|k: int|
                0 <= k < self.spec_domains().len() ==> key_of(
                    (#[trigger] self.spec_domains()[k])@.pattern,
                ) != key_of(*pattern),
    {
        let key = chars_of(pattern.display_pattern().as_str());
        let mut i: usize = 0;
        while i < self.domains.len()
            invariant
                key@ == key_of(*pattern),
                i <= self.spec_domains().len(),
                forall|k: int|
                    0 <= k < i ==> key_of((#[trigger] self.spec_domains()[k])@.pattern) != key_of(
                        *pattern,
                    ),
            decreases self.spec_domains().len() - i,
        {
            let other = chars_of(self.domains[i].config_key().as_str());
            if chars_equal(&other, &key) {
                return Some(i);
            }
            i = i + 1;
        }
        None
    }

    /// Adds a registration whose key is not yet taken.
    pub fn add_domain(&mut self, registration: DomainRegistration) -> (r: Result<(), ConfigError>)
        requires
            keys_distinct(old(self).spec_domains()),
        ensures
            keys_distinct(final(self).spec_domains()),
            final(self).spec_path() == old(self).spec_path(),
            r is Ok <==> forall|k: int|
                0 <= k < old(self).spec_domains().len() ==> key_of(
                    (#[trigger] old(self).spec_domains()[k])@.pattern,
                ) != key_of(registration@.pattern),
            r is Ok ==> final(self).spec_domains() == old(self).spec_domains().push(registration),
            r is Err ==> final(self).spec_domains() == old(self).spec_domains() && (r matches Err(
                ConfigError::DomainExists(s),
            ) && s@ == key_of(registration@.pattern)),
    {
        match self.position(registration.pattern()) {
            Some(_) => Err(ConfigError::DomainExists(registration.config_key())),
            None => {
                self.domains.push(registration);
                Ok(())
            },
        }
    }

    /// Removes and returns the registration stored under `pattern`'s key.
    pub fn remove_domain(&mut self, pattern: &DomainPattern) -> (r: Result<
        DomainRegistration,
        ConfigError,
    >)
        requires
            keys_distinct(old(self).spec_domains()),
        ensures
            keys_distinct(final(self).spec_domains()),
            final(self).spec_path() == old(self).spec_path(),
            r matches Ok(reg) ==> exists|i: int|
                0 <= i < old(self).spec_domains().len() && key_of(
                    (#[trigger] old(self).spec_domains()[i])@.pattern,
                ) == key_of(*pattern) && reg == old(self).spec_domains()[i]
                    && final(self).spec_domains() == old(self).spec_domains().remove(i),
            r is Err ==> final(self).spec_domains() == old(self).spec_domains() && (forall|k: int|
                0 <= k < old(self).spec_domains().len() ==> key_of(
                    (#[trigger] old(self).spec_domains()[k])@.pattern,
                ) != key_of(*pattern)) && (r matches Err(ConfigError::DomainNotFound(s)) && s@
                == key_of(*pattern)),
    {
        match self.position(pattern) {
            Some(i) => {
                let reg = self.domains.remove(i);
                proof {
                    let s = old(self).spec_domains();
                    assert forall|a: int, b: int|
                        0 <= a < b < self.spec_domains().len() implies key_of(
                        (#[trigger] self.spec_domains()[a])@.pattern,
                    ) != key_of((#[trigger] self.spec_domains()[b])@.pattern) by {
                        let a2 = if a < i { a } else { a + 1 };
                        let b2 = if b < i { b } else { b + 1 };
                        assert(self.spec_domains()[a] == s[a2]);
                        assert(self.spec_domains()[b] == s[b2]);
                    }
                }
                Ok(reg)
            },
            None => Err(ConfigError::DomainNotFound(pattern.display_pattern())),
        }
    }

    /// The registration stored under `pattern`'s key.
    pub fn get_domain(&self, pattern: &DomainPattern) -> (r: Option<&DomainRegistration>)
        ensures
            r matches Some(reg) ==> exists|i: int|
                0 <= i < self.spec_domains().len() && *reg == self.spec_domains()[i] && key_of(
                    (#[trigger] self.spec_domains()[i])@.pattern,
                ) == key_of(*pattern),
            r is None ==> forall|k: int|
                0 <= k < self.spec_domains().len() ==> key_of(
                    (#[trigger] self.spec_domains()[k])@.pattern,
                ) != key_of(*pattern),
    {
        match self.position(pattern) {
            Some(i) => Some(&self.domains[i]),
            None => None,
        }
    }

    /// Replaces the registration stored under the same key.
    pub fn update_domain(&mut self, registration: DomainRegistration) -> (r: Result<
        (),
        ConfigError,
    >)
        requires
            keys_distinct(old(self).spec_domains()),
        ensures
            keys_distinct(final(self).spec_domains()),
            final(self).spec_path() == old(self).spec_path(),
            r is Ok ==> exists|i: int|
                0 <= i < old(self).spec_domains().len() && key_of(
                    (#[trigger] old(self).spec_domains()[i])@.pattern,
                ) == key_of(registration@.pattern) && final(self).spec_domains() == old(
                    self,
                ).spec_domains().update(i, registration),
            r is Err ==> final(self).spec_domains() == old(self).spec_domains() && (r matches Err(
                ConfigError::DomainNotFound(s),
            ) && s@ == key_of(registration@.pattern)),
    {
        match self.position(registration.pattern()) {
            Some(i) => {
                let ghost s = self.domains@;
                self.domains.set(i, registration);
                proof {
                    assert forall|a: int, b: int|
                        0 <= a < b < self.spec_domains().len() implies key_of(
                        (#[trigger] self.spec_domains()[a])@.pattern,
                    ) != key_of((#[trigger] self.spec_domains()[b])@.pattern) by {
                        assert(key_of(self.spec_domains()[a]@.pattern) == key_of(s[a]@.pattern));
                        assert(key_of(self.spec_domains()[b]@.pattern) == key_of(s[b]@.pattern));
                    }
                }
                Ok(())
            },
            None => Err(ConfigError::DomainNotFound(registration.config_key())),
        }
    }

    pub fn list_domains(&self) -> (r: &[DomainRegistration])
        ensures
            r@ == self.spec_domains(),
    {
        self.domains.as_slice()
    }
}

/// How one step of a multi-step command went.
#[derive(Debug, Clone, PartialEq, Eq)]
pub enum StepOutcome {
    Success(String),
    Warning(String),
    Skipped(String),
}

impl StepOutcome {
    pub open spec fn text(&self) -> Seq<char> {
        match self {
            StepOutcome::Success(m) => m@,
            StepOutcome::Warning(m) => "Warning: "@ + m@,
            StepOutcome::Skipped(m) => m@,
        }
    }

    /// The message as shown: warnings are marked.
    pub fn to_string(&self) -> (r: String)
        ensures
            r@ == self.text(),
    {
        match self {
            StepOutcome::Success(m) => m.clone(),
            StepOutcome::Warning(m) => {
                let mut out = chars_of("Warning: ");
                push_str(&mut out, m.as_str());
                string_of(&out)
            },
            StepOutcome::Skipped(m) => m.clone(),
        }
    }
}

/// Where the root CA's certificate and key are kept.
pub struct RootCA {
    roxy_dir: String,
}

/// `dir` joined with a file name, as `Path::join` does for a relative name.
pub open spec fn joined(dir: Seq<char>, name: Seq<char>) -> Seq<char> {
    if dir.len() == 0 || dir.last() == '/' {
        dir + name
    } else {
        dir + seq!['/'] + name
    }
}

fn join(dir: &str, name: &str) -> (r: String)
    ensures
        r@ == joined(dir@, name@),
{
    let mut v = chars_of(dir);
    if !(v.len() == 0 || v[v.len() - 1] == '/') {
        v.push('/');
    }
    push_str(&mut v, name);
    string_of(&v)
}

impl RootCA {
    pub fn with_base_dir(roxy_dir: String) -> (r: RootCA)
        ensures
            r.spec_dir() == roxy_dir@,
    {
        RootCA { roxy_dir }
    }

    pub closed spec fn spec_dir(&self) -> Seq<char> {
        self.roxy_dir@
    }

    pub fn cert_path(&self) -> (r: String)
        ensures
            r@ == joined(self.spec_dir(), "ca.crt"@),
    {
        join(self.roxy_dir.as_str(), "ca.crt")
    }

    pub fn key_path(&self) -> (r: String)
        ensures
            r@ == joined(self.spec_dir(), "ca.key"@),
    {
        join(self.roxy_dir.as_str(), "ca.key")
    }
}

/// A registration target given on the command line.
#[derive(Debug, Clone)]
pub enum Target {
    Path(String),
    Port(Port),
}

#[derive(Debug, Clone, PartialEq, Eq)]
pub enum TargetError {
    PathNotFound(String),
    NotADirectory(String),
    PortError(PortError),
}

impl Target {
    pub open spec fn text(&self) -> Seq<char> {
        match self {
            Target::Path(p) => p@,
            Target::Port(p) => "localhost:"@ + crate::text::decimal(p@ as nat),
        }
    }

    /// The path, or `localhost:PORT`.
    pub fn to_string(&self) -> (r: String)
        ensures
            r@ == self.text(),
    {
        match self {
            Target::Path(p) => p.clone(),
            Target::Port(p) => {
                let mut out = chars_of("localhost:");
                crate::text::push_decimal(&mut out, p.value() as u64);
                string_of(&out)
            },
        }
    }

    /// A directory target, given what a probe found at `path`.
    pub fn path(path: String, kind: PathKind) -> (r: Result<Target, TargetError>)
        ensures
            match kind {
                PathKind::Missing => r matches Err(TargetError::PathNotFound(p)) && p == path,
                PathKind::NotADirectory => r matches Err(TargetError::NotADirectory(p)) && p
                    == path,
                PathKind::Directory(c) => r matches Ok(Target::Path(p)) && p == c,
            },
    {
        match kind {
            PathKind::Missing => Err(TargetError::PathNotFound(path)),
            PathKind::NotADirectory => Err(TargetError::NotADirectory(path)),
            PathKind::Directory(c) => Ok(Target::Path(c)),
        }
    }

    pub fn port(port: u16) -> (r: Result<Target, TargetError>)
        ensures
            port >= 1024 ==> (r matches Ok(Target::Port(p)) && p@ == port),
            port == 0 ==> r == Err::<Target, _>(TargetError::PortError(PortError::OutOfRange(0))),
            0 < port < 1024 ==> r == Err::<Target, _>(
                TargetError::PortError(PortError::Privileged(port)),
            ),
    {
        match Port::new(port) {
            Ok(p) => Ok(Target::Port(p)),
            Err(e) => Err(TargetError::PortError(e)),
        }
    }
}

} // verus!
