use roxy::domain::{DomainName, DomainNameError, DomainPattern};
use roxy::registration::{DomainRegistration, RegistrationError};
use roxy::route::{
    PathKind, PathPrefix, PathPrefixError, Port, PortError, ProxyTarget, ProxyTargetError, Route,
    RouteTarget, RouteTargetError,
};

fn exact(name: &str) -> DomainPattern {
    DomainPattern::Exact(DomainName::new(name).unwrap())
}

fn wildcard(name: &str) -> DomainPattern {
    DomainPattern::Wildcard(DomainName::new(name).unwrap())
}

fn make_pattern(name: &str) -> DomainPattern {
    DomainPattern::Exact(DomainName::new(name).unwrap())
}

fn proxy_route(path: &str, port: u16) -> Route {
    Route::new(
        PathPrefix::new(path).unwrap(),
        RouteTarget::Proxy(ProxyTarget::parse(&port.to_string()).unwrap()),
    )
}

fn static_route(path_prefix: &str, dir: &str) -> Route {
    Route::new(
        PathPrefix::new(path_prefix).unwrap(),
        RouteTarget::StaticFiles(dir.to_string()),
    )
}

#[test]
fn test_valid_domain_names() {
    assert!(DomainName::new("app.roxy").is_ok());
    assert!(DomainName::new("my-app.roxy").is_ok());
    assert!(DomainName::new("sub.domain.roxy").is_ok());
    assert!(DomainName::new("APP.ROXY").is_ok());
}

#[test]
fn test_invalid_domain_names() {
    assert!(DomainName::new("app.local").is_err());
    assert!(DomainName::new(".roxy").is_err());
    assert!(DomainName::new("-app.roxy").is_err());
    assert!(DomainName::new("app-.roxy").is_err());
    assert!(DomainName::new("app_name.roxy").is_err());
}

#[test]
fn domain_name_is_lowercased() {
    assert_eq!(DomainName::new("APP.ROXY").unwrap().as_str(), "app.roxy");
}

#[test]
fn domain_name_error_kinds() {
    assert!(matches!(DomainName::new("app.local"), Err(DomainNameError::InvalidSuffix(s)) if s == "app.local"));
    assert!(matches!(DomainName::new(".roxy"), Err(DomainNameError::TooShort(_))));
    assert!(matches!(DomainName::new("a..b.roxy"), Ok(_)));
    assert!(matches!(DomainName::new(".a.roxy"), Err(DomainNameError::InvalidCharacters(_))));
}

#[test]
fn from_name_creates_exact_pattern() {
    let p = DomainPattern::from_name("myapp.roxy", false).unwrap();
    assert_eq!(p, exact("myapp.roxy"));
}

#[test]
fn from_name_creates_wildcard_pattern() {
    let p = DomainPattern::from_name("myapp.roxy", true).unwrap();
    assert_eq!(p, wildcard("myapp.roxy"));
}

#[test]
fn from_name_rejects_invalid_domain() {
    assert!(DomainPattern::from_name("invalid", false).is_err());
}

#[test]
fn exact_matches_same_hostname() {
    assert!(exact("myapp.roxy").matches_hostname("myapp.roxy"));
}

#[test]
fn exact_does_not_match_subdomain() {
    assert!(!exact("myapp.roxy").matches_hostname("blog.myapp.roxy"));
}

#[test]
fn exact_does_not_match_different_domain() {
    assert!(!exact("myapp.roxy").matches_hostname("other.roxy"));
}

#[test]
fn wildcard_matches_base_domain() {
    assert!(wildcard("myapp.roxy").matches_hostname("myapp.roxy"));
}

#[test]
fn wildcard_matches_single_level_subdomain() {
    assert!(wildcard("myapp.roxy").matches_hostname("blog.myapp.roxy"));
    assert!(wildcard("myapp.roxy").matches_hostname("api.myapp.roxy"));
}

#[test]
fn wildcard_does_not_match_multi_level_subdomain() {
    assert!(!wildcard("myapp.roxy").matches_hostname("a.b.myapp.roxy"));
}

#[test]
fn wildcard_does_not_match_unrelated_domain() {
    assert!(!wildcard("myapp.roxy").matches_hostname("other.roxy"));
}

#[test]
fn wildcard_does_not_match_suffix_overlap() {
    assert!(!wildcard("myapp.roxy").matches_hostname("notmyapp.roxy"));
}

#[test]
fn wildcard_does_not_match_empty_prefix() {
    assert!(!wildcard("myapp.roxy").matches_hostname(".myapp.roxy"));
}

#[test]
fn wildcard_matching_law_on_examples() {
    let w = wildcard("myapp.roxy");
    let e = exact("myapp.roxy");
    assert!(w.matches_hostname("myapp.roxy") && e.matches_hostname("myapp.roxy"));
    assert!(w.matches_hostname("x.myapp.roxy"));
    assert!(!w.matches_hostname("x.y.myapp.roxy"));
    assert!(!w.matches_hostname("xy.z.myapp.roxy"));
}

#[test]
fn exact_display_pattern() {
    assert_eq!(exact("myapp.roxy").display_pattern(), "myapp.roxy");
}

#[test]
fn wildcard_display_pattern() {
    assert_eq!(wildcard("myapp.roxy").display_pattern(), "*.myapp.roxy");
}

#[test]
fn exact_cert_name() {
    assert_eq!(exact("myapp.roxy").cert_name(), "myapp.roxy");
}

#[test]
fn wildcard_cert_name() {
    assert_eq!(wildcard("myapp.roxy").cert_name(), "__wildcard__.myapp.roxy");
}

#[test]
fn longer_base_domain_is_more_specific() {
    let broad = wildcard("myapp.roxy");
    let specific = wildcard("sub.myapp.roxy");
    assert!(specific.specificity() > broad.specificity());
    assert_eq!(broad.specificity(), 10);
}

#[test]
fn display_trait_matches_display_pattern() {
    let p = wildcard("myapp.roxy");
    assert_eq!(p.to_string(), p.display_pattern());
}

#[test]
fn is_wildcard_returns_correctly() {
    assert!(!exact("myapp.roxy").is_wildcard());
    assert!(wildcard("myapp.roxy").is_wildcard());
}

#[test]
fn test_valid_prefixes() {
    assert!(PathPrefix::new("/").is_ok());
    assert!(PathPrefix::new("/api").is_ok());
    assert!(PathPrefix::new("/api/v1").is_ok());
    assert!(PathPrefix::new("/my-app").is_ok());
    assert!(PathPrefix::new("/my_app").is_ok());
}

#[test]
fn test_invalid_prefixes() {
    assert!(PathPrefix::new("api").is_err());
    assert!(PathPrefix::new("/api/").is_err());
    assert!(PathPrefix::new("/api?").is_err());
}

#[test]
fn path_prefix_error_kinds() {
    assert_eq!(PathPrefix::new("api").unwrap_err(), PathPrefixError::MustStartWithSlash);
    assert_eq!(PathPrefix::new("").unwrap_err(), PathPrefixError::MustStartWithSlash);
    assert_eq!(PathPrefix::new("/api/").unwrap_err(), PathPrefixError::TrailingSlash);
    assert_eq!(PathPrefix::new("/a b").unwrap_err(), PathPrefixError::InvalidCharacters);
}

#[test]
fn test_root_matches_everything() {
    let root = PathPrefix::new("/").unwrap();
    assert!(root.matches("/"));
    assert!(root.matches("/api"));
    assert!(root.matches("/api/v1"));
    assert!(root.matches("/anything/at/all"));
}

#[test]
fn test_prefix_matching() {
    let api = PathPrefix::new("/api").unwrap();
    assert!(api.matches("/api"));
    assert!(api.matches("/api/"));
    assert!(api.matches("/api/users"));
    assert!(api.matches("/api/users/123"));
    assert!(!api.matches("/"));
    assert!(!api.matches("/apiv2"));
    assert!(!api.matches("/application"));
    assert!(!api.matches("/other"));
}

#[test]
fn prefix_boundary_examples() {
    let api = PathPrefix::new("/api").unwrap();
    assert!(api.matches("/api/x"));
    assert!(!api.matches("/apix"));
    assert_eq!(api.len(), 4);
    assert!(!api.is_empty());
}

#[test]
fn test_nested_prefix_matching() {
    let api_v1 = PathPrefix::new("/api/v1").unwrap();
    assert!(api_v1.matches("/api/v1"));
    assert!(api_v1.matches("/api/v1/users"));
    assert!(!api_v1.matches("/api"));
    assert!(!api_v1.matches("/api/v2"));
}

#[test]
fn test_valid_ports() {
    assert!(Port::new(3000).is_ok());
    assert!(Port::new(8080).is_ok());
    assert!(Port::new(65535).is_ok());
}

#[test]
fn test_invalid_ports() {
    assert!(Port::new(0).is_err());
    assert!(Port::new(80).is_err());
    assert!(Port::new(443).is_err());
}

#[test]
fn port_error_kinds_and_edge() {
    assert_eq!(Port::new(0).unwrap_err(), PortError::OutOfRange(0));
    assert_eq!(Port::new(1023).unwrap_err(), PortError::Privileged(1023));
    assert_eq!(Port::new(1024).unwrap().value(), 1024);
}

#[test]
fn test_parse_port_only() {
    let target = ProxyTarget::parse("3000").unwrap();
    assert_eq!(target.host(), "127.0.0.1");
    assert_eq!(target.port().value(), 3000);
}

#[test]
fn test_parse_ip_port() {
    let target = ProxyTarget::parse("192.168.1.50:3000").unwrap();
    assert_eq!(target.host(), "192.168.1.50");
    assert_eq!(target.port().value(), 3000);
}

#[test]
fn test_parse_hostname_port() {
    let target = ProxyTarget::parse("localhost:8080").unwrap();
    assert_eq!(target.host(), "localhost");
    assert_eq!(target.port().value(), 8080);
}

#[test]
fn test_display() {
    let target = ProxyTarget::parse("3000").unwrap();
    assert_eq!(target.to_string(), "127.0.0.1:3000");
    let target = ProxyTarget::parse("192.168.1.50:8080").unwrap();
    assert_eq!(target.to_string(), "192.168.1.50:8080");
}

#[test]
fn test_invalid_port() {
    assert!(ProxyTarget::parse("80").is_err());
    assert!(ProxyTarget::parse("0").is_err());
    assert!(ProxyTarget::parse("").is_err());
    assert!(ProxyTarget::parse("abc").is_err());
}

#[test]
fn proxy_target_error_kinds() {
    assert_eq!(ProxyTarget::parse("   ").unwrap_err(), ProxyTargetError::Empty);
    assert_eq!(ProxyTarget::parse("abc").unwrap_err(), ProxyTargetError::ParsePort);
    assert_eq!(ProxyTarget::parse("70000").unwrap_err(), ProxyTargetError::ParsePort);
    assert_eq!(
        ProxyTarget::parse("80").unwrap_err(),
        ProxyTargetError::InvalidPort(PortError::Privileged(80))
    );
    let t = ProxyTarget::parse("  +3001 ").unwrap();
    assert_eq!(t.port().value(), 3001);
}

#[test]
fn test_parse_proxy_route() {
    let route = Route::parse("/api=3001").unwrap();
    assert_eq!(route.path.to_string(), "/api");
    assert!(matches!(route.target, RouteTarget::Proxy(_)));
}

#[test]
fn test_parse_root_route() {
    let route = Route::parse("/=3000").unwrap();
    assert_eq!(route.path.to_string(), "/");
}

#[test]
fn test_parse_with_host() {
    let route = Route::parse("/api=192.168.1.50:3001").unwrap();
    let RouteTarget::Proxy(proxy) = &route.target else {
        panic!("expected proxy target");
    };
    assert_eq!(proxy.host(), "192.168.1.50");
    assert_eq!(proxy.port().value(), 3001);
}

#[test]
fn test_invalid_format() {
    assert!(Route::parse("no-equals-sign").is_err());
    assert!(Route::parse("").is_err());
}

#[test]
fn route_parse_directory_target() {
    let route = Route::parse("/static=/srv/www").unwrap();
    assert_eq!(route.target, RouteTarget::StaticFiles("/srv/www".to_string()));
}

#[test]
fn test_route_target_display() {
    let proxy = RouteTarget::Proxy(ProxyTarget::parse("3000").unwrap());
    assert_eq!(proxy.to_string(), "127.0.0.1:3000");
    let static_files = RouteTarget::StaticFiles("/var/www".to_string());
    assert_eq!(static_files.to_string(), "/var/www");
}

#[test]
fn static_dir_uses_probe() {
    assert_eq!(
        RouteTarget::static_dir("/x".to_string(), PathKind::Missing),
        Err(RouteTargetError::PathNotFound("/x".to_string()))
    );
    assert_eq!(
        RouteTarget::static_dir("/x".to_string(), PathKind::Directory("/real/x".to_string())),
        Ok(RouteTarget::StaticFiles("/real/x".to_string()))
    );
}

#[test]
fn new_creates_registration_with_https_disabled() {
    let reg = DomainRegistration::new(make_pattern("myapp.roxy"), vec![proxy_route("/", 3000)]);
    assert!(!reg.is_https_enabled());
    assert_eq!(reg.routes().len(), 1);
    assert_eq!(reg.domain().as_str(), "myapp.roxy");
}

#[test]
fn enable_https_sets_flag() {
    let mut reg = DomainRegistration::new(make_pattern("myapp.roxy"), vec![proxy_route("/", 3000)]);
    assert!(!reg.is_https_enabled());
    reg.enable_https();
    assert!(reg.is_https_enabled());
}

#[test]
fn match_route_returns_exact_match() {
    let reg = DomainRegistration::new(make_pattern("myapp.roxy"), vec![proxy_route("/", 3000)]);
    let matched = reg.match_route("/").unwrap();
    assert_eq!(matched.path.as_str(), "/");
}

#[test]
fn match_route_longest_prefix_wins() {
    let reg = DomainRegistration::new(
        make_pattern("myapp.roxy"),
        vec![proxy_route("/", 3000), proxy_route("/api", 4000)],
    );
    let matched = reg.match_route("/api/users").unwrap();
    assert_eq!(matched.path.as_str(), "/api");
    let matched = reg.match_route("/").unwrap();
    assert_eq!(matched.path.as_str(), "/");
}

#[test]
fn match_route_returns_none_when_no_match() {
    let reg = DomainRegistration::new(make_pattern("myapp.roxy"), vec![proxy_route("/api", 4000)]);
    assert!(reg.match_route("/other").is_none());
}

#[test]
fn add_route_succeeds_for_new_path() {
    let mut reg = DomainRegistration::new(make_pattern("myapp.roxy"), vec![proxy_route("/", 3000)]);
    assert!(reg.add_route(proxy_route("/api", 4000)).is_ok());
    assert_eq!(reg.routes().len(), 2);
}

#[test]
fn add_route_fails_for_duplicate_path() {
    let mut reg = DomainRegistration::new(make_pattern("myapp.roxy"), vec![proxy_route("/", 3000)]);
    let result = reg.add_route(proxy_route("/", 4000));
    assert!(matches!(result, Err(RegistrationError::RouteExists(_))));
}

#[test]
fn remove_route_succeeds() {
    let mut reg = DomainRegistration::new(
        make_pattern("myapp.roxy"),
        vec![proxy_route("/", 3000), proxy_route("/api", 4000)],
    );
    let path = PathPrefix::new("/api").unwrap();
    assert!(reg.remove_route(&path).is_ok());
    assert_eq!(reg.routes().len(), 1);
    assert_eq!(reg.routes()[0].path.as_str(), "/");
}

#[test]
fn remove_route_fails_for_last_route() {
    let mut reg = DomainRegistration::new(make_pattern("myapp.roxy"), vec![proxy_route("/", 3000)]);
    let path = PathPrefix::new("/").unwrap();
    let result = reg.remove_route(&path);
    assert!(matches!(result, Err(RegistrationError::CannotRemoveLastRoute)));
}

#[test]
fn remove_route_fails_for_nonexistent_path() {
    let mut reg = DomainRegistration::new(
        make_pattern("myapp.roxy"),
        vec![proxy_route("/", 3000), proxy_route("/api", 4000)],
    );
    let path = PathPrefix::new("/other").unwrap();
    let result = reg.remove_route(&path);
    assert!(matches!(result, Err(RegistrationError::RouteNotFound(_))));
    assert_eq!(reg.routes().len(), 2);
}

#[test]
fn validate_passes_for_proxy_routes() {
    let reg = DomainRegistration::new(make_pattern("myapp.roxy"), vec![proxy_route("/", 3000)]);
    assert!(reg.validate(&vec![PathKind::Missing]).is_ok());
}

#[test]
fn validate_fails_for_nonexistent_path() {
    let path = "/no/such/path";
    let reg = DomainRegistration::new(make_pattern("myapp.roxy"), vec![static_route("/", path)]);
    let probe = if std::path::Path::new(path).exists() {
        PathKind::Directory(path.to_string())
    } else {
        PathKind::Missing
    };
    let result = reg.validate(&vec![probe]);
    assert!(matches!(result, Err(RegistrationError::PathNotFound(_))));
}

#[test]
fn validate_reports_file_target() {
    let reg = DomainRegistration::new(make_pattern("myapp.roxy"), vec![static_route("/", "/etc/hosts")]);
    let result = reg.validate(&vec![PathKind::NotADirectory]);
    assert_eq!(result, Err(RegistrationError::NotADirectory("/etc/hosts".to_string())));
}

#[test]
fn display_pattern_delegates_to_domain_pattern() {
    let exact = DomainRegistration::new(make_pattern("myapp.roxy"), vec![proxy_route("/", 3000)]);
    assert_eq!(exact.display_pattern(), "myapp.roxy");
    assert_eq!(exact.config_key(), "myapp.roxy");
    let wildcard = DomainRegistration::new(
        DomainPattern::Wildcard(DomainName::new("myapp.roxy").unwrap()),
        vec![proxy_route("/", 3000)],
    );
    assert_eq!(wildcard.display_pattern(), "*.myapp.roxy");
}

#[test]
fn from_lowercased_validates_as_given() {
    assert!(DomainName::from_lowercased("app.roxy".to_string()).is_ok());
    assert_eq!(DomainName::from_lowercased("App.roxy".to_string()).unwrap().as_str(), "App.roxy");
    assert!(matches!(
        DomainName::from_lowercased("app.ROXY".to_string()),
        Err(DomainNameError::InvalidSuffix(s)) if s == "app.ROXY"
    ));
}
