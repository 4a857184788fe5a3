use roxy::config::{
    default_dns_port, default_http_port, default_https_port, default_log_level, Config,
    ConfigError, ConfigStore, DaemonConfig, RootCA, StepOutcome, Target, TargetError,
};
use roxy::domain::{DomainName, DomainPattern};
use roxy::registration::{DomainRegistration, RegistrationError};
use roxy::route::{PathKind, PortError, Route};

fn reg(domain: &str, wildcard: bool) -> DomainRegistration {
    let d = DomainName::new(domain).unwrap();
    let p = if wildcard { DomainPattern::Wildcard(d) } else { DomainPattern::Exact(d) };
    DomainRegistration::new(p, vec![Route::parse("/=3000").unwrap()])
}

fn daemon(http: u16, https: u16, dns: u16, level: &str) -> DaemonConfig {
    DaemonConfig { http_port: http, https_port: https, dns_port: dns, log_level: level.to_string() }
}

#[test]
fn defaults() {
    assert_eq!(default_http_port(), 80);
    assert_eq!(default_https_port(), 443);
    assert_eq!(default_dns_port(), 1053);
    assert_eq!(default_log_level(), "info");
    let d = DaemonConfig::default();
    assert!(d.validate().is_ok());
}

#[test]
fn daemon_config_rejects_equal_ports() {
    let msg = |c: DaemonConfig| match c.validate() {
        Err(ConfigError::InvalidConfig(m)) => m,
        other => panic!("unexpected {:?}", other),
    };
    assert_eq!(msg(daemon(0, 443, 53, "info")), "http_port cannot be 0");
    assert_eq!(msg(daemon(80, 80, 53, "info")), "http_port and https_port must be different");
    assert_eq!(
        msg(daemon(80, 443, 80, "info")),
        "http_port, https_port, and dns_port must all be different"
    );
    assert_eq!(
        msg(daemon(80, 443, 53, "loud")),
        "Invalid log_level 'loud'. Must be one of: error, warn, info, debug"
    );
    assert!(daemon(8080, 8443, 1053, "debug").validate().is_ok());
}

#[test]
fn config_validate_reports_domain() {
    let mut r = reg("myapp.roxy", false);
    r.add_route(Route::parse("/static=/nope").unwrap()).unwrap();
    let cfg = Config { daemon: DaemonConfig::default(), domains: vec![r] };
    let result = cfg.validate(&vec![vec![PathKind::Missing, PathKind::Missing]]);
    assert_eq!(
        result,
        Err(ConfigError::InvalidDomain(
            "myapp.roxy".to_string(),
            RegistrationError::PathNotFound("/nope".to_string())
        ))
    );
}

#[test]
fn config_store_domain_operations() {
    let mut store = ConfigStore::new("/home/u/.roxy/config.toml".to_string(), vec![]);
    assert_eq!(store.config_dir(), "/home/u/.roxy");
    assert!(store.add_domain(reg("myapp.roxy", false)).is_ok());
    assert!(store.add_domain(reg("myapp.roxy", true)).is_ok());
    assert_eq!(
        store.add_domain(reg("myapp.roxy", false)).unwrap_err(),
        ConfigError::DomainExists("myapp.roxy".to_string())
    );
    assert_eq!(store.list_domains().len(), 2);
    let wild = DomainPattern::Wildcard(DomainName::new("myapp.roxy").unwrap());
    assert!(store.get_domain(&wild).unwrap().is_wildcard());
    let mut updated = reg("myapp.roxy", true);
    updated.enable_https();
    assert!(store.update_domain(updated).is_ok());
    assert!(store.get_domain(&wild).unwrap().is_https_enabled());
    assert!(store.remove_domain(&wild).is_ok());
    assert_eq!(
        store.remove_domain(&wild).unwrap_err(),
        ConfigError::DomainNotFound("*.myapp.roxy".to_string())
    );
    assert_eq!(
        store.update_domain(reg("other.roxy", false)).unwrap_err(),
        ConfigError::DomainNotFound("other.roxy".to_string())
    );
    assert_eq!(store.list_domains().len(), 1);
}

#[test]
fn test_ca_paths() {
    let ca = RootCA::with_base_dir("/home/u/.roxy".to_string());
    assert!(ca.cert_path().contains("ca.crt"));
    assert!(ca.key_path().contains("ca.key"));
    assert_eq!(ca.cert_path(), "/home/u/.roxy/ca.crt");
    assert_eq!(RootCA::with_base_dir("/d/".to_string()).key_path(), "/d/ca.key");
}

#[test]
fn target_constructors() {
    assert!(matches!(Target::port(3000), Ok(Target::Port(p)) if p.value() == 3000));
    assert!(matches!(Target::port(80), Err(TargetError::PortError(PortError::Privileged(80)))));
    assert!(matches!(
        Target::path("/x".to_string(), PathKind::Missing),
        Err(TargetError::PathNotFound(p)) if p == "/x"
    ));
    assert!(matches!(
        Target::path("/x".to_string(), PathKind::Directory("/real".to_string())),
        Ok(Target::Path(p)) if p == "/real"
    ));
}

#[test]
fn target_and_outcome_text() {
    assert_eq!(Target::port(3000).unwrap().to_string(), "localhost:3000");
    assert_eq!(Target::Path("/srv".to_string()).to_string(), "/srv");
    assert_eq!(StepOutcome::Warning("x".to_string()).to_string(), "Warning: x");
    assert_eq!(StepOutcome::Success("done".to_string()).to_string(), "done");
}
