use roxy::headers::{backend_uri, bad_gateway_body, upgrade_accepted, websocket_accept_key};
use roxy::dns::{plan_reply, transaction_id, IpResolver, QueryKind, QuerySource, ResponseCode, DOCKER_HOST_IP};
use roxy::domain::{DomainName, DomainPattern};
use roxy::headers::{
    build_upgrade_request, build_xff_value, is_websocket_upgrade, outgoing_request_headers,
    set_forwarding_headers, strip_hop_by_hop_headers, Header, Scheme,
};
use roxy::route::ProxyTarget;
use roxy::tls::{choose_certificate, wildcard_cert_covers_hostname, CertChoice, OnDemandCertCache};

fn h(name: &str, value: &str) -> Header {
    Header { name: name.to_string(), value: value.to_string() }
}

fn get<'a>(headers: &'a [Header], name: &str) -> Option<&'a str> {
    headers.iter().find(|x| x.name == name).map(|x| x.value.as_str())
}

#[test]
fn scheme_as_str_returns_http() {
    assert_eq!(Scheme::Http.as_str(), "http");
}

#[test]
fn scheme_as_str_returns_https() {
    assert_eq!(Scheme::Https.as_str(), "https");
}

#[test]
fn xff_no_existing_chain() {
    assert_eq!(build_xff_value(None, "127.0.0.1"), "127.0.0.1");
}

#[test]
fn xff_appends_to_existing_chain() {
    assert_eq!(build_xff_value(Some("192.168.1.1"), "10.0.0.1"), "192.168.1.1, 10.0.0.1");
}

#[test]
fn xff_appends_to_multi_hop_chain() {
    assert_eq!(
        build_xff_value(Some("203.0.113.1, 198.51.100.1"), "10.0.0.1"),
        "203.0.113.1, 198.51.100.1, 10.0.0.1"
    );
}

#[test]
fn xff_with_ipv6() {
    assert_eq!(build_xff_value(None, "::1"), "::1");
}

#[test]
fn detects_websocket_upgrade() {
    assert!(is_websocket_upgrade(&vec![h("upgrade", "websocket")]));
}

#[test]
fn detects_websocket_upgrade_case_insensitive() {
    assert!(is_websocket_upgrade(&vec![h("upgrade", "WebSocket")]));
}

#[test]
fn not_websocket_without_upgrade_header() {
    assert!(!is_websocket_upgrade(&vec![]));
}

#[test]
fn not_websocket_with_different_upgrade() {
    assert!(!is_websocket_upgrade(&vec![h("upgrade", "h2c")]));
}

#[test]
fn forwarding_headers_sets_all_three() {
    let mut headers = vec![];
    set_forwarding_headers(&mut headers, "myapp.roxy", "https", Some("127.0.0.1"));
    assert_eq!(get(&headers, "x-forwarded-host"), Some("myapp.roxy"));
    assert_eq!(get(&headers, "x-forwarded-proto"), Some("https"));
    assert_eq!(get(&headers, "x-forwarded-for"), Some("127.0.0.1"));
}

#[test]
fn forwarding_headers_without_client_ip() {
    let mut headers = vec![];
    set_forwarding_headers(&mut headers, "myapp.roxy", "http", None);
    assert_eq!(get(&headers, "x-forwarded-host"), Some("myapp.roxy"));
    assert_eq!(get(&headers, "x-forwarded-proto"), Some("http"));
    assert!(get(&headers, "x-forwarded-for").is_none());
}

#[test]
fn forwarding_headers_appends_to_existing_xff() {
    let mut headers = vec![h("x-forwarded-for", "10.0.0.1")];
    set_forwarding_headers(&mut headers, "myapp.roxy", "https", Some("127.0.0.1"));
    assert_eq!(get(&headers, "x-forwarded-for"), Some("10.0.0.1, 127.0.0.1"));
    assert_eq!(headers.iter().filter(|x| x.name == "x-forwarded-for").count(), 1);
}

#[test]
fn forwarding_headers_overwrite_upstream_values() {
    let mut headers = vec![h("x-forwarded-host", "evil"), h("x-forwarded-proto", "gopher")];
    set_forwarding_headers(&mut headers, "myapp.roxy", "https", None);
    assert_eq!(get(&headers, "x-forwarded-host"), Some("myapp.roxy"));
    assert_eq!(get(&headers, "x-forwarded-proto"), Some("https"));
    assert_eq!(headers.len(), 2);
}

#[test]
fn strips_all_standard_hop_by_hop_headers() {
    let mut headers = vec![
        h("connection", "keep-alive"),
        h("keep-alive", "timeout=5"),
        h("proxy-authenticate", "Basic"),
        h("proxy-authorization", "Basic abc"),
        h("te", "trailers"),
        h("trailer", "Expires"),
        h("transfer-encoding", "chunked"),
        h("upgrade", "h2c"),
        h("content-type", "text/html"),
    ];
    strip_hop_by_hop_headers(&mut headers);
    for name in [
        "connection",
        "keep-alive",
        "proxy-authenticate",
        "proxy-authorization",
        "te",
        "trailer",
        "transfer-encoding",
        "upgrade",
    ] {
        assert!(get(&headers, name).is_none(), "{} remained", name);
    }
    assert_eq!(get(&headers, "content-type"), Some("text/html"));
}

#[test]
fn strips_dynamic_headers_named_in_connection() {
    let mut headers = vec![
        h("connection", "X-Custom, X-Secret"),
        h("x-custom", "value1"),
        h("x-secret", "value2"),
        h("x-keep", "value3"),
    ];
    strip_hop_by_hop_headers(&mut headers);
    assert!(get(&headers, "x-custom").is_none());
    assert!(get(&headers, "x-secret").is_none());
    assert_eq!(get(&headers, "x-keep"), Some("value3"));
}

#[test]
fn strips_dynamic_headers_from_multiple_connection_values() {
    let mut headers = vec![
        h("connection", "X-First"),
        h("connection", "X-Second"),
        h("x-first", "one"),
        h("x-second", "two"),
        h("x-keep", "three"),
    ];
    strip_hop_by_hop_headers(&mut headers);
    assert!(get(&headers, "x-first").is_none());
    assert!(get(&headers, "x-second").is_none());
    assert_eq!(get(&headers, "x-keep"), Some("three"));
}

#[test]
fn strip_on_empty_headers_is_noop() {
    let mut headers: Vec<Header> = vec![];
    strip_hop_by_hop_headers(&mut headers);
    assert!(headers.is_empty());
}

#[test]
fn outgoing_headers_drop_host_and_hops() {
    let mut headers = vec![
        h("host", "myapp.roxy"),
        h("connection", "close"),
        h("accept", "*/*"),
    ];
    outgoing_request_headers(&mut headers, "myapp.roxy", "http", Some("10.0.0.2"));
    assert!(get(&headers, "host").is_none());
    assert!(get(&headers, "connection").is_none());
    assert_eq!(get(&headers, "accept"), Some("*/*"));
    assert_eq!(get(&headers, "x-forwarded-for"), Some("10.0.0.2"));
}

fn make_target() -> ProxyTarget {
    ProxyTarget::parse("3000").unwrap()
}

fn ws_headers() -> Vec<Header> {
    vec![
        h("host", "myapp.roxy"),
        h("upgrade", "websocket"),
        h("connection", "Upgrade"),
        h("sec-websocket-key", "dGhlIHNhbXBsZSBub25jZQ=="),
    ]
}

#[test]
fn upgrade_request_contains_forwarding_headers() {
    let raw = build_upgrade_request("/ws", None, &make_target(), &ws_headers(), "myapp.roxy", "https", Some("127.0.0.1"));
    assert!(raw.contains("X-Forwarded-Host: myapp.roxy\r\n"));
    assert!(raw.contains("X-Forwarded-Proto: https\r\n"));
    assert!(raw.contains("X-Forwarded-For: 127.0.0.1\r\n"));
}

#[test]
fn upgrade_request_omits_xff_without_client_ip() {
    let raw = build_upgrade_request("/ws", None, &make_target(), &ws_headers(), "myapp.roxy", "https", None);
    assert!(raw.contains("X-Forwarded-Host: myapp.roxy\r\n"));
    assert!(raw.contains("X-Forwarded-Proto: https\r\n"));
    assert!(!raw.contains("X-Forwarded-For"));
}

#[test]
fn upgrade_request_appends_to_existing_xff() {
    let headers = vec![
        h("host", "myapp.roxy"),
        h("upgrade", "websocket"),
        h("connection", "Upgrade"),
        h("x-forwarded-for", "10.0.0.1"),
    ];
    let raw = build_upgrade_request("/ws", None, &make_target(), &headers, "myapp.roxy", "https", Some("127.0.0.1"));
    assert!(raw.contains("X-Forwarded-For: 10.0.0.1, 127.0.0.1\r\n"));
}

#[test]
fn upgrade_request_does_not_forward_original_host() {
    let raw = build_upgrade_request("/ws", None, &make_target(), &ws_headers(), "myapp.roxy", "https", Some("127.0.0.1"));
    assert!(raw.contains("Host: 127.0.0.1:3000\r\n"));
    let host_count = raw.lines().filter(|l| l.starts_with("Host:")).count();
    assert_eq!(host_count, 1);
}

#[test]
fn upgrade_request_preserves_connection_and_upgrade() {
    let raw = build_upgrade_request("/ws", None, &make_target(), &ws_headers(), "myapp.roxy", "https", None);
    assert!(raw.contains("upgrade: websocket\r\n"));
    assert!(raw.contains("connection: Upgrade\r\n"));
}

#[test]
fn upgrade_request_strips_static_hop_by_hop_headers() {
    let headers = vec![
        h("host", "myapp.roxy"),
        h("upgrade", "websocket"),
        h("connection", "Upgrade"),
        h("proxy-authorization", "Basic abc"),
        h("te", "trailers"),
        h("trailer", "Expires"),
        h("transfer-encoding", "chunked"),
        h("keep-alive", "timeout=5"),
    ];
    let raw = build_upgrade_request("/ws", None, &make_target(), &headers, "myapp.roxy", "https", None);
    assert!(!raw.contains("proxy-authorization:"));
    assert!(!raw.contains("te:"));
    assert!(!raw.contains("trailer:"));
    assert!(!raw.contains("transfer-encoding:"));
    assert!(!raw.contains("keep-alive:"));
}

#[test]
fn upgrade_request_strips_dynamic_hop_by_hop_from_connection() {
    let headers = vec![
        h("host", "myapp.roxy"),
        h("upgrade", "websocket"),
        h("connection", "Upgrade, X-Secret"),
        h("x-secret", "leaked"),
        h("x-safe", "kept"),
    ];
    let raw = build_upgrade_request("/ws", None, &make_target(), &headers, "myapp.roxy", "https", None);
    assert!(!raw.contains("x-secret:"));
    assert!(raw.contains("x-safe: kept\r\n"));
}

#[test]
fn upgrade_request_includes_query_string() {
    let raw = build_upgrade_request("/ws", Some("token=abc"), &make_target(), &ws_headers(), "myapp.roxy", "https", None);
    assert!(raw.starts_with("GET /ws?token=abc HTTP/1.1\r\n"));
}

#[test]
fn upgrade_request_ends_with_blank_line() {
    let raw = build_upgrade_request("/ws", None, &make_target(), &ws_headers(), "myapp.roxy", "https", None);
    assert!(raw.ends_with("\r\n\r\n"));
}

#[test]
fn upgrade_request_exact_text() {
    let raw = build_upgrade_request("/ws", None, &make_target(), &ws_headers(), "myapp.roxy", "http", None);
    assert_eq!(
        raw,
        "GET /ws HTTP/1.1\r\nHost: 127.0.0.1:3000\r\nX-Forwarded-Host: myapp.roxy\r\nX-Forwarded-Proto: http\r\nupgrade: websocket\r\nconnection: Upgrade\r\nsec-websocket-key: dGhlIHNhbXBsZSBub25jZQ==\r\n\r\n"
    );
}

fn resolver() -> IpResolver {
    IpResolver::new([192, 168, 1, 100])
}

#[test]
fn test_ip_resolver_localhost_returns_lan_ip() {
    let r = resolver();
    assert_eq!(r.resolve_for_source(QuerySource::V4([127, 0, 0, 1])), vec![[192, 168, 1, 100]]);
    assert_eq!(r.resolve_for_source(QuerySource::V6Loopback), vec![[192, 168, 1, 100]]);
}

#[test]
fn test_ip_resolver_docker_network_returns_docker_host_ip() {
    let r = resolver();
    assert_eq!(r.resolve_for_source(QuerySource::V4([172, 17, 0, 2])), vec![DOCKER_HOST_IP]);
    assert_eq!(r.resolve_for_source(QuerySource::V4([172, 18, 0, 5])), vec![DOCKER_HOST_IP]);
    assert_eq!(r.resolve_for_source(QuerySource::V4([192, 168, 65, 2])), vec![DOCKER_HOST_IP]);
}

#[test]
fn test_ip_resolver_lan_returns_lan_ip() {
    let r = resolver();
    assert_eq!(r.resolve_for_source(QuerySource::V4([192, 168, 1, 50])), vec![[192, 168, 1, 100]]);
    assert_eq!(r.resolve_for_source(QuerySource::V4([10, 0, 0, 5])), vec![[192, 168, 1, 100]]);
}

#[test]
fn test_ip_resolver_unknown_returns_both() {
    let ips = resolver().resolve_for_source(QuerySource::V4([8, 8, 8, 8]));
    assert_eq!(ips.len(), 2);
    assert!(ips.contains(&DOCKER_HOST_IP));
    assert!(ips.contains(&[192, 168, 1, 100]));
}

#[test]
fn dns_a_query_in_zone() {
    let plan = plan_reply(Some(("blog.myapp.roxy", QueryKind::A)), &vec![[192, 168, 1, 100]]);
    assert_eq!(plan.rcode, ResponseCode::NoError);
    assert!(plan.authoritative);
    assert!(plan.echo_question);
    assert_eq!(plan.a_records, vec![[192, 168, 1, 100]]);
    assert!(!plan.aaaa_loopback);
}

#[test]
fn dns_refuses_other_zones() {
    let plan = plan_reply(Some(("google.com", QueryKind::A)), &vec![[192, 168, 1, 100]]);
    assert_eq!(plan.rcode, ResponseCode::Refused);
    assert!(plan.a_records.is_empty());
    assert!(!plan.aaaa_loopback);
    assert_eq!(plan_reply(Some(("roxy", QueryKind::A)), &vec![]).rcode, ResponseCode::Refused);
}

#[test]
fn dns_other_kinds() {
    let ips = vec![[10, 0, 0, 50], [192, 168, 65, 254]];
    let aaaa = plan_reply(Some(("Test.ROXY.", QueryKind::Aaaa)), &ips);
    assert_eq!(aaaa.rcode, ResponseCode::NoError);
    assert!(aaaa.a_records.is_empty() && aaaa.aaaa_loopback);
    let any = plan_reply(Some(("test.roxy", QueryKind::Any)), &ips);
    assert_eq!(any.a_records, ips);
    assert!(any.aaaa_loopback);
    let other = plan_reply(Some(("test.roxy", QueryKind::Other)), &ips);
    assert_eq!(other.rcode, ResponseCode::NoError);
    assert!(other.authoritative && other.a_records.is_empty() && !other.aaaa_loopback);
    assert_eq!(plan_reply(None, &ips).rcode, ResponseCode::FormatError);
}

#[test]
fn dns_transaction_id() {
    assert_eq!(transaction_id(&[0x12, 0x34, 0]), 0x1234);
    assert_eq!(transaction_id(&[0x12]), 0);
}

#[test]
fn wildcard_cert_coverage() {
    assert!(wildcard_cert_covers_hostname("myapp.roxy", "myapp.roxy"));
    assert!(wildcard_cert_covers_hostname("myapp.roxy", "a.myapp.roxy"));
    assert!(!wildcard_cert_covers_hostname("myapp.roxy", "a.b.myapp.roxy"));
    assert!(!wildcard_cert_covers_hostname("myapp.roxy", "xmyapp.roxy"));
}

#[test]
fn certificate_precedence() {
    let patterns = vec![
        DomainPattern::Exact(DomainName::new("blog.myapp.roxy").unwrap()),
        DomainPattern::Wildcard(DomainName::new("myapp.roxy").unwrap()),
    ];
    assert_eq!(choose_certificate("blog.myapp.roxy", true, &patterns, true), CertChoice::Cached);
    assert_eq!(choose_certificate("blog.myapp.roxy", false, &patterns, true), CertChoice::Registered(0));
    assert_eq!(choose_certificate("shop.myapp.roxy", false, &patterns, true), CertChoice::Registered(1));
    assert_eq!(choose_certificate("new.roxy", false, &patterns, true), CertChoice::Mint);
    assert_eq!(choose_certificate("new.roxy", false, &patterns, false), CertChoice::NoCertificate);
    assert_eq!(choose_certificate("example.com", false, &patterns, true), CertChoice::NoCertificate);
}

#[test]
fn on_demand_cache_is_bounded() {
    let mut cache: OnDemandCertCache<u32> = OnDemandCertCache::new(3);
    for i in 0..10u32 {
        cache.insert(format!("h{}.roxy", i), i);
        assert!(cache.len() <= 3);
        assert_eq!(cache.get(&format!("h{}.roxy", i)), Some(&i));
    }
    assert_eq!(cache.len(), 1);
    cache.insert("h9.roxy".to_string(), 99);
    assert_eq!(cache.get("h9.roxy"), Some(&99));
    assert_eq!(cache.len(), 1);
    cache.insert("h10.roxy".to_string(), 10);
    assert_eq!(cache.len(), 2);
    assert_eq!(cache.capacity(), 3);
    assert!(cache.get("nothing.roxy").is_none());
}

#[test]
fn upgrade_reply_parsing() {
    let reply = "HTTP/1.1 101 Switching Protocols\r\nUpgrade: websocket\r\nConnection: Upgrade\r\nSec-WebSocket-Accept: s3pPLMBiTxaQ9kYGzzhZRbK+xOo=\r\n\r\n";
    assert!(upgrade_accepted(reply));
    assert_eq!(websocket_accept_key(reply), Some("s3pPLMBiTxaQ9kYGzzhZRbK+xOo=".to_string()));
    assert!(!upgrade_accepted("HTTP/1.1 400 Bad Request\r\n\r\n101"));
    assert!(!upgrade_accepted(""));
    assert_eq!(websocket_accept_key("HTTP/1.1 101 OK\r\n\r\n"), None);
}

#[test]
fn backend_uri_and_gateway_body() {
    let t = make_target();
    assert_eq!(backend_uri(&t, "/api/users", Some("a=1")), "http://127.0.0.1:3000/api/users?a=1");
    assert_eq!(backend_uri(&t, "/", None), "http://127.0.0.1:3000/");
    assert_eq!(
        bad_gateway_body(&t, "tcp connect error: Connection refused (os error 111)"),
        "Service not running at 127.0.0.1:3000"
    );
    assert_eq!(bad_gateway_body(&t, "timed out"), "Proxy error: timed out");
}
