use roxy::listing::sort_entries;
use roxy::router::Dispatch;
use roxy::domain::{DomainName, DomainPattern};
use roxy::listing::{build_breadcrumb, render_directory_listing, DirEntry};
use roxy::pages::{build_no_route_page, build_not_found_page, build_not_registered_page, wildcard_base_domain};
use roxy::registration::DomainRegistration;
use roxy::route::{Route, RouteTarget};
use roxy::router::{normalize_host, AppState};
use roxy::static_files::{
    confine, encode_path_segment, format_size, mount_redirect, percent_decode,
    percent_decode_bytes, relative_request_path, rewrite_redirect_location, strip_route_prefix,
};
use roxy::theme::{html_escape, png_data_uri, render_page};

fn reg(domain: &str, wildcard: bool) -> DomainRegistration {
    let domain = DomainName::new(domain).unwrap();
    let pattern = if wildcard {
        DomainPattern::Wildcard(domain)
    } else {
        DomainPattern::Exact(domain)
    };
    let routes = vec![Route::parse("/=3000").unwrap()];
    DomainRegistration::new(pattern, routes)
}

fn reg_routes(domain: &str, wildcard: bool, routes: &[&str]) -> DomainRegistration {
    let domain = DomainName::new(domain).unwrap();
    let pattern = if wildcard {
        DomainPattern::Wildcard(domain)
    } else {
        DomainPattern::Exact(domain)
    };
    DomainRegistration::new(pattern, routes.iter().map(|r| Route::parse(r).unwrap()).collect())
}

fn port_of(route: &Route) -> u16 {
    match &route.target {
        RouteTarget::Proxy(p) => p.port().value(),
        RouteTarget::StaticFiles(_) => panic!("expected a backend"),
    }
}

#[test]
fn test_exact_overrides_wildcard_for_base_domain() {
    let wildcard = reg("myapp.roxy", true);
    let exact = reg("myapp.roxy", false);
    let state = AppState::new(vec![wildcard, exact]);
    let found = state.get_domain("myapp.roxy").unwrap();
    assert!(!found.is_wildcard());
}

#[test]
fn test_wildcard_matches_subdomain() {
    let wildcard = reg("myapp.roxy", true);
    let state = AppState::new(vec![wildcard]);
    let found = state.get_domain("blog.myapp.roxy").unwrap();
    assert!(found.is_wildcard());
    assert_eq!(found.domain().as_str(), "myapp.roxy");
}

#[test]
fn test_wildcard_does_not_match_multi_level_subdomain() {
    let wildcard = reg("myapp.roxy", true);
    let state = AppState::new(vec![wildcard]);
    assert!(state.get_domain("a.b.myapp.roxy").is_none());
}

#[test]
fn test_most_specific_wildcard_wins() {
    let broad = reg("myapp.roxy", true);
    let specific = reg("sub.myapp.roxy", true);
    let state = AppState::new(vec![broad, specific]);
    let found = state.get_domain("blog.sub.myapp.roxy").unwrap();
    assert_eq!(found.domain().as_str(), "sub.myapp.roxy");
}

#[test]
fn test_host_is_normalized_for_lookup() {
    let exact = reg("app.roxy", false);
    let state = AppState::new(vec![exact]);
    assert!(state.get_domain("APP.ROXY:443").is_some());
}

#[test]
fn registry_is_sorted_by_specificity() {
    let state = AppState::new(vec![
        reg("a.roxy", true),
        reg("longer.roxy", true),
        reg("longer.roxy", false),
    ]);
    let names: Vec<String> = state.registrations().iter().map(|r| r.display_pattern()).collect();
    assert_eq!(names, vec!["longer.roxy", "*.longer.roxy", "*.a.roxy"]);
}

#[test]
fn normalize_host_strips_port_and_dots() {
    assert_eq!(normalize_host("Blog.MyApp.Roxy.:8443"), "blog.myapp.roxy");
    assert_eq!(normalize_host("x.roxy.."), "x.roxy");
}

#[test]
fn longest_prefix_routing_scenario() {
    let state = AppState::new(vec![reg_routes("myapp.roxy", false, &["/=3000", "/api=4000"])]);
    let r = state.get_domain("myapp.roxy").unwrap();
    assert_eq!(port_of(r.match_route("/api/users").unwrap()), 4000);
    assert_eq!(port_of(r.match_route("/").unwrap()), 3000);
}

#[test]
fn wildcard_fallback_vs_exact_scenario() {
    let state = AppState::new(vec![
        reg_routes("myapp.roxy", true, &["/=3000"]),
        reg_routes("blog.myapp.roxy", false, &["/=5000"]),
    ]);
    let blog = state.get_domain("blog.myapp.roxy").unwrap();
    assert_eq!(port_of(blog.match_route("/").unwrap()), 5000);
    let shop = state.get_domain("shop.myapp.roxy").unwrap();
    assert_eq!(port_of(shop.match_route("/").unwrap()), 3000);
}

#[test]
fn static_files_test_format_size_bytes() {
    assert_eq!(format_size(0), "0 B");
    assert_eq!(format_size(512), "512 B");
    assert_eq!(format_size(1023), "1023 B");
}

#[test]
fn static_files_test_format_size_kilobytes() {
    assert_eq!(format_size(1024), "1.0 KB");
    assert_eq!(format_size(1536), "1.5 KB");
    assert_eq!(format_size(10240), "10.0 KB");
}

#[test]
fn static_files_test_format_size_megabytes() {
    assert_eq!(format_size(1048576), "1.0 MB");
    assert_eq!(format_size(5 * 1024 * 1024), "5.0 MB");
}

#[test]
fn static_files_test_format_size_gigabytes() {
    assert_eq!(format_size(1073741824), "1.0 GB");
    assert_eq!(format_size(2 * 1024 * 1024 * 1024), "2.0 GB");
}

#[test]
fn path_utils_test_format_size_bytes() {
    assert_eq!(format_size(0), "0 B");
    assert_eq!(format_size(512), "512 B");
    assert_eq!(format_size(1023), "1023 B");
}

#[test]
fn path_utils_test_format_size_kilobytes() {
    assert_eq!(format_size(1024), "1.0 KB");
    assert_eq!(format_size(1536), "1.5 KB");
    assert_eq!(format_size(10240), "10.0 KB");
}

#[test]
fn path_utils_test_format_size_megabytes() {
    assert_eq!(format_size(1048576), "1.0 MB");
    assert_eq!(format_size(5 * 1024 * 1024), "5.0 MB");
}

#[test]
fn path_utils_test_format_size_gigabytes() {
    assert_eq!(format_size(1073741824), "1.0 GB");
    assert_eq!(format_size(2 * 1024 * 1024 * 1024), "2.0 GB");
}

#[test]
fn format_size_matches_float_rounding() {
    for b in [1075u64, 1280, 1331, 2047, 1048575, 123456789, 5_000_000_000, u64::MAX] {
        let expected = if b >= 1 << 30 {
            format!("{:.1} GB", b as f64 / (1u64 << 30) as f64)
        } else if b >= 1 << 20 {
            format!("{:.1} MB", b as f64 / (1u64 << 20) as f64)
        } else {
            format!("{:.1} KB", b as f64 / 1024.0)
        };
        assert_eq!(format_size(b), expected, "bytes = {}", b);
    }
}

#[test]
fn static_files_test_percent_decode() {
    assert_eq!(percent_decode("hello"), "hello");
    assert_eq!(percent_decode("hello%20world"), "hello world");
    assert_eq!(percent_decode("/path%2Fto%2Ffile"), "/path/to/file");
    assert_eq!(percent_decode("%E2%9C%93"), "\u{2713}");
}

#[test]
fn static_files_test_percent_decode_invalid() {
    assert_eq!(percent_decode("%GG"), "%GG");
    assert_eq!(percent_decode("%2"), "%2");
    assert_eq!(percent_decode("trailing%"), "trailing%");
}

#[test]
fn path_utils_test_percent_decode() {
    assert_eq!(percent_decode("hello"), "hello");
    assert_eq!(percent_decode("hello%20world"), "hello world");
    assert_eq!(percent_decode("/path%2Fto%2Ffile"), "/path/to/file");
    assert_eq!(percent_decode("%E2%9C%93"), "\u{2713}");
}

#[test]
fn path_utils_test_percent_decode_invalid() {
    assert_eq!(percent_decode("%GG"), "%GG");
    assert_eq!(percent_decode("%2"), "%2");
    assert_eq!(percent_decode("trailing%"), "trailing%");
}

#[test]
fn percent_decode_invalid_utf8_is_replaced() {
    assert_eq!(percent_decode("%FF"), "\u{FFFD}");
    assert_eq!(percent_decode_bytes(b"%41%4a"), b"AJ".to_vec());
}

#[test]
fn decode_of_encode_is_identity_for_alphanumerics() {
    for s in ["abc", "ABC123", "z9", ""] {
        assert_eq!(percent_decode(&encode_path_segment(s)), s);
    }
    assert_eq!(percent_decode(&encode_path_segment("a b/c")), "a b/c");
}

fn assert_breadcrumb_root() {
    let bc = build_breadcrumb("/", "/");
    assert!(bc.contains("href=\"/\""));
    assert!(!bc.contains("sep"));
}

fn assert_breadcrumb_nested() {
    let bc = build_breadcrumb("/", "/images/photos/");
    assert!(bc.contains("href=\"/\""));
    assert!(bc.contains("/images/\">images</a>"));
    assert!(bc.contains("/images/photos/\">photos</a>"));
    assert_eq!(bc.matches("class=\"sep\"").count(), 2);
}

fn assert_breadcrumb_percent_encoded() {
    let bc = build_breadcrumb("/", "/my%20dir/child%2Fslash/");
    assert!(bc.contains(">my dir</a>"));
    assert!(bc.contains(">child/slash</a>"));
    assert!(bc.contains("href=\"/my%20dir/\">"));
    assert!(bc.contains("href=\"/my%20dir/child%2Fslash/\">"));
}

fn assert_breadcrumb_non_root_mount() {
    let bc = build_breadcrumb("/static", "/static/images/");
    assert!(bc.contains("href=\"/static/\""));
    assert!(bc.contains("/images/\">images</a>"));
}

#[test]
fn static_files_test_breadcrumb_root() {
    assert_breadcrumb_root();
}

#[test]
fn static_files_test_breadcrumb_nested() {
    assert_breadcrumb_nested();
}

#[test]
fn static_files_test_breadcrumb_percent_encoded_segments() {
    assert_breadcrumb_percent_encoded();
}

#[test]
fn static_files_test_breadcrumb_non_root_mount() {
    assert_breadcrumb_non_root_mount();
}

#[test]
fn breadcrumb_test_breadcrumb_root() {
    assert_breadcrumb_root();
}

#[test]
fn breadcrumb_test_breadcrumb_nested() {
    assert_breadcrumb_nested();
}

#[test]
fn breadcrumb_test_breadcrumb_percent_encoded_segments() {
    assert_breadcrumb_percent_encoded();
}

#[test]
fn breadcrumb_test_breadcrumb_non_root_mount() {
    assert_breadcrumb_non_root_mount();
}

fn sample_entries() -> Vec<DirEntry> {
    vec![
        DirEntry { name: "docs".to_string(), is_dir: true, size: 0, modified: 1700000000 },
        DirEntry { name: "readme.md".to_string(), is_dir: false, size: 4096, modified: 1700000000 },
    ]
}

fn icon_entries() -> Vec<DirEntry> {
    vec![
        DirEntry { name: "folder".to_string(), is_dir: true, size: 0, modified: 0 },
        DirEntry { name: "file.txt".to_string(), is_dir: false, size: 100, modified: 0 },
    ]
}

fn check_contains_entries() {
    let entries = sample_entries();
    let html = render_directory_listing("/", "/project/", &entries);
    assert!(html.contains("roxy-header"));
    assert!(html.contains("roxy-footer"));
    assert!(html.contains("Index of"));
    assert!(html.contains("/project/"));
    assert!(html.contains("docs/</a>"));
    assert!(html.contains("readme.md</a>"));
    assert!(html.contains("4.0 KB"));
}

fn check_parent_link() {
    let entries = vec![];
    let html = render_directory_listing("/", "/images/photos/", &entries);
    assert!(html.contains(">..</a>"));
    assert!(html.contains("/images/\""));
}

fn check_no_parent_at_root() {
    let entries = vec![];
    let html = render_directory_listing("/", "/", &entries);
    assert!(!html.contains(".."));
}

fn check_no_parent_at_mount_root() {
    let entries = vec![];
    let html = render_directory_listing("/static", "/static/", &entries);
    assert!(!html.contains(".."));
}

fn check_empty_state() {
    let entries = vec![];
    let html = render_directory_listing("/", "/", &entries);
    assert!(html.contains("empty"));
}

fn check_svg_icons() {
    let entries = icon_entries();
    let html = render_directory_listing("/", "/", &entries);
    assert!(html.contains(r##"fill="#E8853A""##));
    assert!(html.contains(r##"fill="#3BB8A2""##));
}

#[test]
fn static_files_test_render_directory_listing_contains_entries() {
    check_contains_entries();
}

#[test]
fn static_files_test_render_directory_listing_parent_link() {
    check_parent_link();
}

#[test]
fn static_files_test_render_directory_listing_no_parent_at_root() {
    check_no_parent_at_root();
}

#[test]
fn static_files_test_render_directory_listing_no_parent_at_mount_root() {
    check_no_parent_at_mount_root();
}

#[test]
fn static_files_test_render_directory_listing_empty_state() {
    check_empty_state();
}

#[test]
fn static_files_test_render_directory_listing_uses_svg_icons() {
    check_svg_icons();
}

#[test]
fn directory_test_render_directory_listing_contains_entries() {
    check_contains_entries();
}

#[test]
fn directory_test_render_directory_listing_parent_link() {
    check_parent_link();
}

#[test]
fn directory_test_render_directory_listing_no_parent_at_root() {
    check_no_parent_at_root();
}

#[test]
fn directory_test_render_directory_listing_no_parent_at_mount_root() {
    check_no_parent_at_mount_root();
}

#[test]
fn directory_test_render_directory_listing_empty_state() {
    check_empty_state();
}

#[test]
fn directory_test_render_directory_listing_uses_svg_icons() {
    check_svg_icons();
}

#[test]
fn listing_rows_carry_data_attributes() {
    let html = render_directory_listing("/", "/", &sample_entries());
    assert!(html.contains("<tr data-name=\"docs\" data-dir=\"1\" data-size=\"0\" data-ts=\"1700000000\">"));
    assert!(html.contains("<tr data-name=\"readme.md\" data-dir=\"0\" data-size=\"4096\" data-ts=\"1700000000\">"));
}

#[test]
fn static_mount_root_scenario() {
    assert_eq!(mount_redirect("/static", "/static", None), Some("/static/".to_string()));
    assert_eq!(mount_redirect("/static", "/static", Some("a=1")), Some("/static/?a=1".to_string()));
    assert_eq!(mount_redirect("/static/", "/static", None), None);
    assert_eq!(mount_redirect("/", "/", None), None);
    let html = render_directory_listing("/static", "/static/", &icon_entries());
    assert!(html.contains("data-name=\"folder\""));
    assert!(html.contains("data-name=\"file.txt\""));
    assert!(!html.contains(">..</a>"));
}

#[test]
fn strip_route_prefix_cases() {
    assert_eq!(strip_route_prefix("/static/a.txt", "/static"), "/a.txt");
    assert_eq!(strip_route_prefix("/static", "/static"), "/");
    assert_eq!(strip_route_prefix("/x", "/"), "/x");
    assert_eq!(strip_route_prefix("/other", "/static"), "/other");
}

#[test]
fn test_rewrite_redirect_location_to_include_mount_prefix() {
    assert_eq!(rewrite_redirect_location("/static", true, "/docs/"), Some("/static/docs/".to_string()));
}

#[test]
fn test_rewrite_redirect_location_to_include_mount_prefix_noop_for_root() {
    assert_eq!(rewrite_redirect_location("/", true, "/docs/"), None);
    assert_eq!(rewrite_redirect_location("/static", false, "/docs/"), None);
    assert_eq!(rewrite_redirect_location("/static", true, "docs/"), None);
}

#[test]
fn traversal_gate() {
    assert_eq!(confine("/srv/www/a", "/srv/www"), Some("/srv/www/a".to_string()));
    assert_eq!(confine("/srv/www", "/srv/www"), Some("/srv/www".to_string()));
    assert_eq!(confine("/srv/wwwx", "/srv/www"), None);
    assert_eq!(confine("/etc/passwd", "/srv/www"), None);
    assert_eq!(confine("/etc", "/"), Some("/etc".to_string()));
}

#[test]
fn relative_request_path_decodes_and_trims() {
    assert_eq!(relative_request_path("//my%20dir/x"), "my dir/x");
    assert_eq!(relative_request_path("/"), "");
}

#[test]
fn test_html_escape() {
    assert_eq!(html_escape("hello"), "hello");
    assert_eq!(html_escape("<script>"), "&lt;script&gt;");
    assert_eq!(html_escape("a&b"), "a&amp;b");
    assert_eq!(html_escape(r#"say "hi""#), "say &quot;hi&quot;");
    assert_eq!(html_escape("it's"), "it&#x27;s");
}

#[test]
fn test_encode_path_segment() {
    assert_eq!(encode_path_segment("hello"), "hello");
    assert_eq!(encode_path_segment("hello world"), "hello%20world");
    assert_eq!(encode_path_segment("file#1"), "file%231");
    assert_eq!(encode_path_segment("a+b"), "a%2Bb");
}

#[test]
fn test_render_page_contains_structure() {
    let html = render_page("Test", "<p>body</p>", "", "");
    assert!(html.contains("<!DOCTYPE html>"));
    assert!(html.contains("<title>Test - Roxy</title>"));
    assert!(html.contains("roxy-header"));
    assert!(html.contains("<p>body</p>"));
    assert!(html.contains("roxy-footer"));
    assert!(html.contains("made with ☕ by"));
}

#[test]
fn test_render_page_includes_extra_css_and_js() {
    let html = render_page("T", "", ".custom{color:red}", "alert(1)");
    assert!(html.contains(".custom{color:red}"));
    assert!(html.contains("alert(1)"));
}

#[test]
fn test_render_page_escapes_title() {
    let html = render_page("<script>", "", "", "");
    assert!(html.contains("&lt;script&gt; - Roxy"));
}

#[test]
fn test_render_page_omits_empty_script() {
    let html = render_page("T", "", "", "");
    assert!(!html.contains("<script>"));
}

#[test]
fn png_data_uri_encodes_base64() {
    assert_eq!(png_data_uri(b"hello"), "data:image/png;base64,aGVsbG8=");
    assert_eq!(png_data_uri(b""), "data:image/png;base64,");
}

#[test]
fn wildcard_base_for_subdomains() {
    assert_eq!(wildcard_base_domain("a.b.myapp.roxy"), Some("myapp.roxy".to_string()));
    assert_eq!(wildcard_base_domain("blog.myapp.roxy."), Some("myapp.roxy".to_string()));
    assert_eq!(wildcard_base_domain("myapp.roxy"), None);
    assert_eq!(wildcard_base_domain("google.com"), None);
}

#[test]
fn error_pages_escape_and_suggest() {
    let html = build_not_registered_page("Blog.Other.roxy:80", "data:x");
    assert!(html.contains("<code>blog.other.roxy</code> is not registered"));
    assert!(html.contains("roxy register other.roxy --wildcard"));
    let html = build_not_registered_page("<x>.roxy", "data:x");
    assert!(html.contains("&lt;x&gt;.roxy"));
    let r = reg("myapp.roxy", true);
    let html = build_no_route_page(&r, "myapp.roxy", "/api", "data:x");
    assert!(html.contains("roxy route add --wildcard myapp.roxy /api 3000"));
    let html = build_not_found_page("/a<b", "data:x");
    assert!(html.contains("The path <code>/a&lt;b</code> does not exist."));
    assert!(html.contains("<title>File Not Found - Roxy</title>"));
}

#[test]
fn dispatch_outcomes() {
    let state = AppState::new(vec![
        reg_routes("myapp.roxy", true, &["/=3000"]),
        reg_routes("blog.myapp.roxy", false, &["/api=5000"]),
    ]);
    assert!(matches!(state.dispatch(None, "/"), Dispatch::MissingHost));
    assert!(matches!(state.dispatch(Some("nope.roxy"), "/"), Dispatch::NotRegistered));
    assert!(matches!(state.dispatch(Some("blog.myapp.roxy"), "/other"), Dispatch::NoRoute(0)));
    match state.dispatch(Some("BLOG.myapp.roxy:80"), "/api/x") {
        Dispatch::Route { registration, route } => {
            let r = &state.registrations()[registration];
            assert_eq!(port_of(&r.routes()[route]), 5000);
        }
        other => panic!("unexpected {:?}", other),
    }
}

#[test]
fn entries_sorted_directories_first() {
    let e = |n: &str, d: bool| DirEntry { name: n.to_string(), is_dir: d, size: 0, modified: 0 };
    let sorted = sort_entries(vec![e("b_file.txt", false), e("a_dir", true), e("A_file.txt", false), e("Z", true)]);
    let names: Vec<&str> = sorted.iter().map(|x| x.name.as_str()).collect();
    assert_eq!(names, vec!["a_dir", "Z", "A_file.txt", "b_file.txt"]);
}

#[test]
fn find_registration_takes_name_as_given() {
    let state = AppState::new(vec![reg("app.roxy", false)]);
    assert!(state.find_registration("app.roxy").is_some());
    assert!(state.find_registration("APP.ROXY").is_none());
    assert!(state.get_domain("APP.ROXY").is_some());
}
