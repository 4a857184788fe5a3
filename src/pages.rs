//! The themed error pages: unknown domain, no matching route, missing file.
use vstd::prelude::*;

use crate::domain::roxy_suffix;
use crate::registration::DomainRegistration;
use crate::router::{normalize_host, normalized_host, trim_trailing_dots};
use crate::text::{chars_of, ends_with, ends_with_exec, last_index_of, push_chars, push_str, rfind,
    slice_chars, string_of};
use crate::theme::{escape_html, page, push_escaped, render_page};

verus! {


pub const ERROR_CSS: &'static str = ".error-container{display:flex;flex-direction:column;align-items:center;gap:28px;max-width:700px;margin:40px auto;}.error-image{animation:fadeInDown .6s ease-out;}.error-image img{width:100%;max-width:300px;height:auto;border-radius:12px;box-shadow:0 8px 24px rgba(156,180,212,.25);}.error-card{background:var(--card-bg);border-radius:12px;border:1px solid var(--border);padding:40px;box-shadow:0 4px 16px rgba(0,0,0,.04);text-align:center;width:100%;animation:fadeInUp .6s ease-out;}.error-title{color:var(--fox-orange);font-size:1.7em;margin-bottom:16px;font-weight:700;}.error-message{margin-bottom:20px;font-size:1.05em;line-height:1.6}.help-section{margin-top:24px;text-align:left}.help-label{font-size:.9em;color:var(--text-light);margin-bottom:8px;font-weight:500;text-transform:uppercase;letter-spacing:.03em;}.command{background:linear-gradient(135deg,#2D2520 0%,#3D3530 100%);color:#F8F0E8;padding:16px 20px;border-radius:10px;margin:12px 0 20px 0;font-family:'SF Mono',Monaco,'Cascadia Code',Menlo,Consolas,monospace;font-size:.88em;line-height:1.8;border:1px solid #4D4540;box-shadow:0 4px 12px rgba(0,0,0,.15);}.comment{color:#A89C95;font-size:.95em}@keyframes fadeInDown{from{opacity:0;transform:translateY(-20px)}to{opacity:1;transform:translateY(0)}}@keyframes fadeInUp{from{opacity:0;transform:translateY(20px)}to{opacity:1;transform:translateY(0)}}@media(max-width:600px){.error-image img{max-width:240px}.error-card{padding:28px}}";

pub const NOT_FOUND_CSS: &'static str = ".error-container{display:flex;flex-direction:column;align-items:center;gap:24px;max-width:700px;margin:40px auto;}.error-image{animation:fadeInDown .6s ease-out;}.error-image img{width:100%;max-width:300px;height:auto;border-radius:12px;box-shadow:0 8px 24px rgba(156,180,212,.25);}.error-card{background:var(--card-bg);border-radius:12px;border:1px solid var(--border);padding:36px;box-shadow:0 4px 16px rgba(0,0,0,.04);text-align:center;width:100%;animation:fadeInUp .6s ease-out;}.error-title{color:var(--fox-orange);font-size:1.6em;margin-bottom:16px;font-weight:700;}.error-message{margin-bottom:12px;font-size:1.05em}.error-hint{color:var(--text-light);font-size:.92em;margin-top:8px}@keyframes fadeInDown{from{opacity:0;transform:translateY(-20px)}to{opacity:1;transform:translateY(0)}}@keyframes fadeInUp{from{opacity:0;transform:translateY(20px)}to{opacity:1;transform:translateY(0)}}@media(max-width:600px){.error-image img{max-width:240px}.error-card{padding:28px}}";

/// For a name two or more labels under `.roxy`, the base a wildcard would
/// register: its last label before `.roxy`, then `.roxy`.
pub open spec fn wildcard_base(domain: Seq<char>) -> Option<Seq<char>> {
    let d = trim_trailing_dots(domain);
    if !ends_with(d, roxy_suffix()) {
        None
    } else {
        let p = d.subrange(0, d.len() - 5);
        let k = last_index_of(p, '.');
        if k < 0 {
            None
        } else {
            Some(p.subrange(k + 1, p.len() as int) + roxy_suffix())
        }
    }
}

pub fn wildcard_base_domain(domain: &str) -> (r: Option<String>)
    ensures
        match wildcard_base(domain@) {
            Some(w) => r matches Some(s) && s@ == w,
            None => r is None,
        },
{
    let v = chars_of(domain);
    let mut n: usize = v.len();
    assert(v@.subrange(0, n as int) =~= v@);
    while n > 0 && v[n - 1] == '.'
        invariant
            n <= v@.len(),
            v@ == domain@,
            trim_trailing_dots(v@) == trim_trailing_dots(v@.subrange(0, n as int)),
        decreases n,
    {
        assert(v@.subrange(0, n as int).drop_last() =~= v@.subrange(0, n - 1));
        n = n - 1;
    }
    let d = slice_chars(&v, 0, n);
    let suffix: Vec<char> = vec!['.', 'r', 'o', 'x', 'y'];
    assert(suffix@ =~= roxy_suffix());
    if !ends_with_exec(&d, &suffix) {
        return None;
    }
    let p = slice_chars(&d, 0, d.len() - 5);
    match rfind(&p, '.') {
        Some(k) => {
            let mut out = slice_chars(&p, k + 1, p.len());
            push_chars(&mut out, &suffix);
            Some(string_of(&out))
        },
        None => None,
    }
}

/// The image block shared by the error pages.
pub open spec fn error_image(img: Seq<char>, alt: Seq<char>) -> Seq<char> {
    "<div class=\"error-container\">\n<div class=\"error-image\">\n<img src=\""@ + img + "\" alt=\""@
        + alt + "\" width=\"300\" height=\"225\">\n</div>\n<div class=\"error-card\">\n"@
}

fn push_error_image(out: &mut Vec<char>, img: &str, alt: &str)
    ensures
        final(out)@ == old(out)@ + error_image(img@, alt@),
{
    push_str(out, "<div class=\"error-container\">\n<div class=\"error-image\">\n<img src=\"");
    push_str(out, img);
    push_str(out, "\" alt=\"");
    push_str(out, alt);
    push_str(out, "\" width=\"300\" height=\"225\">\n</div>\n<div class=\"error-card\">\n");
    assert(final(out)@ =~= old(out)@ + error_image(img@, alt@));
}

/// Body of the page for a path that does not exist.
pub open spec fn not_found_body(uri: Seq<char>, img: Seq<char>) -> Seq<char> {
    error_image(img, "404 - Roxy Fox"@) + "<h1 class=\"error-title\">File Not Found</h1>\n"@
        + "<p class=\"error-message\">The path <code>"@ + escape_html(uri)
        + "</code> does not exist.</p>\n"@
        + "<p class=\"error-hint\">Check the path and try again, or navigate back to the directory listing.</p>\n"@
        + "</div></div>"@
}

pub fn build_not_found_page(uri_path: &str, image_data_uri: &str) -> (r: String)
    ensures
        r@ == page("File Not Found"@, not_found_body(uri_path@, image_data_uri@), NOT_FOUND_CSS@, ""@),
{
    let mut body: Vec<char> = Vec::new();
    push_error_image(&mut body, image_data_uri, "404 - Roxy Fox");
    push_str(&mut body, "<h1 class=\"error-title\">File Not Found</h1>\n");
    push_str(&mut body, "<p class=\"error-message\">The path <code>");
    push_escaped(&mut body, uri_path);
    push_str(&mut body, "</code> does not exist.</p>\n");
    push_str(
        &mut body,
        "<p class=\"error-hint\">Check the path and try again, or navigate back to the directory listing.</p>\n",
    );
    push_str(&mut body, "</div></div>");
    assert(body@ =~= not_found_body(uri_path@, image_data_uri@));
    let b = string_of(&body);
    render_page("File Not Found", b.as_str(), NOT_FOUND_CSS, "")
}

/// The register commands shown for an unknown domain `d` (escaped), with
/// the wildcard suggestion when there is a base for one.
pub open spec fn register_help(d: Seq<char>, wild: Option<Seq<char>>) -> Seq<char> {
    "<div class=\"command\">roxy register "@ + d + " --route \"/=3000\"<br>"@ + (match wild {
        Some(w) => "<span class=\"comment\"># using subdomains? register wildcard:</span><br>roxy register "@
            + escape_html(w) + " --wildcard --route \"/=3000\"<br>"@,
        None => Seq::empty(),
    }) + "<span class=\"comment\"># or with multiple routes:</span><br>roxy register "@ + d
        + " --route \"/=3000\" --route \"/api=3001\"</div>\n"@
}

/// Body of the page for a host that no registration matches.
pub open spec fn not_registered_body(host: Seq<char>, img: Seq<char>) -> Seq<char> {
    let raw = normalized_host(host);
    let d = escape_html(raw);
    error_image(img, "Server Error - Roxy Fox"@)
        + "<h1 class=\"error-title\">Domain Not Registered</h1>\n<p class=\"error-message\">The domain <code>"@
        + d + "</code> is not registered with Roxy.</p>\n<div class=\"help-section\">\n<p class=\"help-label\">To register this domain, run:</p>\n"@
        + register_help(d, wildcard_base(raw))
        + "<p class=\"help-label\">Then restart the Roxy daemon:</p>\n<div class=\"command\">roxy restart</div>\n</div></div></div>"@
}

pub fn build_not_registered_page(host: &str, image_data_uri: &str) -> (r: String)
    ensures
        r@ == page(
            "Domain Not Registered"@,
            not_registered_body(host@, image_data_uri@),
            ERROR_CSS@,
            ""@,
        ),
{
    let raw = normalize_host(host);
    let d = crate::theme::html_escape(raw.as_str());
    let mut body: Vec<char> = Vec::new();
    push_error_image(&mut body, image_data_uri, "Server Error - Roxy Fox");
    push_str(
        &mut body,
        "<h1 class=\"error-title\">Domain Not Registered</h1>\n<p class=\"error-message\">The domain <code>",
    );
    push_str(&mut body, d.as_str());
    push_str(
        &mut body,
        "</code> is not registered with Roxy.</p>\n<div class=\"help-section\">\n<p class=\"help-label\">To register this domain, run:</p>\n",
    );
    let ghost mid = body@;
    push_str(&mut body, "<div class=\"command\">roxy register ");
    push_str(&mut body, d.as_str());
    push_str(&mut body, " --route \"/=3000\"<br>");
    match wildcard_base_domain(raw.as_str()) {
        Some(w) => {
            push_str(
                &mut body,
                "<span class=\"comment\"># using subdomains? register wildcard:</span><br>roxy register ",
            );
            push_escaped(&mut body, w.as_str());
            push_str(&mut body, " --wildcard --route \"/=3000\"<br>");
        },
        None => {},
    }
    push_str(&mut body, "<span class=\"comment\"># or with multiple routes:</span><br>roxy register ");
    push_str(&mut body, d.as_str());
    push_str(&mut body, " --route \"/=3000\" --route \"/api=3001\"</div>\n");
    assert(body@ =~= mid + register_help(d@, wildcard_base(raw@)));
    push_str(
        &mut body,
        "<p class=\"help-label\">Then restart the Roxy daemon:</p>\n<div class=\"command\">roxy restart</div>\n</div></div></div>",
    );
    assert(body@ =~= not_registered_body(host@, image_data_uri@));
    let b = string_of(&body);
    render_page("Domain Not Registered", b.as_str(), ERROR_CSS, "")
}

/// Body of the page for a registered host with no route for the path.
pub open spec fn no_route_body(
    reg_base: Seq<char>,
    wildcard: bool,
    host: Seq<char>,
    path: Seq<char>,
    img: Seq<char>,
) -> Seq<char> {
    let p = escape_html(path);
    error_image(img, "404 - Roxy Fox"@)
        + "<h1 class=\"error-title\">No Route Found</h1>\n<p class=\"error-message\">No route matches path <code>"@
        + p + "</code> on domain <code>"@ + escape_html(normalized_host(host))
        + "</code>.</p>\n<div class=\"help-section\">\n<p class=\"help-label\">To add a route for this path, run:</p>\n<div class=\"command\">roxy route add "@
        + (if wildcard {
        "--wildcard "@
    } else {
        Seq::empty()
    }) + escape_html(reg_base) + " "@ + p
        + " 3000</div>\n<p class=\"help-label\">Then reload the Roxy daemon:</p>\n<div class=\"command\">roxy reload</div>\n</div></div></div>"@
}

pub fn build_no_route_page(
    registration: &DomainRegistration,
    host: &str,
    path: &str,
    image_data_uri: &str,
) -> (r: String)
    ensures
        r@ == page(
            "No Route Found"@,
            no_route_body(
                registration@.pattern.base(),
                registration@.pattern.wildcard(),
                host@,
                path@,
                image_data_uri@,
            ),
            ERROR_CSS@,
            ""@,
        ),
{
    let raw = normalize_host(host);
    let mut body: Vec<char> = Vec::new();
    push_error_image(&mut body, image_data_uri, "404 - Roxy Fox");
    push_str(
        &mut body,
        "<h1 class=\"error-title\">No Route Found</h1>\n<p class=\"error-message\">No route matches path <code>",
    );
    push_escaped(&mut body, path);
    push_str(&mut body, "</code> on domain <code>");
    push_escaped(&mut body, raw.as_str());
    push_str(
        &mut body,
        "</code>.</p>\n<div class=\"help-section\">\n<p class=\"help-label\">To add a route for this path, run:</p>\n<div class=\"command\">roxy route add ",
    );
    if registration.is_wildcard() {
        push_str(&mut body, "--wildcard ");
    }
    push_escaped(&mut body, registration.domain().as_str());
    push_str(&mut body, " ");
    push_escaped(&mut body, path);
    push_str(
        &mut body,
        " 3000</div>\n<p class=\"help-label\">Then reload the Roxy daemon:</p>\n<div class=\"command\">roxy reload</div>\n</div></div></div>",
    );
    assert(body@ =~= no_route_body(
        registration@.pattern.base(),
        registration@.pattern.wildcard(),
        host@,
        path@,
        image_data_uri@,
    ));
    let b = string_of(&body);
    render_page("No Route Found", b.as_str(), ERROR_CSS, "")
}

} // verus!
