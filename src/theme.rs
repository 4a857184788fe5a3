//! The themed HTML frame shared by every page: escaping, the page shell,
//! icons and embedded images.
use vstd::prelude::*;

use base64::Engine;

use crate::text::{chars_of, push_str, string_of};

verus! {

pub const FOLDER_ICON: &'static str = "<svg class=\"ei\" viewBox=\"0 0 20 16\" width=\"18\" height=\"14\"><path d=\"M2 2C2 1.4 2.4 1 3 1h4l2 2h8c.6 0 1 .4 1 1v9c0 .6-.4 1-1 1H3c-.6 0-1-.4-1-1V2z\" fill=\"#E8853A\"/><path d=\"M2 5h16v8c0 .6-.4 1-1 1H3c-.6 0-1-.4-1-1V5z\" fill=\"#F0A050\"/></svg>";

pub const FILE_ICON: &'static str = "<svg class=\"ei\" viewBox=\"0 0 16 20\" width=\"14\" height=\"17\"><path d=\"M2 1c0-.6.4-1 1-1h7l5 5v13c0 .6-.4 1-1 1H3c-.6 0-1-.4-1-1V1z\" fill=\"#3BB8A2\"/><path d=\"M10 0v4c0 .6.4 1 1 1h4z\" fill=\"#2D9B87\"/></svg>";

pub const HOME_ICON: &'static str = "<svg class=\"bc-home\" viewBox=\"0 0 16 16\" width=\"14\" height=\"14\"><path d=\"M8 1.5L1.5 7H4v6h3v-4h2v4h3V7h2.5z\" fill=\"currentColor\"/></svg>";

pub const COMMON_CSS: &'static str = ":root {--fox-orange: #E8853A;--deep-amber: #D4722A;--teal: #3BB8A2;--teal-dark: #2D9B87;--purple: #8B6BB5;--purple-light: #A08AC5;--blue-bg: #9CB4D4;--warm-bg: #FFF8F3;--card-bg: #FFFFFF;--text: #3D3D3D;--text-light: #8D8682;--border: #F0E6DD;--border-hover: #E8D5C8;}*,*::before,*::after{margin:0;padding:0;box-sizing:border-box}body{font-family:-apple-system,BlinkMacSystemFont,'Segoe UI',Roboto,'Helvetica Neue',Arial,sans-serif;background:var(--warm-bg);color:var(--text);line-height:1.6;min-height:100vh;display:flex;flex-direction:column;}a{color:var(--teal-dark);text-decoration:none;transition:all .2s ease}a:hover{color:var(--fox-orange);transform:translateY(-1px)}code{font-family:'SF Mono',Monaco,'Cascadia Code',Menlo,Consolas,monospace;font-size:.88em;background:rgba(232,133,58,.08);padding:3px 7px;border-radius:5px;border:1px solid rgba(232,133,58,.12)}.roxy-header{background:linear-gradient(135deg,var(--fox-orange) 0%,var(--deep-amber) 100%);padding:16px 24px;color:#fff;box-shadow:0 3px 16px rgba(191,100,30,.15);}.roxy-header-inner{max-width:1000px;margin:0 auto;display:flex;align-items:center;gap:12px;}.roxy-brand{font-size:1.3em;font-weight:700;letter-spacing:.03em;display:flex;align-items:center;gap:8px;}.roxy-logo{font-size:1.4em;filter:drop-shadow(0 2px 4px rgba(0,0,0,.1))}.roxy-main{max-width:1000px;width:100%;margin:0 auto;padding:32px 24px;flex:1;}.roxy-footer{text-align:center;padding:20px 24px;color:var(--text-light);font-size:.82em;border-top:1px solid var(--border);background:#FEFCFB;}.roxy-footer a{color:var(--text-light);transition:color .2s}.roxy-footer a:hover{color:var(--fox-orange);text-decoration:none}";

pub const HEADER_HTML: &'static str = "<header class=\"roxy-header\"><div class=\"roxy-header-inner\"><span class=\"roxy-brand\"><span class=\"roxy-logo\">\u{1f98a}</span>Roxy</span></div></header>\n";

pub const FOOTER_HTML: &'static str = "<footer class=\"roxy-footer\"><span class=\"roxy-fox\">\u{1f98a}</span> <a href=\"https://github.com/rbas/roxy\">Roxy</a> &middot; made with \u{2615} by <a href=\"https://github.com/rbas\">@rbas</a></footer>\n";





/// The escaped form of one character.
pub open spec fn escape_char(c: char) -> Seq<char> {
    if c == '&' {
        "&amp;"@
    } else if c == '<' {
        "&lt;"@
    } else if c == '>' {
        "&gt;"@
    } else if c == '"' {
        "&quot;"@
    } else if c == '\'' {
        "&#x27;"@
    } else {
        seq![c]
    }
}

/// `s` with `& < > " '` replaced by their character references.
pub open spec fn escape_html(s: Seq<char>) -> Seq<char>
    decreases s.len(),
{
    if s.len() == 0 {
        Seq::empty()
    } else {
        escape_html(s.drop_last()) + escape_char(s.last())
    }
}

/// Appends the escaped form of `s` to `out`.
pub fn push_escaped(out: &mut Vec<char>, s: &str)
    ensures
        final(out)@ == old(out)@ + escape_html(s@),
{
    let v = chars_of(s);
    let ghost start = out@;
    let mut i: usize = 0;
    while i < v.len()
        invariant
            i <= v@.len(),
            v@ == s@,
            out@ == start + escape_html(v@.subrange(0, i as int)),
        decreases v@.len() - i,
    {
        assert(v@.subrange(0, i + 1).drop_last() =~= v@.subrange(0, i as int));
        let c = v[i];
        if c == '&' {
            push_str(out, "&amp;");
        } else if c == '<' {
            push_str(out, "&lt;");
        } else if c == '>' {
            push_str(out, "&gt;");
        } else if c == '"' {
            push_str(out, "&quot;");
        } else if c == '\'' {
            push_str(out, "&#x27;");
        } else {
            out.push(c);
        }
        i = i + 1;
        assert(out@ =~= start + escape_html(v@.subrange(0, i as int)));
    }
    assert(v@.subrange(0, i as int) =~= s@);
}

/// Escapes text for HTML.
pub fn html_escape(s: &str) -> (r: String)
    ensures
        r@ == escape_html(s@),
{
    let mut out: Vec<char> = Vec::new();
    push_escaped(&mut out, s);
    assert(out@ =~= escape_html(s@));
    string_of(&out)
}

/// The whole page: head with the escaped title and the styles, the shared
/// header, the body, the footer, and the script when there is one.
pub open spec fn page(title: Seq<char>, body: Seq<char>, css: Seq<char>, js: Seq<char>) -> Seq<
    char,
> {
    "<!DOCTYPE html>\n<html lang=\"en\">\n<head>\n"@ + "<meta charset=\"utf-8\">\n"@
        + "<meta name=\"viewport\" content=\"width=device-width, initial-scale=1\">\n"@
        + "<title>"@ + escape_html(title) + " - Roxy</title>\n<style>\n"@ + COMMON_CSS@ + (if css.len()
        > 0 {
        "\n"@ + css
    } else {
        Seq::empty()
    }) + "\n</style>\n</head>\n<body>\n"@ + HEADER_HTML@ + "<main class=\"roxy-main\">\n"@ + body
        + "\n</main>\n"@ + FOOTER_HTML@ + (if js.len() > 0 {
        "<script>\n"@ + js + "\n</script>\n"@
    } else {
        Seq::empty()
    }) + "</body>\n</html>"@
}

pub fn render_page(title: &str, body: &str, extra_css: &str, extra_js: &str) -> (r: String)
    ensures
        r@ == page(title@, body@, extra_css@, extra_js@),
{
    let mut html: Vec<char> = Vec::new();
    push_str(&mut html, "<!DOCTYPE html>\n<html lang=\"en\">\n<head>\n");
    push_str(&mut html, "<meta charset=\"utf-8\">\n");
    push_str(&mut html, "<meta name=\"viewport\" content=\"width=device-width, initial-scale=1\">\n");
    push_str(&mut html, "<title>");
    push_escaped(&mut html, title);
    push_str(&mut html, " - Roxy</title>\n<style>\n");
    push_str(&mut html, COMMON_CSS);
    if !extra_css.is_empty() {
        push_str(&mut html, "\n");
        push_str(&mut html, extra_css);
    }
    push_str(&mut html, "\n</style>\n</head>\n<body>\n");
    push_str(&mut html, HEADER_HTML);
    push_str(&mut html, "<main class=\"roxy-main\">\n");
    push_str(&mut html, body);
    push_str(&mut html, "\n</main>\n");
    push_str(&mut html, FOOTER_HTML);
    if !extra_js.is_empty() {
        push_str(&mut html, "<script>\n");
        push_str(&mut html, extra_js);
        push_str(&mut html, "\n</script>\n");
    }
    push_str(&mut html, "</body>\n</html>");
    let r = string_of(&html);
    assert(r@ =~= page(title@, body@, extra_css@, extra_js@));
    r
}

/// What `base64`'s standard engine, with padding, encodes a byte sequence to.
pub uninterp spec fn base64_of(b: Seq<u8>) -> Seq<char>;

/// Relies on `base64::Engine::encode` with `general_purpose::STANDARD`:
/// padded output of four characters per started group of three bytes; the
/// length computation panics only when it overflows `usize`.
#[verifier::external_body]
fn base64_standard(b: &[u8]) -> (r: String)
    requires
        b@.len() <= usize::MAX / 2,
    ensures
        r@ == base64_of(b@),
        r@.len() == 4 * ((b@.len() + 2) / 3),
{
    base64::engine::general_purpose::STANDARD.encode(b)
}

/// A `data:` URI carrying PNG bytes.
pub open spec fn png_data_uri_text(png: Seq<u8>) -> Seq<char> {
    "data:image/png;base64,"@ + base64_of(png)
}

pub fn png_data_uri(png: &[u8]) -> (r: String)
    requires
        png@.len() <= usize::MAX / 2,
    ensures
        r@ == png_data_uri_text(png@),
{
    let mut out = chars_of("data:image/png;base64,");
    let enc = base64_standard(png);
    push_str(&mut out, enc.as_str());
    string_of(&out)
}

/// The image on the "domain not registered" page, as a data URI.
pub fn roxy_error_data_uri(png: &[u8]) -> (r: String)
    requires
        png@.len() <= usize::MAX / 2,
    ensures
        r@ == png_data_uri_text(png@),
{
    png_data_uri(png)
}

/// The image on the not-found pages, as a data URI.
pub fn roxy_404_data_uri(png: &[u8]) -> (r: String)
    requires
        png@.len() <= usize::MAX / 2,
    ensures
        r@ == png_data_uri_text(png@),
{
    png_data_uri(png)
}

} // verus!
