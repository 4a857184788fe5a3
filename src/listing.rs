//! The themed directory listing: breadcrumb, parent link and one row per
//! entry, with the data attributes the page's script sorts by.
use vstd::prelude::*;
use vstd::utf8::encode_utf8;

use crate::static_files::{decode_bytes, encode_path_segment, encode_segment, format_size,
    lossy_of, percent_decode, size_text};
use crate::text::{
    lower_of, lowercase,
    chars_equal, chars_of, decimal, find, first_index_of, push_chars, push_decimal, push_str,
    slice_chars, starts_with, starts_with_exec, string_of,
};
use crate::theme::{escape_html, page, push_escaped, render_page, FILE_ICON, FOLDER_ICON, HOME_ICON};

verus! {


pub const FILEBROWSER_CSS: &'static str = ".page-title{font-size:1.1em;color:var(--text-light);margin-bottom:16px;font-weight:400;display:flex;align-items:center;gap:8px;}.page-title code{font-size:1em;font-weight:600;color:var(--text);background:transparent;padding:0;}.breadcrumb{display:flex;flex-wrap:wrap;align-items:center;gap:4px;padding:12px 18px;margin-bottom:24px;background:var(--card-bg);border-radius:10px;border:1px solid var(--border);font-size:.9em;box-shadow:0 2px 8px rgba(0,0,0,.03);}.breadcrumb a{color:var(--fox-orange);padding:4px 8px;border-radius:6px;transition:all .2s ease;}.breadcrumb a:hover{background:rgba(232,133,58,.12);text-decoration:none;transform:translateY(-1px);}.bc-home{vertical-align:middle;color:var(--fox-orange)}.breadcrumb .sep{color:var(--border-hover);margin:0 4px;font-size:.85em}.file-card{background:var(--card-bg);border-radius:12px;border:1px solid var(--border);overflow:hidden;box-shadow:0 4px 16px rgba(0,0,0,.04);animation:fadeIn .5s ease-out;}.file-card table{width:100%;border-collapse:collapse}.file-card th{text-align:left;padding:14px 18px;background:linear-gradient(180deg,#FEFAF6 0%,#FDF6EE 100%);color:var(--text-light);font-size:.75em;font-weight:600;text-transform:uppercase;letter-spacing:.08em;cursor:pointer;user-select:none;border-bottom:2px solid var(--border);transition:all .2s ease;}.file-card th:hover{color:var(--fox-orange);background:#FFF5ED}.file-card td{padding:12px 18px;border-bottom:1px solid #FAF4EE;vertical-align:middle;transition:background .2s ease;}.file-card tr:last-child td{border-bottom:none}.file-card tbody tr:hover td{background:#FFF8F2;cursor:pointer}.file-card a{color:var(--text);font-weight:500;transition:all .2s ease}.file-card a:hover{color:var(--fox-orange);text-decoration:none}.parent-row td{padding:10px 18px;background:rgba(232,133,58,.03)}.parent-row:hover td{background:rgba(232,133,58,.08)!important}.ei{vertical-align:middle;margin-right:10px;transition:transform .2s}.file-card tr:hover .ei{transform:scale(1.1)}.size,.modified{color:var(--text-light);font-family:'SF Mono',Monaco,'Cascadia Code',Menlo,Consolas,monospace;font-size:.82em;white-space:nowrap;}.si{font-size:.75em;margin-left:6px;opacity:.3;transition:all .2s}.si.active{opacity:1;color:var(--fox-orange);font-weight:700}.empty-dir{padding:48px 18px;text-align:center;color:var(--text-light);font-style:italic}.col-size{width:110px}.col-mod{width:200px}@keyframes fadeIn{from{opacity:0}to{opacity:1}}@media(max-width:768px){.col-mod{display:none}.col-size{width:80px}}";

pub const FILEBROWSER_JS: &'static str = "document.querySelectorAll('.modified').forEach(function(el){var ts=parseInt(el.dataset.ts);if(ts>0){var d=new Date(ts*1000);el.textContent=d.toLocaleDateString(undefined,{year:'numeric',month:'short',day:'numeric'})+' '+d.toLocaleTimeString([],{hour:'2-digit',minute:'2-digit'});}});var col=0,asc=true;function sort(c){if(col===c)asc=!asc;else{col=c;asc=true;}for(var i=0;i<3;i++){var el=document.getElementById('s'+i);el.className='si'+(i===col?' active':'');el.textContent=i===col?(asc?'\\u25B2':'\\u25BC'):'';}var tbody=document.querySelector('#listing tbody');var nonEntryRows=Array.from(tbody.querySelectorAll('tr:not([data-name])'));var rows=Array.from(tbody.querySelectorAll('tr[data-name]'));rows.sort(function(a,b){var ad=parseInt(a.dataset.dir),bd=parseInt(b.dataset.dir);if(ad!==bd)return bd-ad;var av,bv;if(c===0){av=a.dataset.name.toLowerCase();bv=b.dataset.name.toLowerCase();return asc?av.localeCompare(bv):bv.localeCompare(av);}else if(c===1){av=parseInt(a.dataset.size);bv=parseInt(b.dataset.size);}else{av=parseInt(a.dataset.ts);bv=parseInt(b.dataset.ts);}return asc?av-bv:bv-av;});while(tbody.firstChild)tbody.removeChild(tbody.firstChild);nonEntryRows.forEach(function(r){tbody.appendChild(r);});rows.forEach(function(r){tbody.appendChild(r);});}";

/// One entry of a directory.
#[derive(Debug, Clone)]
pub struct DirEntry {
    pub name: String,
    pub is_dir: bool,
    /// Size in bytes; 0 for directories.
    pub size: u64,
    /// Modification time in Unix seconds; 0 when unknown.
    pub modified: u64,
}

/// The non-empty pieces of `s` between slashes, in order.
pub open spec fn path_segments(s: Seq<char>) -> Seq<Seq<char>>
    decreases s.len(),
{
    if s.len() == 0 {
        Seq::empty()
    } else if s[0] == '/' {
        path_segments(s.drop_first())
    } else {
        let k = first_index_of(s, '/');
        if k <= 0 || k >= s.len() {
            seq![s]
        } else {
            seq![s.subrange(0, k)] + path_segments(s.subrange(k, s.len() as int))
        }
    }
}

fn split_path(s: &str) -> (r: Vec<Vec<char>>)
    ensures
        r@.map_values(|v: Vec<char>| v@) == path_segments(s@),
{
    let mut rest = chars_of(s);
    let mut out: Vec<Vec<char>> = Vec::new();
    while rest.len() > 0
        invariant
            out@.map_values(|v: Vec<char>| v@) + path_segments(rest@) == path_segments(s@),
        decreases rest@.len(),
    {
        let ghost before = rest@;
        let ghost old_out = out@.map_values(|v: Vec<char>| v@);
        if rest[0] == '/' {
            let n: usize = rest.len();
            rest = slice_chars(&rest, 1, n);
            assert(rest@ =~= before.drop_first());
        } else {
            match find(&rest, '/') {
                Some(k) => {
                    let n: usize = rest.len();
                    let head = slice_chars(&rest, 0, k);
                    let tail = slice_chars(&rest, k, n);
                    out.push(head);
                    rest = tail;
                    assert(out@.map_values(|v: Vec<char>| v@) =~= old_out.push(head@));
                    assert(old_out.push(head@) + path_segments(rest@) =~= old_out + path_segments(
                        before,
                    ));
                },
                None => {
                    let n: usize = rest.len();
                    let head = slice_chars(&rest, 0, n);
                    out.push(head);
                    rest = Vec::new();
                    assert(head@ =~= before);
                    assert(out@.map_values(|v: Vec<char>| v@) =~= old_out.push(head@));
                    assert(path_segments(rest@) =~= Seq::<Seq<char>>::empty());
                    assert(old_out.push(head@) + Seq::<Seq<char>>::empty() =~= old_out
                        + path_segments(before));
                },
            }
        }
    }
    assert(out@.map_values(|v: Vec<char>| v@) + Seq::<Seq<char>>::empty() =~= out@.map_values(
        |v: Vec<char>| v@,
    ));
    out
}

/// A segment as shown: percent-decoded.
pub open spec fn shown_segment(seg: Seq<char>) -> Seq<char> {
    lossy_of(decode_bytes(encode_utf8(seg)))
}

/// Where the home link of the breadcrumb points: the mount prefix with a
/// trailing slash.
pub open spec fn crumb_root(prefix: Seq<char>) -> Seq<char> {
    if prefix.len() > 0 && prefix.last() == '/' {
        prefix
    } else {
        prefix + seq!['/']
    }
}

/// One separator and link per segment; each link's target extends the
/// previous one with the segment re-encoded.
pub open spec fn crumb_trail(segs: Seq<Seq<char>>, href: Seq<char>) -> Seq<char>
    decreases segs.len(),
{
    if segs.len() == 0 {
        Seq::empty()
    } else {
        let d = shown_segment(segs[0]);
        let h = href + "/"@ + encode_segment(encode_utf8(d));
        "<span class=\"sep\">/</span>"@ + "<a href=\""@ + h + "/\">"@ + escape_html(d) + "</a>"@
            + crumb_trail(segs.drop_first(), h)
    }
}

pub open spec fn breadcrumb(prefix: Seq<char>, uri: Seq<char>) -> Seq<char> {
    "<a href=\""@ + crumb_root(prefix) + "\" title=\"Root\">"@ + HOME_ICON@ + "</a>"@ + crumb_trail(
        path_segments(uri),
        Seq::empty(),
    )
}

pub fn build_breadcrumb(route_prefix: &str, uri_path: &str) -> (r: String)
    ensures
        r@ == breadcrumb(route_prefix@, uri_path@),
{
    let mut html: Vec<char> = Vec::new();
    push_str(&mut html, "<a href=\"");
    let p = chars_of(route_prefix);
    push_chars(&mut html, &p);
    if !(p.len() > 0 && p[p.len() - 1] == '/') {
        html.push('/');
    }
    push_str(&mut html, "\" title=\"Root\">");
    push_str(&mut html, HOME_ICON);
    push_str(&mut html, "</a>");
    let ghost head = html@;
    assert(head =~= "<a href=\""@ + crumb_root(route_prefix@) + "\" title=\"Root\">"@ + HOME_ICON@
        + "</a>"@);
    let segs = split_path(uri_path);
    let ghost all = path_segments(uri_path@);
    let mut href: Vec<char> = Vec::new();
    let mut i: usize = 0;
    assert(all.subrange(0, all.len() as int) =~= all);
    assert(href@ =~= Seq::<char>::empty());
    while i < segs.len()
        invariant
            i <= segs@.len(),
            segs@.map_values(|v: Vec<char>| v@) == all,
            html@ + crumb_trail(all.subrange(i as int, all.len() as int), href@) == head
                + crumb_trail(all, Seq::empty()),
        decreases segs@.len() - i,
    {
        let ghost before = html@;
        let ghost href_before = href@;
        let ghost rest = all.subrange(i as int, all.len() as int);
        assert(rest.drop_first() =~= all.subrange(i + 1, all.len() as int));
        assert(rest[0] == segs@[i as int]@);
        let seg = string_of(&segs[i]);
        let decoded = percent_decode(seg.as_str());
        push_str(&mut html, "<span class=\"sep\">/</span>");
        push_str(&mut href, "/");
        let enc = encode_path_segment(decoded.as_str());
        push_str(&mut href, enc.as_str());
        push_str(&mut html, "<a href=\"");
        push_chars(&mut html, &href);
        push_str(&mut html, "/\">");
        push_escaped(&mut html, decoded.as_str());
        push_str(&mut html, "</a>");
        i = i + 1;
        proof {
            let d = decoded@;
            let a = "<span class=\"sep\">/</span>"@ + "<a href=\""@ + href@ + "/\">"@ + escape_html(d)
                + "</a>"@;
            assert(href@ =~= href_before + "/"@ + encode_segment(encode_utf8(d)));
            assert(d == shown_segment(rest[0]));
            assert(crumb_trail(rest, href_before) == a + crumb_trail(rest.drop_first(), href@));
            assert(html@ =~= before + a);
            let c = crumb_trail(rest.drop_first(), href@);
            assert((before + a) + c =~= before + (a + c));
        }
    }
    assert(all.subrange(i as int, all.len() as int) =~= Seq::<Seq<char>>::empty());
    assert(html@ + Seq::<char>::empty() =~= html@);
    string_of(&html)
}

} // verus!

verus! {

/// `s` without its trailing slashes.
pub open spec fn trim_end_slashes(s: Seq<char>) -> Seq<char>
    decreases s.len(),
{
    if s.len() > 0 && s.last() == '/' {
        trim_end_slashes(s.drop_last())
    } else {
        s
    }
}

fn trim_end_slashes_exec(v: &Vec<char>) -> (r: Vec<char>)
    ensures
        r@ == trim_end_slashes(v@),
{
    let mut n: usize = v.len();
    assert(v@.subrange(0, n as int) =~= v@);
    while n > 0 && v[n - 1] == '/'
        invariant
            n <= v@.len(),
            trim_end_slashes(v@) == trim_end_slashes(v@.subrange(0, n as int)),
        decreases n,
    {
        assert(v@.subrange(0, n as int).drop_last() =~= v@.subrange(0, n - 1));
        n = n - 1;
    }
    slice_chars(v, 0, n)
}

/// The mount root a listing stays within.
pub open spec fn mount_root(prefix: Seq<char>) -> Seq<char> {
    if prefix == seq!['/'] {
        seq!['/']
    } else {
        trim_end_slashes(prefix)
    }
}

/// The parent of a listed path: what precedes its last slash, or `/`.
pub open spec fn parent_of(uri: Seq<char>) -> Seq<char> {
    let t = trim_end_slashes(uri);
    let k = crate::text::last_index_of(t, '/');
    if k <= 0 {
        seq!['/']
    } else {
        t.subrange(0, k)
    }
}

/// The `..` row: absent at the mount root, and absent when the parent
/// would leave the mount.
pub open spec fn parent_row(prefix: Seq<char>, uri: Seq<char>) -> Seq<char> {
    let m = mount_root(prefix);
    let n = trim_end_slashes(uri);
    if n == m || n.len() == 0 {
        Seq::empty()
    } else {
        let p = parent_of(uri);
        let pn = trim_end_slashes(p);
        if prefix == seq!['/'] || starts_with(pn, m) || pn == m {
            "<tr class=\"parent-row\"><td colspan=\"3\">"@ + FOLDER_ICON@ + "<a href=\""@
                + escape_html(p) + (if p != seq!['/'] {
                "/"@
            } else {
                Seq::empty()
            }) + "\">..</a></td></tr>\n"@
        } else {
            Seq::empty()
        }
    }
}

fn render_parent_link(route_prefix: &str, uri_path: &str, body: &mut Vec<char>)
    ensures
        final(body)@ == old(body)@ + parent_row(route_prefix@, uri_path@),
{
    let p = chars_of(route_prefix);
    let u = chars_of(uri_path);
    let root: Vec<char> = vec!['/'];
    assert(root@ =~= seq!['/']);
    let prefix_is_root = chars_equal(&p, &root);
    let m = if prefix_is_root {
        vec!['/']
    } else {
        trim_end_slashes_exec(&p)
    };
    assert(m@ =~= mount_root(route_prefix@));
    let n = trim_end_slashes_exec(&u);
    if chars_equal(&n, &m) || n.len() == 0 {
        assert(old(body)@ + Seq::<char>::empty() =~= old(body)@);
        return;
    }
    let parent = match crate::text::rfind(&n, '/') {
        Some(k) => if k == 0 {
            vec!['/']
        } else {
            slice_chars(&n, 0, k)
        },
        None => vec!['/'],
    };
    assert(parent@ =~= parent_of(uri_path@));
    let pn = trim_end_slashes_exec(&parent);
    if prefix_is_root || starts_with_exec(&pn, &m) || chars_equal(&pn, &m) {
        push_str(body, "<tr class=\"parent-row\"><td colspan=\"3\">");
        push_str(body, FOLDER_ICON);
        push_str(body, "<a href=\"");
        let ps = string_of(&parent);
        push_escaped(body, ps.as_str());
        if !chars_equal(&parent, &root) {
            push_str(body, "/");
        }
        push_str(body, "\">..</a></td></tr>\n");
        assert(final(body)@ =~= old(body)@ + parent_row(route_prefix@, uri_path@));
    } else {
        assert(old(body)@ + Seq::<char>::empty() =~= old(body)@);
    }
}

/// Links in a listing extend the listed path, which gets a trailing slash.
pub open spec fn listing_base(uri: Seq<char>) -> Seq<char> {
    if uri.len() > 0 && uri.last() == '/' {
        uri
    } else {
        uri + "/"@
    }
}

/// The opening of a row: its data attributes and the icon.
pub open spec fn row_head(e: DirEntry) -> Seq<char> {
    "<tr data-name=\""@ + escape_html(e.name@) + "\" data-dir=\""@ + (if e.is_dir {
        "1"@
    } else {
        "0"@
    }) + "\" data-size=\""@ + decimal(e.size as nat) + "\" data-ts=\""@ + decimal(
        e.modified as nat,
    ) + "\"><td>"@ + (if e.is_dir {
        FOLDER_ICON@
    } else {
        FILE_ICON@
    })
}

/// The link to an entry, directories with a trailing slash.
pub open spec fn row_link(e: DirEntry, base: Seq<char>) -> Seq<char> {
    let trailing = if e.is_dir {
        "/"@
    } else {
        Seq::empty()
    };
    "<a href=\""@ + escape_html(base) + encode_segment(encode_utf8(e.name@)) + trailing + "\">"@
        + escape_html(e.name@) + trailing + "</a></td>"@
}

/// The size and modification cells that close a row.
pub open spec fn row_tail(e: DirEntry) -> Seq<char> {
    "<td class=\"size\">"@ + (if e.is_dir {
        "\u{2014}"@
    } else {
        size_text(e.size as nat)
    }) + "</td><td class=\"modified\" data-ts=\""@ + decimal(e.modified as nat)
        + "\"></td></tr>\n"@
}

/// One table row: the data attributes, the icon, the link, the size and
/// the modification time.
pub open spec fn entry_row(e: DirEntry, base: Seq<char>) -> Seq<char> {
    row_head(e) + row_link(e, base) + row_tail(e)
}

pub open spec fn entry_rows(es: Seq<DirEntry>, base: Seq<char>) -> Seq<char>
    decreases es.len(),
{
    if es.len() == 0 {
        Seq::empty()
    } else {
        entry_rows(es.drop_last(), base) + entry_row(es.last(), base)
    }
}

pub const EMPTY_DIR_ROW: &'static str = "<tr><td colspan=\"3\" class=\"empty-dir\">This directory is empty</td></tr>\n";

/// The rows of a listing: a notice when the directory is empty, then one
/// row per entry.
pub open spec fn listing_rows(uri: Seq<char>, es: Seq<DirEntry>) -> Seq<char> {
    (if es.len() == 0 {
        EMPTY_DIR_ROW@
    } else {
        Seq::empty()
    }) + entry_rows(es, listing_base(uri))
}

fn push_row_head(body: &mut Vec<char>, e: &DirEntry)
    ensures
        final(body)@ == old(body)@ + row_head(*e),
{
    push_str(body, "<tr data-name=\"");
    push_escaped(body, e.name.as_str());
    push_str(body, "\" data-dir=\"");
    if e.is_dir {
        push_str(body, "1");
    } else {
        push_str(body, "0");
    }
    push_str(body, "\" data-size=\"");
    push_decimal(body, e.size);
    push_str(body, "\" data-ts=\"");
    push_decimal(body, e.modified);
    push_str(body, "\"><td>");
    if e.is_dir {
        push_str(body, FOLDER_ICON);
    } else {
        push_str(body, FILE_ICON);
    }
    assert(final(body)@ =~= old(body)@ + row_head(*e));
}

fn push_row_link(body: &mut Vec<char>, e: &DirEntry, base: &Vec<char>)
    ensures
        final(body)@ == old(body)@ + row_link(*e, base@),
{
    let bs = string_of(base);
    push_str(body, "<a href=\"");
    push_escaped(body, bs.as_str());
    let enc = encode_path_segment(e.name.as_str());
    push_str(body, enc.as_str());
    if e.is_dir {
        push_str(body, "/");
    }
    push_str(body, "\">");
    push_escaped(body, e.name.as_str());
    if e.is_dir {
        push_str(body, "/");
    }
    push_str(body, "</a></td>");
    assert(final(body)@ =~= old(body)@ + row_link(*e, base@));
}

fn push_row_tail(body: &mut Vec<char>, e: &DirEntry)
    ensures
        final(body)@ == old(body)@ + row_tail(*e),
{
    push_str(body, "<td class=\"size\">");
    if e.is_dir {
        push_str(body, "\u{2014}");
    } else {
        let sz = format_size(e.size);
        push_str(body, sz.as_str());
    }
    push_str(body, "</td><td class=\"modified\" data-ts=\"");
    push_decimal(body, e.modified);
    push_str(body, "\"></td></tr>\n");
    assert(final(body)@ =~= old(body)@ + row_tail(*e));
}

fn push_entry_row(body: &mut Vec<char>, e: &DirEntry, base: &Vec<char>)
    ensures
        final(body)@ == old(body)@ + entry_row(*e, base@),
{
    push_row_head(body, e);
    push_row_link(body, e, base);
    push_row_tail(body, e);
    assert(final(body)@ =~= old(body)@ + entry_row(*e, base@));
}

fn render_entries(uri_path: &str, entries: &[DirEntry], body: &mut Vec<char>)
    ensures
        final(body)@ == old(body)@ + listing_rows(uri_path@, entries@),
{
    let u = chars_of(uri_path);
    let mut base = u;
    if !(base.len() > 0 && base[base.len() - 1] == '/') {
        push_str(&mut base, "/");
    }
    assert(base@ == listing_base(uri_path@));
    if entries.len() == 0 {
        push_str(body, EMPTY_DIR_ROW);
    }
    let ghost head = body@;
    assert(head =~= old(body)@ + (if entries@.len() == 0 {
        EMPTY_DIR_ROW@
    } else {
        Seq::empty()
    }));
    let mut i: usize = 0;
    while i < entries.len()
        invariant
            i <= entries@.len(),
            body@ == head + entry_rows(entries@.subrange(0, i as int), base@),
        decreases entries@.len() - i,
    {
        assert(entries@.subrange(0, i + 1).drop_last() =~= entries@.subrange(0, i as int));
        push_entry_row(body, &entries[i], &base);
        i = i + 1;
        assert(body@ =~= head + entry_rows(entries@.subrange(0, i as int), base@));
    }
    assert(entries@.subrange(0, i as int) =~= entries@);
    assert(body@ =~= old(body)@ + listing_rows(uri_path@, entries@));
}

pub const NAME_HEADER: &'static str = "<th onclick=\"sort(0)\">Name <span class=\"si active\" id=\"s0\">\u{25B2}</span></th>";

pub const SIZE_HEADER: &'static str = "<th onclick=\"sort(1)\" class=\"col-size\">Size <span class=\"si\" id=\"s1\"></span></th>";

pub const MODIFIED_HEADER: &'static str = "<th onclick=\"sort(2)\" class=\"col-mod\">Modified <span class=\"si\" id=\"s2\"></span></th>";

/// The body of a listing page.
pub open spec fn listing_body(prefix: Seq<char>, uri: Seq<char>, es: Seq<DirEntry>) -> Seq<char> {
    "<h1 class=\"page-title\">Index of <code>"@ + escape_html(uri) + "</code></h1>\n"@
        + "<nav class=\"breadcrumb\">"@ + breadcrumb(prefix, uri) + "</nav>\n"@
        + "<div class=\"file-card\">\n"@ + "<table id=\"listing\">\n<thead><tr>"@ + NAME_HEADER@
        + SIZE_HEADER@ + MODIFIED_HEADER@ + "</tr></thead>\n<tbody>\n"@ + parent_row(prefix, uri)
        + listing_rows(uri, es) + "</tbody>\n</table>\n</div>"@
}

/// The themed listing page for the directory at `uri_path`, mounted at
/// `route_prefix`.
pub fn render_directory_listing(route_prefix: &str, uri_path: &str, entries: &[DirEntry]) -> (r:
    String)
    ensures
        r@ == page(
            "Index of "@ + uri_path@,
            listing_body(route_prefix@, uri_path@, entries@),
            FILEBROWSER_CSS@,
            FILEBROWSER_JS@,
        ),
{
    let breadcrumb = build_breadcrumb(route_prefix, uri_path);
    let mut body: Vec<char> = Vec::new();
    push_str(&mut body, "<h1 class=\"page-title\">Index of <code>");
    push_escaped(&mut body, uri_path);
    push_str(&mut body, "</code></h1>\n");
    push_str(&mut body, "<nav class=\"breadcrumb\">");
    push_str(&mut body, breadcrumb.as_str());
    push_str(&mut body, "</nav>\n");
    push_str(&mut body, "<div class=\"file-card\">\n");
    push_str(&mut body, "<table id=\"listing\">\n<thead><tr>");
    push_str(&mut body, NAME_HEADER);
    push_str(&mut body, SIZE_HEADER);
    push_str(&mut body, MODIFIED_HEADER);
    push_str(&mut body, "</tr></thead>\n<tbody>\n");
    render_parent_link(route_prefix, uri_path, &mut body);
    render_entries(uri_path, entries, &mut body);
    push_str(&mut body, "</tbody>\n</table>\n</div>");
    assert(body@ =~= listing_body(route_prefix@, uri_path@, entries@));
    let mut title = chars_of("Index of ");
    push_str(&mut title, uri_path);
    let t = string_of(&title);
    let b = string_of(&body);
    render_page(t.as_str(), b.as_str(), FILEBROWSER_CSS, FILEBROWSER_JS)
}

} // verus!

verus! {

broadcast use vstd::seq_lib::group_to_multiset_ensures;

/// Code-point lexicographic order, which is how strings compare.
pub open spec fn lex_lt(a: Seq<char>, b: Seq<char>) -> bool
    decreases a.len(),
{
    if a.len() == 0 {
        b.len() > 0
    } else if b.len() == 0 {
        false
    } else if a[0] != b[0] {
        a[0] < b[0]
    } else {
        lex_lt(a.drop_first(), b.drop_first())
    }
}

proof fn lemma_lex_asymmetric(a: Seq<char>, b: Seq<char>)
    ensures
        !(lex_lt(a, b) && lex_lt(b, a)),
    decreases a.len(),
{
    if a.len() > 0 && b.len() > 0 && a[0] == b[0] {
        lemma_lex_asymmetric(a.drop_first(), b.drop_first());
    }
}

proof fn lemma_lex_transitive(a: Seq<char>, b: Seq<char>, c: Seq<char>)
    requires
        lex_lt(a, b),
        lex_lt(b, c),
    ensures
        lex_lt(a, c),
    decreases a.len(),
{
    if a.len() > 0 && b.len() > 0 && c.len() > 0 && a[0] == b[0] && b[0] == c[0] {
        lemma_lex_transitive(a.drop_first(), b.drop_first(), c.drop_first());
    }
}

fn lex_lt_exec(a: &Vec<char>, b: &Vec<char>) -> (r: bool)
    ensures
        r == lex_lt(a@, b@),
{
    let mut i: usize = 0;
    assert(a@.subrange(0, a@.len() as int) =~= a@);
    assert(b@.subrange(0, b@.len() as int) =~= b@);
    while i < a.len() && i < b.len() && a[i] == b[i]
        invariant
            i <= a@.len() && i <= b@.len(),
            lex_lt(a@, b@) == lex_lt(
                a@.subrange(i as int, a@.len() as int),
                b@.subrange(i as int, b@.len() as int),
            ),
        decreases a@.len() - i,
    {
        assert(a@.subrange(i as int, a@.len() as int).drop_first() =~= a@.subrange(
            i + 1,
            a@.len() as int,
        ));
        assert(b@.subrange(i as int, b@.len() as int).drop_first() =~= b@.subrange(
            i + 1,
            b@.len() as int,
        ));
        i = i + 1;
    }
    if i == a.len() {
        i < b.len()
    } else if i == b.len() {
        false
    } else {
        a[i] < b[i]
    }
}

/// `a` is listed before `b`: directories first, then by lowercased name.
pub open spec fn listed_before(a: DirEntry, b: DirEntry) -> bool {
    (a.is_dir && !b.is_dir) || (a.is_dir == b.is_dir && lex_lt(lower_of(a.name@), lower_of(b.name@)))
}

/// No entry is listed after one it should precede.
pub open spec fn listing_sorted(s: Seq<DirEntry>) -> bool {
    forall|i: int, j: int| 0 <= i < j < s.len() ==> !listed_before(#[trigger] s[j], #[trigger] s[i])
}

fn listed_before_exec(a: &DirEntry, b: &DirEntry) -> (r: bool)
    ensures
        r == listed_before(*a, *b),
{
    if a.is_dir != b.is_dir {
        return a.is_dir;
    }
    let la = chars_of(lowercase(a.name.as_str()).as_str());
    let lb = chars_of(lowercase(b.name.as_str()).as_str());
    lex_lt_exec(&la, &lb)
}

/// Orders directory entries for display, keeping the given order among
/// entries that compare equal.
pub fn sort_entries(entries: Vec<DirEntry>) -> (r: Vec<DirEntry>)
    ensures
        listing_sorted(r@),
        r@.to_multiset() == entries@.to_multiset(),
{
    let ghost orig = entries@;
    let mut rest = entries;
    let mut out: Vec<DirEntry> = Vec::new();
    let ghost mut taken: int = 0;
    while rest.len() > 0
        invariant
            0 <= taken <= orig.len(),
            rest@ == orig.subrange(taken, orig.len() as int),
            out@.to_multiset() == orig.subrange(0, taken).to_multiset(),
            listing_sorted(out@),
        decreases rest@.len(),
    {
        let x = rest.remove(0);
        assert(orig.subrange(0, taken + 1) =~= orig.subrange(0, taken).push(x));
        let mut p: usize = 0;
        while p < out.len() && !listed_before_exec(&x, &out[p])
            invariant
                p <= out@.len(),
                forall|k: int| 0 <= k < p ==> !listed_before(x, #[trigger] out@[k]),
            decreases out@.len() - p,
        {
            p = p + 1;
        }
        let ghost before = out@;
        out.insert(p, x);
        proof {
            assert(out@ == before.insert(p as int, x));
            assert forall|i: int, j: int|
                0 <= i < j < out@.len() implies !listed_before(
                #[trigger] out@[j],
                #[trigger] out@[i],
            ) by {
                if j == p {
                    assert(out@[i] == before[i]);
                } else if i == p {
                    let y = before[j - 1];
                    let z = before[p as int];
                    assert(out@[j] == y);
                    lemma_lex_asymmetric(lower_of(x.name@), lower_of(z.name@));
                    if j - 1 > p {
                        assert(!listed_before(y, z));
                        if listed_before(y, x) {
                            if y.is_dir == x.is_dir && x.is_dir == z.is_dir {
                                lemma_lex_transitive(
                                    lower_of(y.name@),
                                    lower_of(x.name@),
                                    lower_of(z.name@),
                                );
                            }
                        }
                    } else {
                        if listed_before(z, x) && x.is_dir == z.is_dir {
                            lemma_lex_asymmetric(lower_of(x.name@), lower_of(z.name@));
                        }
                    }
                } else if i < p && j < p {
                    assert(out@[i] == before[i] && out@[j] == before[j]);
                } else if i < p {
                    assert(out@[i] == before[i] && out@[j] == before[j - 1]);
                } else {
                    assert(out@[i] == before[i - 1] && out@[j] == before[j - 1]);
                }
            }
            taken = taken + 1;
            assert(rest@ =~= orig.subrange(taken, orig.len() as int));
        }
    }
    assert(orig.subrange(0, taken) =~= orig);
    out
}

} // verus!
