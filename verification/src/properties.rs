//! The Properties page: session history and downloads as an HTML page, served
//! as a `data:` URL.

use vstd::prelude::*;
use vstd::utf8::encode_utf8;
use crate::text::chars_of;
use crate::address::{path_string_to_file_url, spec_path_string_to_file_url};
use crate::browser::{
    DownloadEntry, DownloadView, HistoryEntry, HistoryView, downloads_view, history_view,
    status_label, status_text,
};

verus! {

/// The most rows each table of the page shows.
pub const PROPERTIES_MAX_ROWS: usize = 120;

// ---------- Escaping ------------------------------------------------------

pub open spec fn html_escape_char(c: char) -> Seq<char> {
    if c == '&' {
        "&amp;"@
    } else if c == '<' {
        "&lt;"@
    } else if c == '>' {
        "&gt;"@
    } else if c == '"' {
        "&quot;"@
    } else if c == '\'' {
        "&#39;"@
    } else {
        seq![c]
    }
}

pub open spec fn html_escape(s: Seq<char>) -> Seq<char>
    decreases s.len(),
{
    if s.len() == 0 {
        seq![]
    } else {
        html_escape(s.drop_last()) + html_escape_char(s.last())
    }
}

/// Appends `s` with `& < > " '` written as character references.
pub fn push_escaped(out: &mut String, s: &str)
    ensures
        final(out)@ == old(out)@ + html_escape(s@),
{
    let v = chars_of(s);
    let mut i: usize = 0;
    while i < v.len()
        invariant
            i <= v.len(),
            v@ == s@,
            out@ == old(out)@ + html_escape(v@.subrange(0, i as int)),
        decreases v.len() - i,
    {
        let c = v[i];
        if c == '&' {
            out.append("&amp;");
        } else if c == '<' {
            out.append("&lt;");
        } else if c == '>' {
            out.append("&gt;");
        } else if c == '"' {
            out.append("&quot;");
        } else if c == '\'' {
            out.append("&#39;");
        } else {
            crate::text::push_char(out, c);
        }
        assert(v@.subrange(0, i + 1).drop_last() =~= v@.subrange(0, i as int));
        assert(out@ =~= old(out)@ + html_escape(v@.subrange(0, i + 1)));
        i = i + 1;
    }
    assert(v@.subrange(0, v.len() as int) =~= v@);
}

/// `s` with `& < > " '` written as character references, so that it can stand
/// in HTML text and in attribute values.
pub fn escape_html(input: &str) -> (r: String)
    ensures
        r@ == html_escape(input@),
{
    let mut out = String::new();
    push_escaped(&mut out, input);
    assert(Seq::<char>::empty() + html_escape(input@) =~= html_escape(input@));
    out
}

/// Escaped text holds none of the characters that HTML gives a meaning.
pub proof fn lemma_html_escape_is_inert(s: Seq<char>)
    ensures
        !html_escape(s).contains('<'),
        !html_escape(s).contains('>'),
        !html_escape(s).contains('"'),
        !html_escape(s).contains('\''),
    decreases s.len(),
{
    reveal_strlit("&amp;");
    reveal_strlit("&lt;");
    reveal_strlit("&gt;");
    reveal_strlit("&quot;");
    reveal_strlit("&#39;");
    if s.len() > 0 {
        lemma_html_escape_is_inert(s.drop_last());
        let a = html_escape(s.drop_last());
        let b = html_escape_char(s.last());
        assert forall|c: char| c == '<' || c == '>' || c == '"' || c == '\'' implies !(a
            + b).contains(c) by {
            if (a + b).contains(c) {
                let k = choose|k: int| 0 <= k < (a + b).len() && (a + b)[k] == c;
                if k < a.len() {
                    assert(a[k] == c);
                } else {
                    assert(b[k - a.len()] == c);
                }
            }
        }
    }
}

// ---------- The page ------------------------------------------------------

/// The newest `limit` items of `s`, newest first.
pub open spec fn newest_first<A>(s: Seq<A>, limit: nat) -> Seq<A> {
    let n = if s.len() < limit {
        s.len()
    } else {
        limit
    };
    Seq::new(n, |i: int| s[s.len() - 1 - i])
}

pub open spec fn history_row(e: HistoryView) -> Seq<char> {
    "<tr><td>"@ + html_escape(e.visited_at) + "</td><td><a href=\""@ + html_escape(e.url)
        + "\">"@ + html_escape(e.title) + "</a></td><td>"@ + html_escape(e.url) + "</td></tr>"@
}

pub open spec fn download_row(d: DownloadView) -> Seq<char> {
    "<tr><td>"@ + html_escape(d.updated_at) + "</td><td>"@ + html_escape(status_text(d.status))
        + "</td><td><a href=\""@ + html_escape(spec_path_string_to_file_url(d.file_path))
        + "\">"@ + html_escape(d.file_path) + "</a></td><td>"@ + html_escape(d.url)
        + "</td></tr>"@
}

pub open spec fn history_rows_of(es: Seq<HistoryView>) -> Seq<char>
    decreases es.len(),
{
    if es.len() == 0 {
        seq![]
    } else {
        history_rows_of(es.drop_last()) + history_row(es.last())
    }
}

pub open spec fn download_rows_of(ds: Seq<DownloadView>) -> Seq<char>
    decreases ds.len(),
{
    if ds.len() == 0 {
        seq![]
    } else {
        download_rows_of(ds.drop_last()) + download_row(ds.last())
    }
}

pub open spec fn history_rows(h: Seq<HistoryView>) -> Seq<char> {
    if h.len() == 0 {
        "<tr><td colspan=\"3\">No history yet.</td></tr>"@
    } else {
        history_rows_of(newest_first(h, PROPERTIES_MAX_ROWS as nat))
    }
}

pub open spec fn download_rows(d: Seq<DownloadView>) -> Seq<char> {
    if d.len() == 0 {
        "<tr><td colspan=\"4\">No downloads yet.</td></tr>"@
    } else {
        download_rows_of(newest_first(d, PROPERTIES_MAX_ROWS as nat))
    }
}

pub open spec fn rows_note(n: nat) -> Seq<char> {
    if n > PROPERTIES_MAX_ROWS {
        "Showing latest 120 entries."@
    } else {
        "Showing all entries."@
    }
}

pub open spec fn page_head() -> Seq<char> {
    "<!doctype html><html><head><meta charset=\"utf-8\"><title>RustyWolf Properties</title><style>body{font-family:-apple-system,BlinkMacSystemFont,'Segoe UI',sans-serif;background:#141418;color:#e9e9ee;margin:0;padding:20px}h1{font-size:24px;margin:0 0 14px} h2{font-size:17px;margin:20px 0 8px}table{width:100%;border-collapse:collapse;background:#1c1c22;border:1px solid rgba(255,255,255,.12);border-radius:0;overflow:hidden}th,td{padding:8px 10px;border-bottom:1px solid rgba(255,255,255,.08);font-size:13px;text-align:left;vertical-align:top}th{background:#23232b;color:#f4f4f8} tr:last-child td{border-bottom:none}a{color:#8ab4ff;text-decoration:none} a:hover{text-decoration:underline} .muted{opacity:.75;font-size:12px}</style></head><body><h1>Browser Properties</h1><p class=\"muted\">Session history and download activity.</p><h2>Browsing History</h2><p class=\"muted\">"@
}

pub open spec fn history_table_head() -> Seq<char> {
    "</p><table><thead><tr><th>Visited</th><th>Title</th><th>URL</th></tr></thead><tbody>"@
}

pub open spec fn downloads_section_head() -> Seq<char> {
    "</tbody></table><h2>Download History</h2><p class=\"muted\">"@
}

pub open spec fn downloads_table_head() -> Seq<char> {
    "</p><table><thead><tr><th>Updated</th><th>Status</th><th>Saved To</th><th>Source URL</th></tr></thead><tbody>"@
}

pub open spec fn page_tail() -> Seq<char> {
    "</tbody></table></body></html>"@
}

/// The Properties page for a session's history and downloads.
pub open spec fn properties_html(h: Seq<HistoryView>, d: Seq<DownloadView>) -> Seq<char> {
    page_head() + rows_note(h.len()) + history_table_head() + history_rows(h)
        + downloads_section_head() + rows_note(d.len()) + downloads_table_head() + download_rows(d)
        + page_tail()
}

fn push_note(out: &mut String, n: usize)
    ensures
        final(out)@ == old(out)@ + rows_note(n as nat),
{
    if n > PROPERTIES_MAX_ROWS {
        out.append("Showing latest 120 entries.");
    } else {
        out.append("Showing all entries.");
    }
}

fn push_history_row(out: &mut String, e: &HistoryEntry)
    ensures
        final(out)@ == old(out)@ + history_row(e@),
{
    out.append("<tr><td>");
    push_escaped(out, e.visited_at.as_str());
    out.append("</td><td><a href=\"");
    push_escaped(out, e.url.as_str());
    out.append("\">");
    push_escaped(out, e.title.as_str());
    out.append("</a></td><td>");
    push_escaped(out, e.url.as_str());
    out.append("</td></tr>");
    assert(out@ =~= old(out)@ + history_row(e@));
}

fn push_download_row(out: &mut String, e: &DownloadEntry)
    ensures
        final(out)@ == old(out)@ + download_row(e@),
{
    let file_url = path_string_to_file_url(e.file_path.as_str());
    out.append("<tr><td>");
    push_escaped(out, e.updated_at.as_str());
    out.append("</td><td>");
    push_escaped(out, status_label(e.status));
    out.append("</td><td><a href=\"");
    push_escaped(out, file_url.as_str());
    out.append("\">");
    push_escaped(out, e.file_path.as_str());
    out.append("</a></td><td>");
    push_escaped(out, e.url.as_str());
    out.append("</td></tr>");
    assert(out@ =~= old(out)@ + download_row(e@));
}

fn push_history_rows(out: &mut String, h: &Vec<HistoryEntry>)
    ensures
        final(out)@ == old(out)@ + history_rows(history_view(h@)),
{
    let ghost hv = history_view(h@);
    if h.len() == 0 {
        out.append("<tr><td colspan=\"3\">No history yet.</td></tr>");
        return;
    }
    let n = if h.len() < PROPERTIES_MAX_ROWS {
        h.len()
    } else {
        PROPERTIES_MAX_ROWS
    };
    let ghost chosen = newest_first(hv, PROPERTIES_MAX_ROWS as nat);
    let mut j: usize = 0;
    while j < n
        invariant
            j <= n,
            n == chosen.len(),
            n <= h.len(),
            hv == history_view(h@),
            chosen == newest_first(hv, PROPERTIES_MAX_ROWS as nat),
            out@ == old(out)@ + history_rows_of(chosen.subrange(0, j as int)),
        decreases n - j,
    {
        let e = &h[h.len() - 1 - j];
        assert(chosen[j as int] == e@);
        push_history_row(out, e);
        assert(chosen.subrange(0, j + 1).drop_last() =~= chosen.subrange(0, j as int));
        assert(out@ =~= old(out)@ + history_rows_of(chosen.subrange(0, j + 1)));
        j = j + 1;
    }
    assert(chosen.subrange(0, n as int) =~= chosen);
}

fn push_download_rows(out: &mut String, d: &Vec<DownloadEntry>)
    ensures
        final(out)@ == old(out)@ + download_rows(downloads_view(d@)),
{
    let ghost dv = downloads_view(d@);
    if d.len() == 0 {
        out.append("<tr><td colspan=\"4\">No downloads yet.</td></tr>");
        return;
    }
    let n = if d.len() < PROPERTIES_MAX_ROWS {
        d.len()
    } else {
        PROPERTIES_MAX_ROWS
    };
    let ghost chosen = newest_first(dv, PROPERTIES_MAX_ROWS as nat);
    let mut j: usize = 0;
    while j < n
        invariant
            j <= n,
            n == chosen.len(),
            n <= d.len(),
            dv == downloads_view(d@),
            chosen == newest_first(dv, PROPERTIES_MAX_ROWS as nat),
            out@ == old(out)@ + download_rows_of(chosen.subrange(0, j as int)),
        decreases n - j,
    {
        let e = &d[d.len() - 1 - j];
        assert(chosen[j as int] == e@);
        push_download_row(out, e);
        assert(chosen.subrange(0, j + 1).drop_last() =~= chosen.subrange(0, j as int));
        assert(out@ =~= old(out)@ + download_rows_of(chosen.subrange(0, j + 1)));
        j = j + 1;
    }
    assert(chosen.subrange(0, n as int) =~= chosen);
}

/// Renders the Properties page: the newest 120 visits and the newest 120
/// downloads, each table noting whether it shows everything.
pub fn render_properties_html(h: &Vec<HistoryEntry>, d: &Vec<DownloadEntry>) -> (r: String)
    ensures
        r@ == properties_html(history_view(h@), downloads_view(d@)),
{
    let mut out = String::from_str(
        "<!doctype html><html><head><meta charset=\"utf-8\"><title>RustyWolf Properties</title><style>body{font-family:-apple-system,BlinkMacSystemFont,'Segoe UI',sans-serif;background:#141418;color:#e9e9ee;margin:0;padding:20px}h1{font-size:24px;margin:0 0 14px} h2{font-size:17px;margin:20px 0 8px}table{width:100%;border-collapse:collapse;background:#1c1c22;border:1px solid rgba(255,255,255,.12);border-radius:0;overflow:hidden}th,td{padding:8px 10px;border-bottom:1px solid rgba(255,255,255,.08);font-size:13px;text-align:left;vertical-align:top}th{background:#23232b;color:#f4f4f8} tr:last-child td{border-bottom:none}a{color:#8ab4ff;text-decoration:none} a:hover{text-decoration:underline} .muted{opacity:.75;font-size:12px}</style></head><body><h1>Browser Properties</h1><p class=\"muted\">Session history and download activity.</p><h2>Browsing History</h2><p class=\"muted\">",
    );
    push_note(&mut out, h.len());
    out.append(
        "</p><table><thead><tr><th>Visited</th><th>Title</th><th>URL</th></tr></thead><tbody>",
    );
    push_history_rows(&mut out, h);
    out.append("</tbody></table><h2>Download History</h2><p class=\"muted\">");
    push_note(&mut out, d.len());
    out.append(
        "</p><table><thead><tr><th>Updated</th><th>Status</th><th>Saved To</th><th>Source URL</th></tr></thead><tbody>",
    );
    push_download_rows(&mut out, d);
    out.append("</tbody></table></body></html>");
    assert(out@ =~= properties_html(history_view(h@), downloads_view(d@)));
    out
}

// ---------- base64 and the data URL ---------------------------------------

/// A digit of the standard base64 alphabet (`A-Z a-z 0-9 + /`).
pub open spec fn base64_digit(v: nat) -> char
    recommends
        v < 64,
{
    if v < 26 {
        (('A' as u8) + v) as u8 as char
    } else if v < 52 {
        (('a' as u8) + (v - 26)) as u8 as char
    } else if v < 62 {
        (('0' as u8) + (v - 52)) as u8 as char
    } else if v == 62 {
        '+'
    } else {
        '/'
    }
}

/// Standard base64 with `=` padding.
pub open spec fn base64_standard(b: Seq<u8>) -> Seq<char>
    decreases b.len(),
{
    if b.len() == 0 {
        seq![]
    } else if b.len() == 1 {
        seq![
            base64_digit((b[0] as nat) / 4),
            base64_digit(((b[0] as nat) % 4) * 16),
            '=',
            '=',
        ]
    } else if b.len() == 2 {
        seq![
            base64_digit((b[0] as nat) / 4),
            base64_digit(((b[0] as nat) % 4) * 16 + (b[1] as nat) / 16),
            base64_digit(((b[1] as nat) % 16) * 4),
            '=',
        ]
    } else {
        seq![
            base64_digit((b[0] as nat) / 4),
            base64_digit(((b[0] as nat) % 4) * 16 + (b[1] as nat) / 16),
            base64_digit(((b[1] as nat) % 16) * 4 + (b[2] as nat) / 64),
            base64_digit((b[2] as nat) % 64),
        ] + base64_standard(b.skip(3))
    }
}

/// `base64::engine::general_purpose::STANDARD.encode(bytes)`: the standard
/// alphabet with `=` padding, as RFC 4648 defines it and as the engine is
/// configured.
#[verifier::external_body]
fn base64_encode(bytes: &[u8]) -> (r: String)
    ensures
        r@ == base64_standard(bytes@),
{
    base64::Engine::encode(&base64::engine::general_purpose::STANDARD, bytes)
}

pub open spec fn spec_properties_data_url(h: Seq<HistoryView>, d: Seq<DownloadView>) -> Seq<char> {
    "data:text/html;base64,"@ + base64_standard(encode_utf8(properties_html(h, d)))
}

/// The Properties page as a `data:` URL that a tab can open.
pub fn properties_data_url(h: &Vec<HistoryEntry>, d: &Vec<DownloadEntry>) -> (r: String)
    ensures
        r@ == spec_properties_data_url(history_view(h@), downloads_view(d@)),
{
    let html = render_properties_html(h, d);
    let encoded = base64_encode(html.as_str().as_bytes());
    let mut out = String::from_str("data:text/html;base64,");
    out.append(encoded.as_str());
    out
}

} // verus!
