//! What the URL bar and the popup gate make of what the user or a page asks for,
//! and how a download is named.

use vstd::prelude::*;
use vstd::utf8::encode_utf8;
use crate::text::{
    ascii_lower_seq, ascii_lowercase, chars_eq, chars_of, contains_char, ends_with, ends_with_chars,
    is_control, is_control_char, opt_chars, starts_with, starts_with_chars, string_of_range, trim,
    trim_char, trim_char_bounds, trimmed,
};

verus! {

// ---------- application/x-www-form-urlencoded ----------------------------

/// Bytes that `form_urlencoded::byte_serialize` passes through unchanged.
pub open spec fn urlencode_unchanged(b: u8) -> bool {
    ||| b == 42  // '*'
    ||| b == 45  // '-'
    ||| b == 46  // '.'
    ||| (48 <= b && b <= 57)  // '0'..='9'
    ||| (65 <= b && b <= 90)  // 'A'..='Z'
    ||| b == 95  // '_'
    ||| (97 <= b && b <= 122)  // 'a'..='z'
}

/// An upper-case hexadecimal digit.
pub open spec fn hex_upper(d: nat) -> char
    recommends
        d < 16,
{
    if d < 10 {
        (('0' as u8) + d) as u8 as char
    } else {
        (('A' as u8) + (d - 10)) as u8 as char
    }
}

/// How `form_urlencoded::byte_serialize` writes one byte.
pub open spec fn urlencode_byte(b: u8) -> Seq<char> {
    if urlencode_unchanged(b) {
        seq![b as char]
    } else if b == 32 {
        seq!['+']
    } else {
        seq!['%', hex_upper((b / 16) as nat), hex_upper((b % 16) as nat)]
    }
}

/// The `application/x-www-form-urlencoded` byte serialization of `bytes`.
pub open spec fn form_urlencoded(bytes: Seq<u8>) -> Seq<char>
    decreases bytes.len(),
{
    if bytes.len() == 0 {
        seq![]
    } else {
        urlencode_byte(bytes[0]) + form_urlencoded(bytes.drop_first())
    }
}

/// `url::form_urlencoded::byte_serialize` over the UTF-8 bytes of `s`, collected
/// into a `String`. The contract restates the crate's source: bytes in
/// `*-.0-9A-Z_a-z` pass through, a space becomes `+`, every other byte becomes
/// `%XX` with upper-case hexadecimal digits.
#[verifier::external_body]
fn form_urlencode(s: &str) -> (r: String)
    ensures
        r@ == form_urlencoded(encode_utf8(s@)),
{
    url::form_urlencoded::byte_serialize(s.as_bytes()).collect()
}

// ---------- Parsed URLs --------------------------------------------------

/// What `url::Url::parse` makes of `input`: `None` where it refuses the input,
/// else the URL's scheme, host (`host_str`) and path (`path`).
pub uninterp spec fn url_parts_of(input: Seq<char>) -> Option<(Seq<char>, Option<Seq<char>>, Seq<char>)>;

/// The parts of a parsed URL that this library reads.
pub struct UrlParts {
    pub scheme: String,
    pub host: Option<String>,
    pub path: String,
}

impl View for UrlParts {
    type V = (Seq<char>, Option<Seq<char>>, Seq<char>);

    open spec fn view(&self) -> (Seq<char>, Option<Seq<char>>, Seq<char>) {
        (self.scheme@, opt_chars(self.host), self.path@)
    }
}

pub open spec fn opt_parts_view(o: Option<UrlParts>) -> Option<(Seq<char>, Option<Seq<char>>, Seq<char>)> {
    match o {
        Some(p) => Some(p@),
        None => None,
    }
}

/// `url::Url::parse(input)`, with the scheme, host and path of a parsed URL
/// copied out. The contract only names the result (`url_parts_of`): the WHATWG
/// URL parser that computes it is not restated here.
#[verifier::external_body]
fn parse_url(input: &str) -> (r: Option<UrlParts>)
    ensures
        opt_parts_view(r) == url_parts_of(input@),
{
    url::Url::parse(input).ok().map(
        |u|
            UrlParts {
                scheme: u.scheme().to_string(),
                host: u.host_str().map(|h| h.to_string()),
                path: u.path().to_string(),
            },
    )
}

/// The host that `url::Url::parse` finds in `input`, or the empty string.
pub open spec fn spec_host_of(input: Seq<char>) -> Seq<char> {
    match url_parts_of(input) {
        Some((_, Some(h), _)) => h,
        _ => Seq::empty(),
    }
}

/// The host of the URL written in `input`, or `""` where there is none
/// (a refused URL, or one without a host).
pub fn host_of(input: &str) -> (r: String)
    ensures
        r@ == spec_host_of(input@),
{
    match parse_url(input) {
        Some(p) => match p.host {
            Some(h) => h,
            None => String::new(),
        },
        None => String::new(),
    }
}

/// What `url::Url::from_file_path` gives for `path`, serialized: `None` where it
/// refuses the path.
pub uninterp spec fn file_url_of(path: Seq<char>) -> Option<Seq<char>>;

/// `url::Url::from_file_path(Path::new(path))`, serialized with `to_string`.
/// The contract only names the result.
#[verifier::external_body]
fn file_url_from_path(path: &str) -> (r: Option<String>)
    ensures
        opt_chars(r) == file_url_of(path@),
{
    url::Url::from_file_path(std::path::Path::new(path)).ok().map(|u| u.to_string())
}

pub open spec fn spec_path_string_to_file_url(path: Seq<char>) -> Seq<char> {
    match file_url_of(path) {
        Some(u) => u,
        None => "file://"@ + path,
    }
}

/// A `file:` URL for a local path: the URL crate's, or `file://` and the path
/// as it stands where the crate refuses the path.
pub fn path_string_to_file_url(path: &str) -> (r: String)
    ensures
        r@ == spec_path_string_to_file_url(path@),
{
    match file_url_from_path(path) {
        Some(u) => u,
        None => {
            let mut s = String::from_str("file://");
            s.append(path);
            s
        },
    }
}

// ---------- The URL bar --------------------------------------------------

pub open spec fn spec_looks_like_address(v: Seq<char>) -> bool {
    ||| v.contains('.')
    ||| v.contains(':')
    ||| starts_with(v, "localhost"@)
    ||| starts_with(v, "127."@)
    ||| starts_with(v, "["@)
    ||| starts_with(v, "/"@)
}

/// Whether what was typed is an address rather than search terms: it holds a
/// dot or a colon, or starts like a local host, an IPv6 literal or a path.
pub fn looks_like_address(value: &str) -> (r: bool)
    ensures
        r == spec_looks_like_address(value@),
{
    let v = chars_of(value);
    contains_char(&v, '.') || contains_char(&v, ':') || starts_with_chars(
        &v,
        &chars_of("localhost"),
    ) || starts_with_chars(&v, &chars_of("127.")) || starts_with_chars(&v, &chars_of("["))
        || starts_with_chars(&v, &chars_of("/"))
}

pub open spec fn search_prefix() -> Seq<char> {
    "https://duckduckgo.com/?q="@
}

/// What the URL bar navigates to for `input`.
pub open spec fn spec_normalize_url(input: Seq<char>) -> Seq<char> {
    let t = trim(input);
    if t == "about:blank"@ {
        t
    } else if starts_with(t, "http://"@) || starts_with(t, "https://"@) {
        t
    } else if spec_looks_like_address(t) {
        "https://"@ + t
    } else {
        search_prefix() + form_urlencoded(encode_utf8(t))
    }
}

/// Turns what was typed into the URL bar into a URL: `about:blank` and
/// `http(s)://` URLs stay as they are (trimmed), addresses get `https://`, and
/// anything else becomes a DuckDuckGo search for the trimmed text.
pub fn normalize_url(input: &str) -> (r: String)
    ensures
        r@ == spec_normalize_url(input@),
{
    let trimmed = trimmed(input);
    let t = chars_of(trimmed.as_str());
    if chars_eq(&t, &chars_of("about:blank")) {
        return trimmed;
    }
    if starts_with_chars(&t, &chars_of("http://")) || starts_with_chars(&t, &chars_of("https://")) {
        return trimmed;
    }
    if looks_like_address(trimmed.as_str()) {
        let mut r = String::from_str("https://");
        r.append(trimmed.as_str());
        return r;
    }
    let encoded = form_urlencode(trimmed.as_str());
    let mut r = String::from_str("https://duckduckgo.com/?q=");
    r.append(encoded.as_str());
    r
}

// ---------- The popup gate -----------------------------------------------

pub open spec fn spec_is_blocked_popup_target(host: Seq<char>, path: Seq<char>) -> bool {
    let p = ascii_lower_seq(path);
    &&& (host == "duckduckgo.com"@ || ends_with(host, ".duckduckgo.com"@))
    &&& (p == "/post3.html"@ || p == "/page3"@ || p == "/page3.html"@)
}

/// Whether a parsed URL may become a new tab: only `http` and `https` URLs,
/// and not DuckDuckGo's internal popup pages.
pub open spec fn spec_allows_new_tab(parts: (Seq<char>, Option<Seq<char>>, Seq<char>)) -> bool {
    let (scheme, host, path) = parts;
    let h = match host {
        Some(h) => h,
        None => Seq::empty(),
    };
    (scheme == "http"@ || scheme == "https"@) && !spec_is_blocked_popup_target(h, path)
}

/// Decides on a parsed popup target: see `spec_allows_new_tab`.
pub fn allows_new_tab(parts: &UrlParts) -> (r: bool)
    ensures
        r == spec_allows_new_tab(parts@),
{
    let scheme = chars_of(parts.scheme.as_str());
    if !chars_eq(&scheme, &chars_of("http")) && !chars_eq(&scheme, &chars_of("https")) {
        return false;
    }
    let host = match &parts.host {
        Some(h) => chars_of(h.as_str()),
        None => Vec::new(),
    };
    let path = ascii_lowercase(&chars_of(parts.path.as_str()));
    let ddg_host = chars_eq(&host, &chars_of("duckduckgo.com")) || ends_with_chars(
        &host,
        &chars_of(".duckduckgo.com"),
    );
    let internal_path = chars_eq(&path, &chars_of("/post3.html")) || chars_eq(
        &path,
        &chars_of("/page3"),
    ) || chars_eq(&path, &chars_of("/page3.html"));
    !(ddg_host && internal_path)
}

pub open spec fn spec_should_open_new_tab_url(raw: Seq<char>) -> bool {
    let t = trim(raw);
    if t.len() == 0 || ascii_lower_seq(t) == ascii_lower_seq("about:blank"@) {
        false
    } else if starts_with(ascii_lower_seq(t), "javascript:"@) {
        false
    } else {
        match url_parts_of(t) {
            Some(parts) => spec_allows_new_tab(parts),
            None => false,
        }
    }
}

/// Whether a page's request to open `raw` in a new tab is honored at all:
/// never for blank targets, `about:blank` or `javascript:` URLs, nor for URLs
/// that do not parse or are not `http(s)`.
pub fn should_open_new_tab_url(raw: &str) -> (r: bool)
    ensures
        r == spec_should_open_new_tab_url(raw@),
{
    let trimmed = trimmed(raw);
    let t = chars_of(trimmed.as_str());
    let lower = ascii_lowercase(&t);
    if t.len() == 0 || chars_eq(&lower, &ascii_lowercase(&chars_of("about:blank"))) {
        return false;
    }
    if starts_with_chars(&lower, &chars_of("javascript:")) {
        return false;
    }
    match parse_url(trimmed.as_str()) {
        Some(parts) => allows_new_tab(&parts),
        None => false,
    }
}

// ---------- Download names -----------------------------------------------

/// Characters that cannot stand in a file name on common systems.
pub open spec fn is_unsafe_filename_char(c: char) -> bool {
    ||| c == '<'
    ||| c == '>'
    ||| c == ':'
    ||| c == '"'
    ||| c == '/'
    ||| c == '\\'
    ||| c == '|'
    ||| c == '?'
    ||| c == '*'
    ||| is_control(c)
}

pub open spec fn sanitize_char(c: char) -> char {
    if is_unsafe_filename_char(c) {
        '_'
    } else {
        c
    }
}

pub open spec fn fallback_filename() -> Seq<char> {
    "download.bin"@
}

pub open spec fn spec_sanitize_filename(raw: Seq<char>) -> Seq<char> {
    let out = raw.map_values(|c: char| sanitize_char(c));
    let t = trim(trim_char(out, '.'));
    if t.len() == 0 {
        fallback_filename()
    } else {
        t
    }
}

/// Makes `raw` safe as a file name: unsafe and control characters become `_`,
/// dots and then whitespace are trimmed from both ends, and an empty result
/// becomes `download.bin`.
pub fn sanitize_filename(raw: &str) -> (r: String)
    ensures
        r@ == spec_sanitize_filename(raw@),
{
    let v = chars_of(raw);
    let mut out: Vec<char> = Vec::new();
    let mut i: usize = 0;
    while i < v.len()
        invariant
            i <= v.len(),
            out@ == v@.subrange(0, i as int).map_values(|c: char| sanitize_char(c)),
        decreases v.len() - i,
    {
        let ch = v[i];
        let invalid = ch == '<' || ch == '>' || ch == ':' || ch == '"' || ch == '/' || ch == '\\'
            || ch == '|' || ch == '?' || ch == '*' || is_control_char(ch);
        out.push(
            if invalid {
                '_'
            } else {
                ch
            },
        );
        assert(v@.subrange(0, i + 1).map_values(|c: char| sanitize_char(c)) =~= v@.subrange(
            0,
            i as int,
        ).map_values(|c: char| sanitize_char(c)).push(sanitize_char(v@[i as int])));
        i = i + 1;
    }
    assert(v@.subrange(0, v.len() as int) =~= v@);
    let (a, b) = trim_char_bounds(&out, '.');
    let dotless = string_of_range(&out, a, b);
    let r = trimmed(dotless.as_str());
    if r.as_str().is_empty() {
        String::from_str("download.bin")
    } else {
        r
    }
}

/// The part of a URL path after its last `/`.
pub open spec fn after_last_slash(path: Seq<char>) -> Seq<char>
    decreases path.len(),
{
    if path.len() == 0 || path.last() == '/' {
        Seq::empty()
    } else {
        after_last_slash(path.drop_last()).push(path.last())
    }
}

/// The last of a URL's path segments (`Url::path_segments().next_back()`):
/// `None` where the path does not start with `/`.
pub open spec fn last_path_segment(path: Seq<char>) -> Option<Seq<char>> {
    if starts_with(path, "/"@) {
        Some(after_last_slash(path))
    } else {
        None
    }
}

pub open spec fn spec_filename_from_url(url: Seq<char>) -> Seq<char> {
    let raw = match url_parts_of(url) {
        Some((_, _, path)) => match last_path_segment(path) {
            Some(seg) => if trim(seg).len() > 0 {
                trim(seg)
            } else {
                fallback_filename()
            },
            None => fallback_filename(),
        },
        None => fallback_filename(),
    };
    spec_sanitize_filename(raw)
}

/// Positions `(a, b)` with `path[a..b]` the part after the last `/`.
fn after_last_slash_bounds(path: &Vec<char>) -> (r: (usize, usize))
    ensures
        r.0 <= r.1 == path.len(),
        path@.subrange(r.0 as int, r.1 as int) == after_last_slash(path@),
{
    let n = path.len();
    let mut a = n;
    assert(path@.subrange(n as int, n as int) =~= Seq::<char>::empty());
    assert(path@.subrange(0, n as int) =~= path@);
    assert(after_last_slash(path@) + Seq::<char>::empty() =~= after_last_slash(path@));
    while a > 0 && path[a - 1] != '/'
        invariant
            n == path.len(),
            a <= n,
            after_last_slash(path@) == after_last_slash(path@.subrange(0, a as int)) + path@.subrange(
                a as int,
                n as int,
            ),
        decreases a,
    {
        assert(path@.subrange(0, a as int).drop_last() =~= path@.subrange(0, a - 1));
        assert(path@.subrange(0, a as int).last() == path@[a - 1]);
        assert(after_last_slash(path@.subrange(0, a - 1)).push(path@[a - 1]) + path@.subrange(
            a as int,
            n as int,
        ) =~= after_last_slash(path@.subrange(0, a - 1)) + path@.subrange(a - 1, n as int));
        a = a - 1;
    }
    assert(path@.subrange(0, n as int) =~= path@);
    if a > 0 {
        assert(path@.subrange(0, a as int).last() == path@[a - 1]);
    }
    assert(after_last_slash(path@.subrange(0, a as int)) =~= Seq::<char>::empty());
    assert(Seq::<char>::empty() + path@.subrange(a as int, n as int) =~= path@.subrange(
        a as int,
        n as int,
    ));
    (a, n)
}

/// The file name a download from `url` is saved under: the URL's last path
/// segment, trimmed, or `download.bin`, made safe by `sanitize_filename`.
pub fn filename_from_url(url: &str) -> (r: String)
    ensures
        r@ == spec_filename_from_url(url@),
{
    let mut raw = String::from_str("download.bin");
    match parse_url(url) {
        Some(parts) => {
            let path = chars_of(parts.path.as_str());
            if starts_with_chars(&path, &chars_of("/")) {
                let (a, b) = after_last_slash_bounds(&path);
                let seg = string_of_range(&path, a, b);
                let t = trimmed(seg.as_str());
                if !t.as_str().is_empty() {
                    raw = t;
                }
            }
        },
        None => {},
    }
    sanitize_filename(raw.as_str())
}

// ---------- Internal pages -----------------------------------------------

pub open spec fn internal_page_prefix() -> Seq<char> {
    "data:text/html;base64,"@
}

/// Whether `url` is one of the browser's own generated pages.
pub fn is_internal_page(url: &str) -> (r: bool)
    ensures
        r == starts_with(url@, internal_page_prefix()),
{
    starts_with_chars(&chars_of(url), &chars_of("data:text/html;base64,"))
}

} // verus!
