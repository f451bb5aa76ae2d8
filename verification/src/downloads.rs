//! Where downloads are saved, the time stamps the session records, and the
//! size a server announces for a download.
//!
//! Paths are held as `String`s. What `std::path` makes of a path (its parent,
//! stem, extension, and a path joined to a name) is named, not restated; what
//! is on disk, and the clock, are read through calls whose results the
//! contracts take as they come.

use vstd::prelude::*;
use crate::address::{filename_from_url, spec_filename_from_url};
use crate::text::{chars_of, decimal, decimal_string, parse_u64, parse_u64_chars, push_decimal};

verus! {

// ---------- The clock ------------------------------------------------------

#[verifier::external_type_specification]
#[verifier::external_body]
pub struct ExSystemTime(std::time::SystemTime);

/// `std::time::SystemTime::now`: the clock's reading. Nothing is stated of it.
#[verifier::external_body]
fn system_time_now() -> std::time::SystemTime {
    std::time::SystemTime::now()
}

/// `SystemTime::duration_since(UNIX_EPOCH)`: `None` where the reading lies
/// before the epoch. Nothing is stated of the duration.
#[verifier::external_body]
fn duration_since_epoch(t: &std::time::SystemTime) -> Option<std::time::Duration> {
    t.duration_since(std::time::UNIX_EPOCH).ok()
}

/// `Duration::as_secs`: the whole seconds of a duration. Nothing is stated of
/// the number.
#[verifier::external_body]
fn whole_seconds(d: &std::time::Duration) -> u64 {
    d.as_secs()
}

/// Whole seconds since the Unix epoch by the clock, `None` before it.
fn seconds_since_epoch_now() -> Option<u64> {
    let t = system_time_now();
    match duration_since_epoch(&t) {
        Some(d) => Some(whole_seconds(&d)),
        None => None,
    }
}

pub open spec fn spec_stamp_of(secs: Option<u64>) -> Seq<char> {
    match secs {
        Some(n) => decimal(n as nat),
        None => "0"@,
    }
}

/// The stamp for a clock reading of `secs` seconds after the Unix epoch
/// (`"0"` for a reading before it).
pub fn stamp_of(secs: Option<u64>) -> (r: String)
    ensures
        r@ == spec_stamp_of(secs),
{
    match secs {
        Some(n) => decimal_string(n),
        None => String::from_str("0"),
    }
}

/// The current time as the session records it: whole seconds since the
/// Unix epoch, in decimal.
pub fn now_stamp() -> (r: String)
    ensures
        exists|secs: Option<u64>| r@ == spec_stamp_of(secs),
{
    stamp_of(seconds_since_epoch_now())
}

// ---------- Paths ----------------------------------------------------------

/// What `Path::parent` gives for a path, as text.
pub uninterp spec fn path_parent_of(path: Seq<char>) -> Option<Seq<char>>;

/// What `Path::file_stem` gives for a path, as text.
pub uninterp spec fn path_file_stem_of(path: Seq<char>) -> Option<Seq<char>>;

/// What `Path::extension` gives for a path, as text.
pub uninterp spec fn path_extension_of(path: Seq<char>) -> Option<Seq<char>>;

/// What `Path::join` gives for a directory and a name, as text.
pub uninterp spec fn path_join_of(dir: Seq<char>, name: Seq<char>) -> Seq<char>;

/// `Path::parent`.
#[verifier::external_body]
fn path_parent(path: &str) -> (r: Option<String>)
    ensures
        crate::text::opt_chars(r) == path_parent_of(path@),
{
    std::path::Path::new(path).parent().map(|p| p.to_string_lossy().into_owned())
}

/// `Path::file_stem`.
#[verifier::external_body]
fn path_file_stem(path: &str) -> (r: Option<String>)
    ensures
        crate::text::opt_chars(r) == path_file_stem_of(path@),
{
    std::path::Path::new(path).file_stem().map(|p| p.to_string_lossy().into_owned())
}

/// `Path::extension`.
#[verifier::external_body]
fn path_extension(path: &str) -> (r: Option<String>)
    ensures
        crate::text::opt_chars(r) == path_extension_of(path@),
{
    std::path::Path::new(path).extension().map(|p| p.to_string_lossy().into_owned())
}

/// `Path::join`.
#[verifier::external_body]
fn path_join(dir: &str, name: &str) -> (r: String)
    ensures
        r@ == path_join_of(dir@, name@),
{
    std::path::Path::new(dir).join(name).to_string_lossy().into_owned()
}

/// `Path::exists`: whether something is on disk at `path` now. Nothing is
/// stated of the answer.
#[verifier::external_body]
fn path_exists(path: &str) -> bool {
    std::path::Path::new(path).exists()
}

// ---------- Where a download goes ------------------------------------------

/// `dirs::download_dir`: the user's download directory, where the platform
/// has one. Nothing is stated of it.
#[verifier::external_body]
fn user_download_dir() -> Option<String> {
    dirs::download_dir().map(|p| p.to_string_lossy().into_owned())
}

/// `dirs::home_dir`: the user's home directory, where one is known. Nothing
/// is stated of it.
#[verifier::external_body]
fn user_home_dir() -> Option<String> {
    dirs::home_dir().map(|p| p.to_string_lossy().into_owned())
}

pub open spec fn spec_download_dir_choice(
    download: Option<Seq<char>>,
    home: Option<Seq<char>>,
    fallback: Seq<char>,
) -> Seq<char> {
    match download {
        Some(d) => d,
        None => match home {
            Some(h) => h,
            None => fallback,
        },
    }
}

/// The directory downloads go to: the user's download directory, else the
/// home directory, else `fallback`.
pub fn download_dir_choice(download: Option<String>, home: Option<String>, fallback: &str) -> (r:
    String)
    ensures
        r@ == spec_download_dir_choice(
            crate::text::opt_chars(download),
            crate::text::opt_chars(home),
            fallback@,
        ),
{
    match download {
        Some(d) => d,
        None => match home {
            Some(h) => h,
            None => String::from_str(fallback),
        },
    }
}

/// The path a download of `url` gets in `dir`: the name the URL gives it.
pub fn download_path_in(dir: &str, url: &str) -> (r: String)
    ensures
        r@ == path_join_of(dir@, spec_filename_from_url(url@)),
{
    let name = filename_from_url(url);
    path_join(dir, name.as_str())
}

/// The path a download of `url` is first offered: its name in the user's
/// download directory, else in the home directory, else in `fallback` (the
/// working directory, or else the temporary directory, which the caller
/// reads). The second part of the result records what the system gave as
/// the download and the home directory.
pub fn default_download_path_for(url: &str, fallback: &str) -> (r: (
    String,
    Ghost<(Option<Seq<char>>, Option<Seq<char>>)>,
))
    ensures
        r.0@ == path_join_of(
            spec_download_dir_choice(r.1@.0, r.1@.1, fallback@),
            spec_filename_from_url(url@),
        ),
{
    let download = user_download_dir();
    let home = user_home_dir();
    let ghost dv = crate::text::opt_chars(download);
    let ghost hv = crate::text::opt_chars(home);
    let dir = download_dir_choice(download, home, fallback);
    let r = download_path_in(dir.as_str(), url);
    (r, Ghost((dv, hv)))
}

/// The most numbered names tried before a time stamp is used.
pub const MAX_NUMBERED_CANDIDATES: u32 = 9999;

pub open spec fn spec_candidate_name(stem: Seq<char>, idx: nat, ext: Option<Seq<char>>) -> Seq<char> {
    match ext {
        Some(e) => stem + " ("@ + decimal(idx) + ")."@ + e,
        None => stem + " ("@ + decimal(idx) + ")"@,
    }
}

/// The `idx`-th numbered name for a file: `stem (idx).ext`, or `stem (idx)`
/// without an extension.
pub fn candidate_name(stem: &str, idx: u32, ext: &Option<String>) -> (r: String)
    ensures
        r@ == spec_candidate_name(stem@, idx as nat, crate::text::opt_chars(*ext)),
{
    let mut out = String::from_str(stem);
    out.append(" (");
    push_decimal(&mut out, idx as u64);
    match ext {
        Some(e) => {
            out.append(").");
            out.append(e.as_str());
        },
        None => {
            out.append(")");
        },
    }
    out
}

/// The part of a path that numbered names keep: its parent directory
/// (`/tmp` where it has none), its stem (`download` where it has none or an
/// empty one) and its extension (where it has a non-empty one).
pub open spec fn spec_unique_parts(path: Seq<char>) -> (Seq<char>, Seq<char>, Option<Seq<char>>) {
    let parent = match path_parent_of(path) {
        Some(p) => p,
        None => "/tmp"@,
    };
    let stem = match path_file_stem_of(path) {
        Some(s) => if s.len() > 0 {
            s
        } else {
            "download"@
        },
        None => "download"@,
    };
    let ext = match path_extension_of(path) {
        Some(e) => if e.len() > 0 {
            Some(e)
        } else {
            None
        },
        None => None,
    };
    (parent, stem, ext)
}

/// The `idx`-th numbered path tried for `path`.
pub open spec fn spec_numbered_candidate(path: Seq<char>, idx: nat) -> Seq<char> {
    let (parent, stem, ext) = spec_unique_parts(path);
    path_join_of(parent, spec_candidate_name(stem, idx, ext))
}

/// The path used when every numbered name is taken: `stem-<stamp>`.
pub open spec fn spec_stamped_candidate(path: Seq<char>, stamp: Seq<char>) -> Seq<char> {
    let (parent, stem, ext) = spec_unique_parts(path);
    path_join_of(parent, stem + "-"@ + stamp)
}

fn unique_parts(path: &str) -> (r: (String, String, Option<String>))
    ensures
        (r.0@, r.1@, crate::text::opt_chars(r.2)) == spec_unique_parts(path@),
{
    let parent = match path_parent(path) {
        Some(p) => p,
        None => String::from_str("/tmp"),
    };
    let stem = match path_file_stem(path) {
        Some(s) => if s.as_str().is_empty() {
            String::from_str("download")
        } else {
            s
        },
        None => String::from_str("download"),
    };
    let ext = match path_extension(path) {
        Some(e) => if e.as_str().is_empty() {
            None
        } else {
            Some(e)
        },
        None => None,
    };
    (parent, stem, ext)
}

/// The path tested `k`-th when looking for a free one: `path` itself, then
/// its numbered candidates.
pub open spec fn probe_path(path: Seq<char>, k: nat) -> Seq<char> {
    if k == 0 {
        path
    } else {
        spec_numbered_candidate(path, k)
    }
}

/// How many paths are tested at most: `path` and its numbered candidates.
pub open spec fn probe_count() -> int {
    MAX_NUMBERED_CANDIDATES + 1
}

/// The first of the first `n` tested paths that was found free.
pub open spec fn first_free(taken: Seq<bool>, n: int) -> Option<int>
    decreases n,
{
    if n <= 0 {
        None
    } else {
        match first_free(taken, n - 1) {
            Some(k) => Some(k),
            None => if !taken[n - 1] {
                Some(n - 1)
            } else {
                None
            },
        }
    }
}

/// The path chosen for a download at `path`, given whether each tested path
/// was found taken (`taken[k]` for `probe_path(path, k)`): the first free one
/// among `path` and its numbered candidates, else the stamped name.
pub open spec fn spec_unique_choice(path: Seq<char>, taken: Seq<bool>, stamp: Seq<char>) -> Seq<char> {
    let n = if taken.len() < probe_count() {
        taken.len() as int
    } else {
        probe_count()
    };
    match first_free(taken, n) {
        Some(k) => probe_path(path, k as nat),
        None => spec_stamped_candidate(path, stamp),
    }
}

fn numbered_candidate(parent: &str, stem: &str, ext: &Option<String>, idx: u32) -> (r: String)
    ensures
        r@ == path_join_of(parent@, spec_candidate_name(stem@, idx as nat, crate::text::opt_chars(*ext))),
{
    let name = candidate_name(stem, idx, ext);
    path_join(parent, name.as_str())
}

/// Chooses the path for a download at `path` from what the disk said of the
/// paths tested: `taken[k]` tells whether `path` (for `k == 0`) or its `k`-th
/// numbered candidate is taken. The first free one is chosen; where none of
/// `path` and its 9999 candidates is known to be free, `stem-<stamp>` is.
pub fn unique_path_choice(path: &str, taken: &Vec<bool>, stamp: &str) -> (r: String)
    ensures
        r@ == spec_unique_choice(path@, taken@, stamp@),
{
    let n: usize = if taken.len() < 10000 {
        taken.len()
    } else {
        10000
    };
    assert(probe_count() == 10000);
    let (parent, stem, ext) = unique_parts(path);
    let mut k: usize = 0;
    while k < n
        invariant
            k <= n <= taken.len(),
            n == (if taken.len() < probe_count() {
                taken.len() as int
            } else {
                probe_count()
            }),
            first_free(taken@, k as int) is None,
            (parent@, stem@, crate::text::opt_chars(ext)) == spec_unique_parts(path@),
        decreases n - k,
    {
        if !taken[k] {
            assert(first_free(taken@, k + 1) == Some(k as int));
            proof {
                lemma_first_free_stays(taken@, k as int + 1, n as int);
            }
            if k == 0 {
                return String::from_str(path);
            }
            return numbered_candidate(parent.as_str(), stem.as_str(), &ext, k as u32);
        }
        k = k + 1;
    }
    let mut name = stem.clone();
    name.append("-");
    name.append(stamp);
    path_join(parent.as_str(), name.as_str())
}

proof fn lemma_first_free_stays(taken: Seq<bool>, n: int, m: int)
    requires
        0 <= n <= m,
        first_free(taken, n) is Some,
    ensures
        first_free(taken, m) == first_free(taken, n),
    decreases m - n,
{
    if m > n {
        lemma_first_free_stays(taken, n, m - 1);
    }
}

proof fn lemma_first_free_none(taken: Seq<bool>, n: int)
    requires
        0 <= n <= taken.len(),
        forall|k: int| 0 <= k < n ==> #[trigger] taken[k],
    ensures
        first_free(taken, n) is None,
    decreases n,
{
    if n > 0 {
        lemma_first_free_none(taken, n - 1);
    }
}

/// The answers in a record of tested paths.
pub open spec fn answers(trace: Seq<(Seq<char>, bool)>) -> Seq<bool> {
    trace.map_values(|t: (Seq<char>, bool)| t.1)
}

/// A path for a new download that nothing is at yet: `path` itself where it
/// is free, else the first free `stem (n).ext` beside it for `n` from 1 to
/// 9999, else `stem-<now>` beside it.
///
/// The second part of the result records, in order, each path that was
/// tested on disk and whether it was found taken: `path` first, then its
/// numbered candidates, up to the first one found free. The path returned is
/// the one `unique_path_choice` makes of those answers.
pub fn ensure_unique_download_path(path: &str) -> (r: (String, Ghost<Seq<(Seq<char>, bool)>>))
    ensures
        1 <= r.1@.len() <= probe_count(),
        forall|k: int| 0 <= k < r.1@.len() ==> (#[trigger] r.1@[k]).0 == probe_path(path@, k as nat),
        forall|k: int| 0 <= k < r.1@.len() - 1 ==> (#[trigger] r.1@[k]).1,
        !r.1@.last().1 || r.1@.len() == probe_count(),
        exists|secs: Option<u64>|
            r.0@ == #[trigger] spec_unique_choice(path@, answers(r.1@), spec_stamp_of(secs)),
{
    let (parent, stem, ext) = unique_parts(path);
    let mut taken: Vec<bool> = Vec::new();
    let first = path_exists(path);
    taken.push(first);
    let ghost mut trace: Seq<(Seq<char>, bool)> = seq![(path@, first)];
    assert(taken@ =~= answers(trace));
    let mut done = !first;
    let mut idx: u32 = 1;
    while !done && idx <= MAX_NUMBERED_CANDIDATES
        invariant
            1 <= idx <= MAX_NUMBERED_CANDIDATES + 1,
            trace.len() == idx,
            taken@ == answers(trace),
            forall|k: int| 0 <= k < trace.len() ==> (#[trigger] trace[k]).0 == probe_path(path@, k as nat),
            forall|k: int| 0 <= k < trace.len() - 1 ==> (#[trigger] trace[k]).1,
            done == !trace.last().1,
            (parent@, stem@, crate::text::opt_chars(ext)) == spec_unique_parts(path@),
        decreases MAX_NUMBERED_CANDIDATES + 1 - idx,
    {
        let candidate = numbered_candidate(parent.as_str(), stem.as_str(), &ext, idx);
        let t = path_exists(candidate.as_str());
        taken.push(t);
        proof {
            trace = trace.push((candidate@, t));
        }
        assert(taken@ =~= answers(trace));
        done = !t;
        idx = idx + 1;
    }
    let secs: Option<u64> = if done {
        None
    } else {
        seconds_since_epoch_now()
    };
    let stamp = stamp_of(secs);
    let r = unique_path_choice(path, &taken, stamp.as_str());
    proof {
        let a = answers(trace);
        assert(a.len() == trace.len());
        assert forall|k: int| 0 <= k < a.len() - 1 implies #[trigger] a[k] by {
            assert(trace[k].1);
        }
        lemma_first_free_none(a, a.len() - 1);
        assert(r@ == spec_unique_choice(path@, a, spec_stamp_of(secs)));
    }
    (r, Ghost(trace))
}

// ---------- The size a server announces ------------------------------------

pub open spec fn spec_announced_total(content_length: Option<Seq<char>>) -> Option<u64> {
    match content_length {
        Some(v) => parse_u64(v),
        None => None,
    }
}

/// The total size of a download as its `Content-Length` header gives it:
/// the header's value read as a `u64`, or nothing where the header is
/// missing or is not such a number.
pub fn announced_total(content_length: Option<&str>) -> (r: Option<u64>)
    ensures
        r == spec_announced_total(
            match content_length {
                Some(v) => Some(v@),
                None => None,
            },
        ),
{
    match content_length {
        Some(v) => parse_u64_chars(&chars_of(v)),
        None => None,
    }
}

} // verus!
