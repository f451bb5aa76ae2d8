//! The command line, and the launch settings read from it.
//!
//! The grammar is that of the browser's command line: long options
//! `--url <URL>`, `--title <TITLE>`, `--linux-backend <auto|x11|wayland>`
//! (each value either in the next argument or after `=`), the flags
//! `--private`, `--dry-run`, `--linux-disable-dmabuf`, and `-h`/`--help`,
//! `-V`/`--version`. An option given twice, a missing or invalid value, a
//! value given to a flag, an unknown option or a stray argument is an error.

use vstd::prelude::*;
use crate::text::{
    chars_eq, chars_of, opt_chars, starts_with, starts_with_chars, string_of_range,
};

verus! {

/// The windowing backend to prefer on Linux.
#[derive(PartialEq, Eq, Structural, Clone, Copy, Debug)]
pub enum LinuxBackend {
    Auto,
    X11,
    Wayland,
}

/// The options of the command line.
#[derive(PartialEq, Eq, Structural, Clone, Copy, Debug)]
pub enum CliOption {
    Url,
    Title,
    Private,
    DryRun,
    LinuxBackend,
    LinuxDisableDmabuf,
    Help,
    Version,
}

/// The launch settings.
#[derive(Debug)]
pub struct Cli {
    /// Optional startup URL (defaults to https://duckduckgo.com).
    pub url: Option<String>,
    /// A custom window title.
    pub title: Option<String>,
    /// Private (incognito) mode, where the backend supports it.
    pub private: bool,
    /// Print the launch settings without opening a window.
    pub dry_run: bool,
    /// Linux only: the preferred windowing backend.
    pub linux_backend: LinuxBackend,
    /// Linux only: disable WebKit's dmabuf renderer.
    pub linux_disable_dmabuf: bool,
}

#[verifier::ext_equal]
pub struct CliView {
    pub url: Option<Seq<char>>,
    pub title: Option<Seq<char>>,
    pub private: bool,
    pub dry_run: bool,
    pub linux_backend: LinuxBackend,
    pub linux_disable_dmabuf: bool,
}

impl View for Cli {
    type V = CliView;

    open spec fn view(&self) -> CliView {
        CliView {
            url: opt_chars(self.url),
            title: opt_chars(self.title),
            private: self.private,
            dry_run: self.dry_run,
            linux_backend: self.linux_backend,
            linux_disable_dmabuf: self.linux_disable_dmabuf,
        }
    }
}

/// What the command line asks for.
#[derive(Debug)]
pub enum CliRequest {
    Run(Cli),
    Help,
    Version,
}

#[verifier::ext_equal]
pub enum CliRequestView {
    Run(CliView),
    Help,
    Version,
}

impl View for CliRequest {
    type V = CliRequestView;

    open spec fn view(&self) -> CliRequestView {
        match self {
            CliRequest::Run(c) => CliRequestView::Run(c@),
            CliRequest::Help => CliRequestView::Help,
            CliRequest::Version => CliRequestView::Version,
        }
    }
}

/// Why a command line is refused.
#[derive(Debug)]
pub enum CliError {
    /// An option that the browser does not have, as written.
    UnknownArgument(String),
    /// An argument that is neither an option nor an option's value.
    UnexpectedArgument(String),
    /// An option that takes a value was given none.
    MissingValue(CliOption),
    /// A flag was given a value with `=`.
    UnexpectedValue(CliOption, String),
    /// An option was given more than once.
    RepeatedArgument(CliOption),
    /// A value that the option does not accept.
    InvalidValue(CliOption, String),
}

#[verifier::ext_equal]
pub enum CliErrorView {
    UnknownArgument(Seq<char>),
    UnexpectedArgument(Seq<char>),
    MissingValue(CliOption),
    UnexpectedValue(CliOption, Seq<char>),
    RepeatedArgument(CliOption),
    InvalidValue(CliOption, Seq<char>),
}

impl View for CliError {
    type V = CliErrorView;

    open spec fn view(&self) -> CliErrorView {
        match self {
            CliError::UnknownArgument(a) => CliErrorView::UnknownArgument(a@),
            CliError::UnexpectedArgument(a) => CliErrorView::UnexpectedArgument(a@),
            CliError::MissingValue(o) => CliErrorView::MissingValue(*o),
            CliError::UnexpectedValue(o, v) => CliErrorView::UnexpectedValue(*o, v@),
            CliError::RepeatedArgument(o) => CliErrorView::RepeatedArgument(*o),
            CliError::InvalidValue(o, v) => CliErrorView::InvalidValue(*o, v@),
        }
    }
}

pub open spec fn result_view(r: Result<CliRequest, CliError>) -> Result<CliRequestView, CliErrorView> {
    match r {
        Ok(q) => Ok(q@),
        Err(e) => Err(e@),
    }
}

// ---------- The grammar -----------------------------------------------------

/// The option a long name (without its dashes) names.
pub open spec fn long_option(name: Seq<char>) -> Option<CliOption> {
    if name == "url"@ {
        Some(CliOption::Url)
    } else if name == "title"@ {
        Some(CliOption::Title)
    } else if name == "private"@ {
        Some(CliOption::Private)
    } else if name == "dry-run"@ {
        Some(CliOption::DryRun)
    } else if name == "linux-backend"@ {
        Some(CliOption::LinuxBackend)
    } else if name == "linux-disable-dmabuf"@ {
        Some(CliOption::LinuxDisableDmabuf)
    } else if name == "help"@ {
        Some(CliOption::Help)
    } else if name == "version"@ {
        Some(CliOption::Version)
    } else {
        None
    }
}

pub open spec fn takes_value(o: CliOption) -> bool {
    o == CliOption::Url || o == CliOption::Title || o == CliOption::LinuxBackend
}

/// The backend a `--linux-backend` value names.
pub open spec fn backend_named(v: Seq<char>) -> Option<LinuxBackend> {
    if v == "auto"@ {
        Some(LinuxBackend::Auto)
    } else if v == "x11"@ {
        Some(LinuxBackend::X11)
    } else if v == "wayland"@ {
        Some(LinuxBackend::Wayland)
    } else {
        None
    }
}

/// What has been read of the command line so far.
#[verifier::ext_equal]
pub struct ScanView {
    pub url: Option<Seq<char>>,
    pub title: Option<Seq<char>>,
    pub private: bool,
    pub dry_run: bool,
    pub linux_backend: Option<LinuxBackend>,
    pub linux_disable_dmabuf: bool,
    /// An option whose value is expected in the next argument.
    pub pending: Option<CliOption>,
    /// After `--`: every further argument is a stray one.
    pub trailing: bool,
}

pub open spec fn scan_start() -> ScanView {
    ScanView {
        url: None,
        title: None,
        private: false,
        dry_run: false,
        linux_backend: None,
        linux_disable_dmabuf: false,
        pending: None,
        trailing: false,
    }
}

/// One step of reading: go on with a new state, or stop with a result.
pub enum StepView {
    Next(ScanView),
    Stop(Result<CliRequestView, CliErrorView>),
}

/// Gives the value option `o` its value `v`.
pub open spec fn give_value(st: ScanView, o: CliOption, v: Seq<char>) -> StepView {
    if o == CliOption::Url {
        if st.url is Some {
            StepView::Stop(Err(CliErrorView::RepeatedArgument(o)))
        } else {
            StepView::Next(ScanView { url: Some(v), pending: None, ..st })
        }
    } else if o == CliOption::Title {
        if st.title is Some {
            StepView::Stop(Err(CliErrorView::RepeatedArgument(o)))
        } else {
            StepView::Next(ScanView { title: Some(v), pending: None, ..st })
        }
    } else {
        if st.linux_backend is Some {
            StepView::Stop(Err(CliErrorView::RepeatedArgument(o)))
        } else {
            match backend_named(v) {
                Some(b) => StepView::Next(ScanView { linux_backend: Some(b), pending: None, ..st }),
                None => StepView::Stop(Err(CliErrorView::InvalidValue(o, v))),
            }
        }
    }
}

/// Sets the flag `o`.
pub open spec fn set_flag(st: ScanView, o: CliOption) -> StepView {
    if o == CliOption::Private {
        if st.private {
            StepView::Stop(Err(CliErrorView::RepeatedArgument(o)))
        } else {
            StepView::Next(ScanView { private: true, ..st })
        }
    } else if o == CliOption::DryRun {
        if st.dry_run {
            StepView::Stop(Err(CliErrorView::RepeatedArgument(o)))
        } else {
            StepView::Next(ScanView { dry_run: true, ..st })
        }
    } else {
        if st.linux_disable_dmabuf {
            StepView::Stop(Err(CliErrorView::RepeatedArgument(o)))
        } else {
            StepView::Next(ScanView { linux_disable_dmabuf: true, ..st })
        }
    }
}

/// The position of the first `=` in `s`, if any.
pub open spec fn first_eq(s: Seq<char>) -> Option<int> {
    if s.contains('=') {
        Some(choose|k: int| 0 <= k < s.len() && s[k] == '=' && forall|j: int| 0 <= j < k ==> s[j] != '=')
    } else {
        None
    }
}

/// A long option's name and, after `=`, its value.
pub open spec fn long_parts(t: Seq<char>) -> (Seq<char>, Option<Seq<char>>) {
    let body = t.subrange(2, t.len() as int);
    match first_eq(body) {
        Some(k) => (body.subrange(0, k), Some(body.subrange(k + 1, body.len() as int))),
        None => (body, None),
    }
}

/// Reads a long option.
pub open spec fn long_step(st: ScanView, name: Seq<char>, value: Option<Seq<char>>) -> StepView {
    match long_option(name) {
        None => StepView::Stop(Err(CliErrorView::UnknownArgument("--"@ + name))),
        Some(o) => if !takes_value(o) && value is Some {
            StepView::Stop(Err(CliErrorView::UnexpectedValue(o, value.unwrap())))
        } else if st.pending is Some {
            StepView::Stop(Err(CliErrorView::MissingValue(st.pending.unwrap())))
        } else if o == CliOption::Help {
            StepView::Stop(Ok(CliRequestView::Help))
        } else if o == CliOption::Version {
            StepView::Stop(Ok(CliRequestView::Version))
        } else if takes_value(o) {
            match value {
                Some(v) => give_value(st, o, v),
                None => StepView::Next(ScanView { pending: Some(o), ..st }),
            }
        } else {
            set_flag(st, o)
        },
    }
}

/// Reads a short option (`-` and one or more letters).
pub open spec fn short_step(st: ScanView, t: Seq<char>) -> StepView {
    if t[1] == 'h' || t[1] == 'V' {
        if st.pending is Some {
            StepView::Stop(Err(CliErrorView::MissingValue(st.pending.unwrap())))
        } else if t[1] == 'h' {
            StepView::Stop(Ok(CliRequestView::Help))
        } else {
            StepView::Stop(Ok(CliRequestView::Version))
        }
    } else {
        StepView::Stop(Err(CliErrorView::UnknownArgument(seq!['-', t[1]])))
    }
}

/// Reads one argument.
pub open spec fn scan_step(st: ScanView, t: Seq<char>) -> StepView {
    if st.trailing {
        StepView::Stop(Err(CliErrorView::UnexpectedArgument(t)))
    } else if t == "--"@ {
        StepView::Next(ScanView { trailing: true, ..st })
    } else if starts_with(t, "--"@) {
        long_step(st, long_parts(t).0, long_parts(t).1)
    } else if t.len() >= 2 && t[0] == '-' {
        short_step(st, t)
    } else {
        match st.pending {
            Some(o) => give_value(st, o, t),
            None => StepView::Stop(Err(CliErrorView::UnexpectedArgument(t))),
        }
    }
}

/// The settings read once every argument was read.
pub open spec fn scan_end(st: ScanView) -> Result<CliRequestView, CliErrorView> {
    match st.pending {
        Some(o) => Err(CliErrorView::MissingValue(o)),
        None => Ok(
            CliRequestView::Run(
                CliView {
                    url: st.url,
                    title: st.title,
                    private: st.private,
                    dry_run: st.dry_run,
                    linux_backend: match st.linux_backend {
                        Some(b) => b,
                        None => LinuxBackend::Auto,
                    },
                    linux_disable_dmabuf: st.linux_disable_dmabuf,
                },
            ),
        ),
    }
}

/// Reads the arguments from position `i` on.
pub open spec fn scan(args: Seq<Seq<char>>, i: int, st: ScanView) -> Result<CliRequestView, CliErrorView>
    decreases args.len() - i,
{
    if i >= args.len() {
        scan_end(st)
    } else {
        match scan_step(st, args[i]) {
            StepView::Next(st2) => scan(args, i + 1, st2),
            StepView::Stop(r) => r,
        }
    }
}

/// What a command line (the program's name first) asks for.
pub open spec fn spec_parse_args(args: Seq<Seq<char>>) -> Result<CliRequestView, CliErrorView> {
    scan(args, 1, scan_start())
}

pub open spec fn args_view(args: Seq<String>) -> Seq<Seq<char>> {
    args.map_values(|a: String| a@)
}

// ---------- Reading ---------------------------------------------------------

struct Scan {
    url: Option<String>,
    title: Option<String>,
    private: bool,
    dry_run: bool,
    linux_backend: Option<LinuxBackend>,
    linux_disable_dmabuf: bool,
    pending: Option<CliOption>,
    trailing: bool,
}

impl View for Scan {
    type V = ScanView;

    closed spec fn view(&self) -> ScanView {
        ScanView {
            url: opt_chars(self.url),
            title: opt_chars(self.title),
            private: self.private,
            dry_run: self.dry_run,
            linux_backend: self.linux_backend,
            linux_disable_dmabuf: self.linux_disable_dmabuf,
            pending: self.pending,
            trailing: self.trailing,
        }
    }
}

fn lookup_long(name: &Vec<char>) -> (r: Option<CliOption>)
    ensures
        r == long_option(name@),
{
    if chars_eq(name, &chars_of("url")) {
        Some(CliOption::Url)
    } else if chars_eq(name, &chars_of("title")) {
        Some(CliOption::Title)
    } else if chars_eq(name, &chars_of("private")) {
        Some(CliOption::Private)
    } else if chars_eq(name, &chars_of("dry-run")) {
        Some(CliOption::DryRun)
    } else if chars_eq(name, &chars_of("linux-backend")) {
        Some(CliOption::LinuxBackend)
    } else if chars_eq(name, &chars_of("linux-disable-dmabuf")) {
        Some(CliOption::LinuxDisableDmabuf)
    } else if chars_eq(name, &chars_of("help")) {
        Some(CliOption::Help)
    } else if chars_eq(name, &chars_of("version")) {
        Some(CliOption::Version)
    } else {
        None
    }
}

fn lookup_backend(v: &Vec<char>) -> (r: Option<LinuxBackend>)
    ensures
        r == backend_named(v@),
{
    if chars_eq(v, &chars_of("auto")) {
        Some(LinuxBackend::Auto)
    } else if chars_eq(v, &chars_of("x11")) {
        Some(LinuxBackend::X11)
    } else if chars_eq(v, &chars_of("wayland")) {
        Some(LinuxBackend::Wayland)
    } else {
        None
    }
}

/// The outcome of one step, as the reader carries it out.
enum Step {
    Next,
    Stop(Result<CliRequest, CliError>),
}

spec fn step_matches(st: ScanView, s: StepView, r: Step) -> bool {
    match (s, r) {
        (StepView::Next(n), Step::Next) => st == n,
        (StepView::Stop(a), Step::Stop(b)) => a == result_view(b),
        _ => false,
    }
}

fn give_value_exec(st: &mut Scan, o: CliOption, v: Vec<char>) -> (r: Step)
    ensures
        step_matches(final(st)@, give_value(old(st)@, o, v@), r),
{
    let value = string_of_range(&v, 0, v.len());
    assert(v@.subrange(0, v.len() as int) =~= v@);
    if o == CliOption::Url {
        if st.url.is_some() {
            Step::Stop(Err(CliError::RepeatedArgument(o)))
        } else {
            st.url = Some(value);
            st.pending = None;
            assert(st@ =~= (ScanView { url: Some(v@), pending: None, ..old(st)@ }));
            Step::Next
        }
    } else if o == CliOption::Title {
        if st.title.is_some() {
            Step::Stop(Err(CliError::RepeatedArgument(o)))
        } else {
            st.title = Some(value);
            st.pending = None;
            assert(st@ =~= (ScanView { title: Some(v@), pending: None, ..old(st)@ }));
            Step::Next
        }
    } else {
        if st.linux_backend.is_some() {
            Step::Stop(Err(CliError::RepeatedArgument(o)))
        } else {
            match lookup_backend(&v) {
                Some(b) => {
                    st.linux_backend = Some(b);
                    st.pending = None;
                    assert(st@ =~= (ScanView { linux_backend: Some(b), pending: None, ..old(st)@ }));
                    Step::Next
                },
                None => Step::Stop(Err(CliError::InvalidValue(o, value))),
            }
        }
    }
}

fn set_flag_exec(st: &mut Scan, o: CliOption) -> (r: Step)
    ensures
        step_matches(final(st)@, set_flag(old(st)@, o), r),
{
    if o == CliOption::Private {
        if st.private {
            Step::Stop(Err(CliError::RepeatedArgument(o)))
        } else {
            st.private = true;
            assert(st@ =~= (ScanView { private: true, ..old(st)@ }));
            Step::Next
        }
    } else if o == CliOption::DryRun {
        if st.dry_run {
            Step::Stop(Err(CliError::RepeatedArgument(o)))
        } else {
            st.dry_run = true;
            assert(st@ =~= (ScanView { dry_run: true, ..old(st)@ }));
            Step::Next
        }
    } else {
        if st.linux_disable_dmabuf {
            Step::Stop(Err(CliError::RepeatedArgument(o)))
        } else {
            st.linux_disable_dmabuf = true;
            assert(st@ =~= (ScanView { linux_disable_dmabuf: true, ..old(st)@ }));
            Step::Next
        }
    }
}

/// The position of the first `=` in `s`.
fn find_eq(s: &Vec<char>) -> (r: Option<usize>)
    ensures
        match r {
            Some(k) => k < s.len() && first_eq(s@) == Some(k as int),
            None => first_eq(s@) is None,
        },
{
    let mut i: usize = 0;
    while i < s.len()
        invariant
            i <= s.len(),
            forall|j: int| 0 <= j < i ==> s@[j] != '=',
        decreases s.len() - i,
    {
        if s[i] == '=' {
            assert(s@.contains('='));
            let ghost k = choose|k: int|
                0 <= k < s@.len() && s@[k] == '=' && forall|j: int| 0 <= j < k ==> s@[j] != '=';
            assert(k == i) by {
                if k < i {
                    assert(s@[k] != '=');
                } else if k > i {
                    assert(s@[i as int] != '=');
                }
            }
            return Some(i);
        }
        i = i + 1;
    }
    assert(!s@.contains('='));
    None
}

fn split_long(t: &Vec<char>) -> (r: (Vec<char>, Option<Vec<char>>))
    requires
        t.len() >= 2,
    ensures
        r.0@ == long_parts(t@).0,
        match r.1 {
            Some(v) => long_parts(t@).1 == Some(v@),
            None => long_parts(t@).1 is None,
        },
{
    let body = crate::text::sub_chars(t, 2, t.len());
    match find_eq(&body) {
        Some(k) => {
            let n = crate::text::sub_chars(&body, 0, k);
            let v = crate::text::sub_chars(&body, k + 1, body.len());
            (n, Some(v))
        },
        None => (body, None),
    }
}

fn long_step_exec(st: &mut Scan, name: &Vec<char>, value: Option<Vec<char>>) -> (r: Step)
    ensures
        step_matches(
            final(st)@,
            long_step(
                old(st)@,
                name@,
                match value {
                    Some(v) => Some(v@),
                    None => None,
                },
            ),
            r,
        ),
{
    match lookup_long(name) {
        None => {
            let mut dashed = String::from_str("--");
            crate::text::push_range(&mut dashed, name, 0, name.len());
            assert(name@.subrange(0, name.len() as int) =~= name@);
            Step::Stop(Err(CliError::UnknownArgument(dashed)))
        },
        Some(o) => {
            let tv = o == CliOption::Url || o == CliOption::Title || o == CliOption::LinuxBackend;
            if !tv && value.is_some() {
                let v = value.unwrap();
                let text = string_of_range(&v, 0, v.len());
                assert(v@.subrange(0, v.len() as int) =~= v@);
                return Step::Stop(Err(CliError::UnexpectedValue(o, text)));
            }
            if st.pending.is_some() {
                return Step::Stop(Err(CliError::MissingValue(st.pending.unwrap())));
            }
            if o == CliOption::Help {
                return Step::Stop(Ok(CliRequest::Help));
            }
            if o == CliOption::Version {
                return Step::Stop(Ok(CliRequest::Version));
            }
            if tv {
                match value {
                    Some(v) => give_value_exec(st, o, v),
                    None => {
                        st.pending = Some(o);
                        assert(st@ =~= (ScanView { pending: Some(o), ..old(st)@ }));
                        Step::Next
                    },
                }
            } else {
                set_flag_exec(st, o)
            }
        },
    }
}

fn scan_step_exec(st: &mut Scan, t: &Vec<char>) -> (r: Step)
    ensures
        step_matches(final(st)@, scan_step(old(st)@, t@), r),
{
    if st.trailing {
        let text = string_of_range(t, 0, t.len());
        assert(t@.subrange(0, t.len() as int) =~= t@);
        return Step::Stop(Err(CliError::UnexpectedArgument(text)));
    }
    if chars_eq(t, &chars_of("--")) {
        st.trailing = true;
        assert(st@ =~= (ScanView { trailing: true, ..old(st)@ }));
        return Step::Next;
    }
    if starts_with_chars(t, &chars_of("--")) {
        assert("--"@.len() == 2) by {
            reveal_strlit("--");
        }
        let (name, value) = split_long(t);
        return long_step_exec(st, &name, value);
    }
    if t.len() >= 2 && t[0] == '-' {
        if t[1] == 'h' || t[1] == 'V' {
            if st.pending.is_some() {
                return Step::Stop(Err(CliError::MissingValue(st.pending.unwrap())));
            }
            if t[1] == 'h' {
                return Step::Stop(Ok(CliRequest::Help));
            }
            return Step::Stop(Ok(CliRequest::Version));
        }
        let mut flag = String::new();
        crate::text::push_char(&mut flag, '-');
        crate::text::push_char(&mut flag, t[1]);
        assert(flag@ =~= seq!['-', t@[1]]);
        return Step::Stop(Err(CliError::UnknownArgument(flag)));
    }
    match st.pending {
        Some(o) => {
            let v = t.clone();
            assert(v@ == t@);
            give_value_exec(st, o, v)
        },
        None => {
            let text = string_of_range(t, 0, t.len());
            assert(t@.subrange(0, t.len() as int) =~= t@);
            Step::Stop(Err(CliError::UnexpectedArgument(text)))
        },
    }
}

impl Cli {
    /// Reads a command line; `args[0]` is the program's name.
    pub fn parse_args(args: &Vec<String>) -> (r: Result<CliRequest, CliError>)
        ensures
            result_view(r) == spec_parse_args(args_view(args@)),
    {
        let ghost av = args_view(args@);
        let mut st = Scan {
            url: None,
            title: None,
            private: false,
            dry_run: false,
            linux_backend: None,
            linux_disable_dmabuf: false,
            pending: None,
            trailing: false,
        };
        assert(st@ =~= scan_start());
        let mut i: usize = 1;
        while i < args.len()
            invariant
                1 <= i,
                av == args_view(args@),
                spec_parse_args(av) == scan(av, i as int, st@),
            decreases args.len() - i,
        {
            let t = chars_of(args[i].as_str());
            assert(av[i as int] == t@);
            match scan_step_exec(&mut st, &t) {
                Step::Next => {},
                Step::Stop(r) => {
                    return r;
                },
            }
            i = i + 1;
        }
        match st.pending {
            Some(o) => Err(CliError::MissingValue(o)),
            None => {
                let backend = match st.linux_backend {
                    Some(b) => b,
                    None => LinuxBackend::Auto,
                };
                Ok(
                    CliRequest::Run(
                        Cli {
                            url: st.url,
                            title: st.title,
                            private: st.private,
                            dry_run: st.dry_run,
                            linux_backend: backend,
                            linux_disable_dmabuf: st.linux_disable_dmabuf,
                        },
                    ),
                )
            },
        }
    }
}

} // verus!
