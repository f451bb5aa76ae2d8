//! What the launch settings decide before a window opens: the start page,
//! the window's title, the dry-run report, the environment overrides for
//! Linux, and how content webviews are attached to the window.

use vstd::prelude::*;
use crate::address::{normalize_url, spec_normalize_url};
use crate::browser::HostMode;
use crate::cli::{Cli, CliView, LinuxBackend};
use crate::text::{ascii_lower_seq, ascii_lowercase, chars_eq, chars_of, contains_chars, contains_seq};

verus! {

/// The page opened when no URL is given.
pub open spec fn default_home() -> Seq<char> {
    "https://duckduckgo.com"@
}

/// The window title used when none is given.
pub open spec fn default_title() -> Seq<char> {
    "RustyWolf"@
}

pub open spec fn spec_start_url(args: CliView) -> Seq<char> {
    match args.url {
        Some(u) => spec_normalize_url(u),
        None => default_home(),
    }
}

/// The first page: the `--url` value as the URL bar would take it, or the
/// default home page.
pub fn start_url(args: &Cli) -> (r: String)
    ensures
        r@ == spec_start_url(args@),
{
    match &args.url {
        Some(u) => normalize_url(u.as_str()),
        None => String::from_str("https://duckduckgo.com"),
    }
}

pub open spec fn spec_window_title(args: CliView) -> Seq<char> {
    match args.title {
        Some(t) => t,
        None => default_title(),
    }
}

/// The window's title: the `--title` value, or the browser's name.
pub fn window_title(args: &Cli) -> (r: String)
    ensures
        r@ == spec_window_title(args@),
{
    match &args.title {
        Some(t) => t.clone(),
        None => String::from_str("RustyWolf"),
    }
}

pub open spec fn backend_name(b: LinuxBackend) -> Seq<char> {
    match b {
        LinuxBackend::Auto => "Auto"@,
        LinuxBackend::X11 => "X11"@,
        LinuxBackend::Wayland => "Wayland"@,
    }
}

pub open spec fn bool_text(b: bool) -> Seq<char> {
    if b {
        "true"@
    } else {
        "false"@
    }
}

pub open spec fn spec_dry_run_report(args: CliView, url: Seq<char>) -> Seq<char> {
    "engine=webkit url="@ + url + " private="@ + bool_text(args.private) + " linux_backend="@
        + backend_name(args.linux_backend) + " linux_disable_dmabuf="@ + bool_text(
        args.linux_disable_dmabuf,
    )
}

fn bool_str(b: bool) -> (r: &'static str)
    ensures
        r@ == bool_text(b),
{
    if b {
        "true"
    } else {
        "false"
    }
}

fn backend_str(b: LinuxBackend) -> (r: &'static str)
    ensures
        r@ == backend_name(b),
{
    match b {
        LinuxBackend::Auto => "Auto",
        LinuxBackend::X11 => "X11",
        LinuxBackend::Wayland => "Wayland",
    }
}

/// The line a dry run prints: the engine, the start URL and the settings.
pub fn dry_run_report(args: &Cli, url: &str) -> (r: String)
    ensures
        r@ == spec_dry_run_report(args@, url@),
{
    let mut out = String::from_str("engine=webkit url=");
    out.append(url);
    out.append(" private=");
    out.append(bool_str(args.private));
    out.append(" linux_backend=");
    out.append(backend_str(args.linux_backend));
    out.append(" linux_disable_dmabuf=");
    out.append(bool_str(args.linux_disable_dmabuf));
    out
}

// ---------- The environment on Linux ----------------------------------------

/// One environment variable to set before the window system starts.
pub struct EnvSetting {
    pub name: String,
    pub value: String,
}

impl View for EnvSetting {
    type V = (Seq<char>, Seq<char>);

    open spec fn view(&self) -> (Seq<char>, Seq<char>) {
        (self.name@, self.value@)
    }
}

pub open spec fn backend_overrides(b: LinuxBackend) -> Seq<(Seq<char>, Seq<char>)> {
    match b {
        LinuxBackend::Auto => Seq::empty(),
        LinuxBackend::X11 => seq![("WINIT_UNIX_BACKEND"@, "x11"@), ("GDK_BACKEND"@, "x11"@)],
        LinuxBackend::Wayland => seq![
            ("WINIT_UNIX_BACKEND"@, "wayland"@),
            ("GDK_BACKEND"@, "wayland"@),
        ],
    }
}

pub open spec fn spec_runtime_overrides(args: CliView, is_linux: bool) -> Seq<(Seq<char>, Seq<char>)> {
    if !is_linux {
        Seq::empty()
    } else if args.linux_disable_dmabuf {
        backend_overrides(args.linux_backend).push(("WEBKIT_DISABLE_DMABUF_RENDERER"@, "1"@))
    } else {
        backend_overrides(args.linux_backend)
    }
}

pub open spec fn settings_view(v: Seq<EnvSetting>) -> Seq<(Seq<char>, Seq<char>)> {
    v.map_values(|e: EnvSetting| e@)
}

fn setting(name: &str, value: &str) -> (r: EnvSetting)
    ensures
        r@ == (name@, value@),
{
    EnvSetting { name: String::from_str(name), value: String::from_str(value) }
}

/// The environment variables to set, in order, before the window system
/// starts: on Linux, the chosen backend for winit and GDK, and WebKit's
/// dmabuf renderer switched off where asked; elsewhere none.
pub fn linux_runtime_overrides(args: &Cli, is_linux: bool) -> (r: Vec<EnvSetting>)
    ensures
        settings_view(r@) == spec_runtime_overrides(args@, is_linux),
{
    let mut r: Vec<EnvSetting> = Vec::new();
    if !is_linux {
        assert(settings_view(r@) =~= Seq::empty());
        return r;
    }
    match args.linux_backend {
        LinuxBackend::Auto => {},
        LinuxBackend::X11 => {
            r.push(setting("WINIT_UNIX_BACKEND", "x11"));
            r.push(setting("GDK_BACKEND", "x11"));
        },
        LinuxBackend::Wayland => {
            r.push(setting("WINIT_UNIX_BACKEND", "wayland"));
            r.push(setting("GDK_BACKEND", "wayland"));
        },
    }
    assert(settings_view(r@) =~= backend_overrides(args.linux_backend));
    if args.linux_disable_dmabuf {
        r.push(setting("WEBKIT_DISABLE_DMABUF_RENDERER", "1"));
        assert(settings_view(r@) =~= backend_overrides(args.linux_backend).push(
            ("WEBKIT_DISABLE_DMABUF_RENDERER"@, "1"@),
        ));
    }
    r
}

// ---------- How webviews are hosted ----------------------------------------

/// What the environment says of the display, as read at launch.
pub struct HostEnv {
    /// Whether the browser runs on Linux.
    pub is_linux: bool,
    /// `WINIT_UNIX_BACKEND`, where it is set.
    pub forced_backend: Option<String>,
    /// `XDG_SESSION_TYPE`, empty where it is not set.
    pub session_type: String,
    /// Whether `WAYLAND_DISPLAY` is set.
    pub has_wayland_display: bool,
}

pub struct HostEnvView {
    pub is_linux: bool,
    pub forced_backend: Option<Seq<char>>,
    pub session_type: Seq<char>,
    pub has_wayland_display: bool,
}

impl View for HostEnv {
    type V = HostEnvView;

    open spec fn view(&self) -> HostEnvView {
        HostEnvView {
            is_linux: self.is_linux,
            forced_backend: crate::text::opt_chars(self.forced_backend),
            session_type: self.session_type@,
            has_wayland_display: self.has_wayland_display,
        }
    }
}

pub open spec fn spec_resolve_host_mode(backend: LinuxBackend, env: HostEnvView) -> HostMode {
    if !env.is_linux {
        HostMode::Child
    } else {
        match backend {
            LinuxBackend::X11 => HostMode::Child,
            LinuxBackend::Wayland => HostMode::Window,
            LinuxBackend::Auto => if env.forced_backend == Some("x11"@) {
                HostMode::Child
            } else if env.forced_backend == Some("wayland"@) {
                HostMode::Window
            } else if ascii_lower_seq(env.session_type) == "wayland"@ || env.has_wayland_display {
                HostMode::Window
            } else {
                HostMode::Child
            },
        }
    }
}

/// How content webviews are attached to the window: as children of it,
/// except on Linux under Wayland (asked for, forced for winit, or detected
/// from the session), where each gets a window of its own.
pub fn resolve_webview_host_mode(args: &Cli, env: &HostEnv) -> (m: HostMode)
    ensures
        m == spec_resolve_host_mode(args.linux_backend, env@),
{
    if !env.is_linux {
        return HostMode::Child;
    }
    match args.linux_backend {
        LinuxBackend::X11 => HostMode::Child,
        LinuxBackend::Wayland => HostMode::Window,
        LinuxBackend::Auto => {
            let x11 = chars_of("x11");
            let wayland = chars_of("wayland");
            if let Some(forced) = &env.forced_backend {
                let f = chars_of(forced.as_str());
                if chars_eq(&f, &x11) {
                    return HostMode::Child;
                }
                if chars_eq(&f, &wayland) {
                    return HostMode::Window;
                }
            }
            let session = ascii_lowercase(&chars_of(env.session_type.as_str()));
            if chars_eq(&session, &wayland) || env.has_wayland_display {
                HostMode::Window
            } else {
                HostMode::Child
            }
        },
    }
}

pub open spec fn spec_is_child_webview_unsupported_error(text: Seq<char>, is_linux: bool) -> bool {
    let lower = ascii_lower_seq(text);
    is_linux && (contains_seq(lower, "window handle kind is not supported"@) || (contains_seq(
        lower,
        "child"@,
    ) && contains_seq(lower, "not supported"@)))
}

/// Whether a failure to build a child webview says that this window system
/// cannot host one, so that a window of its own is to be tried instead.
/// Only Linux gives that answer.
pub fn is_child_webview_unsupported_error(err_text: &str, is_linux: bool) -> (r: bool)
    ensures
        r == spec_is_child_webview_unsupported_error(err_text@, is_linux),
{
    if !is_linux {
        return false;
    }
    let lower = ascii_lowercase(&chars_of(err_text));
    contains_chars(&lower, &chars_of("window handle kind is not supported")) || (contains_chars(
        &lower,
        &chars_of("child"),
    ) && contains_chars(&lower, &chars_of("not supported")))
}

} // verus!

verus! {

// ---------- Building a webview with a fallback ---------------------------------

/// How a webview is built: as a child of the window, or window-hosted.
#[derive(PartialEq, Eq, Structural, Clone, Copy, Debug)]
pub enum BuildAttempt {
    AsChild,
    AsWindow,
}

/// What follows a build attempt.
#[derive(PartialEq, Eq, Structural, Clone, Copy, Debug)]
pub enum BuildStep {
    /// Try this way next.
    Try(BuildAttempt),
    /// The webview is built, hosted this way.
    Built(HostMode),
    /// Building failed.
    Fail,
}

pub open spec fn spec_first_build_attempt(mode: HostMode) -> BuildAttempt {
    match mode {
        HostMode::Child => BuildAttempt::AsChild,
        HostMode::Window => BuildAttempt::AsWindow,
    }
}

/// The first way to build a webview: the way the browser hosts them.
pub fn first_build_attempt(mode: HostMode) -> (a: BuildAttempt)
    ensures
        a == spec_first_build_attempt(mode),
{
    match mode {
        HostMode::Child => BuildAttempt::AsChild,
        HostMode::Window => BuildAttempt::AsWindow,
    }
}

pub open spec fn spec_after_build_attempt(
    attempt: BuildAttempt,
    error: Option<Seq<char>>,
    is_linux: bool,
) -> BuildStep {
    match error {
        None => match attempt {
            BuildAttempt::AsChild => BuildStep::Built(HostMode::Child),
            BuildAttempt::AsWindow => BuildStep::Built(HostMode::Window),
        },
        Some(e) => match attempt {
            BuildAttempt::AsChild => if spec_is_child_webview_unsupported_error(e, is_linux) {
                BuildStep::Try(BuildAttempt::AsWindow)
            } else {
                BuildStep::Fail
            },
            BuildAttempt::AsWindow => BuildStep::Fail,
        },
    }
}

/// What follows an attempt that succeeded (`error` is `None`) or failed with
/// the message `error`: a built webview is hosted as attempted; a child that
/// this window system cannot host is tried window-hosted; any other failure
/// is final.
pub fn after_build_attempt(attempt: BuildAttempt, error: Option<&str>, is_linux: bool) -> (s:
    BuildStep)
    ensures
        s == spec_after_build_attempt(
            attempt,
            match error {
                Some(e) => Some(e@),
                None => None,
            },
            is_linux,
        ),
{
    match error {
        None => match attempt {
            BuildAttempt::AsChild => BuildStep::Built(HostMode::Child),
            BuildAttempt::AsWindow => BuildStep::Built(HostMode::Window),
        },
        Some(e) => match attempt {
            BuildAttempt::AsChild => if is_child_webview_unsupported_error(e, is_linux) {
                BuildStep::Try(BuildAttempt::AsWindow)
            } else {
                BuildStep::Fail
            },
            BuildAttempt::AsWindow => BuildStep::Fail,
        },
    }
}

/// A build never tries more than two ways, and a window-hosted attempt is
/// never followed by another.
pub proof fn law_build_tries_at_most_twice(mode: HostMode, e1: Option<Seq<char>>, e2: Option<Seq<char>>, is_linux: bool)
    ensures
        match spec_after_build_attempt(spec_first_build_attempt(mode), e1, is_linux) {
            BuildStep::Try(a) => a == BuildAttempt::AsWindow && !(spec_after_build_attempt(
                a,
                e2,
                is_linux,
            ) is Try),
            _ => true,
        },
{
}

} // verus!
