use rustywolf::cli::{Cli, CliError, CliOption, CliRequest, LinuxBackend};
use rustywolf::launch::{
    dry_run_report, is_child_webview_unsupported_error, linux_runtime_overrides,
    resolve_webview_host_mode, start_url, window_title, HostEnv,
};
use rustywolf::browser::HostMode;
use rustywolf::launch::{after_build_attempt, first_build_attempt, BuildAttempt, BuildStep};

fn args(list: &[&str]) -> Vec<String> {
    let mut v = vec!["rustywolf".to_string()];
    v.extend(list.iter().map(|s| s.to_string()));
    v
}

fn run(list: &[&str]) -> Cli {
    match Cli::parse_args(&args(list)) {
        Ok(CliRequest::Run(cli)) => cli,
        Ok(_) => panic!("expected settings for {list:?}"),
        Err(e) => panic!("unexpected error for {list:?}: {e:?}"),
    }
}

fn error(list: &[&str]) -> CliError {
    match Cli::parse_args(&args(list)) {
        Err(e) => e,
        Ok(_) => panic!("expected an error for {list:?}"),
    }
}

#[test]
fn no_arguments_give_the_defaults() {
    let cli = run(&[]);
    assert_eq!(cli.url, None);
    assert_eq!(cli.title, None);
    assert!(!cli.private);
    assert!(!cli.dry_run);
    assert_eq!(cli.linux_backend, LinuxBackend::Auto);
    assert!(!cli.linux_disable_dmabuf);
}

#[test]
fn reads_every_option() {
    let cli = run(&[
        "--url",
        "example.com",
        "--title=My Wolf",
        "--private",
        "--dry-run",
        "--linux-backend",
        "x11",
        "--linux-disable-dmabuf",
    ]);
    assert_eq!(cli.url.as_deref(), Some("example.com"));
    assert_eq!(cli.title.as_deref(), Some("My Wolf"));
    assert!(cli.private);
    assert!(cli.dry_run);
    assert_eq!(cli.linux_backend, LinuxBackend::X11);
    assert!(cli.linux_disable_dmabuf);
    assert_eq!(run(&["--linux-backend=wayland"]).linux_backend, LinuxBackend::Wayland);
    assert_eq!(run(&["--linux-backend", "auto"]).linux_backend, LinuxBackend::Auto);
}

#[test]
fn values_may_look_like_anything_but_options() {
    assert_eq!(run(&["--url", "-"]).url.as_deref(), Some("-"));
    assert_eq!(run(&["--url="]).url.as_deref(), Some(""));
    assert_eq!(run(&["--url=a=b"]).url.as_deref(), Some("a=b"));
}

#[test]
fn help_and_version() {
    assert!(matches!(Cli::parse_args(&args(&["--help"])), Ok(CliRequest::Help)));
    assert!(matches!(Cli::parse_args(&args(&["-h"])), Ok(CliRequest::Help)));
    assert!(matches!(Cli::parse_args(&args(&["--version"])), Ok(CliRequest::Version)));
    assert!(matches!(Cli::parse_args(&args(&["-V"])), Ok(CliRequest::Version)));
    assert!(matches!(Cli::parse_args(&args(&["--private", "--help"])), Ok(CliRequest::Help)));
}

#[test]
fn refuses_what_it_does_not_know() {
    assert!(matches!(error(&["--incognito"]), CliError::UnknownArgument(a) if a == "--incognito"));
    assert!(matches!(error(&["-x"]), CliError::UnknownArgument(a) if a == "-x"));
    assert!(matches!(error(&["example.com"]), CliError::UnexpectedArgument(a) if a == "example.com"));
    assert!(matches!(error(&["--", "--private"]), CliError::UnexpectedArgument(a) if a == "--private"));
}

#[test]
fn refuses_bad_values() {
    assert!(matches!(error(&["--url"]), CliError::MissingValue(CliOption::Url)));
    assert!(matches!(error(&["--title", "--private"]), CliError::MissingValue(CliOption::Title)));
    assert!(matches!(
        error(&["--linux-backend", "mir"]),
        CliError::InvalidValue(CliOption::LinuxBackend, v) if v == "mir"
    ));
    assert!(matches!(
        error(&["--linux-backend=X11"]),
        CliError::InvalidValue(CliOption::LinuxBackend, v) if v == "X11"
    ));
    assert!(matches!(
        error(&["--private=yes"]),
        CliError::UnexpectedValue(CliOption::Private, v) if v == "yes"
    ));
    assert!(matches!(error(&["--private", "--private"]), CliError::RepeatedArgument(CliOption::Private)));
    assert!(matches!(error(&["--url", "a", "--url", "b"]), CliError::RepeatedArgument(CliOption::Url)));
}

#[test]
fn start_page_and_title() {
    assert_eq!(start_url(&run(&[])), "https://duckduckgo.com");
    assert_eq!(start_url(&run(&["--url", "example.com"])), "https://example.com");
    assert_eq!(start_url(&run(&["--url", "rust webview"])), "https://duckduckgo.com/?q=rust+webview");
    assert_eq!(window_title(&run(&[])), "RustyWolf");
    assert_eq!(window_title(&run(&["--title", "Den"])), "Den");
}

#[test]
fn dry_run_reports_the_settings() {
    let cli = run(&["--dry-run", "--url", "example.com", "--linux-backend", "wayland"]);
    let url = start_url(&cli);
    assert_eq!(
        dry_run_report(&cli, &url),
        "engine=webkit url=https://example.com private=false linux_backend=Wayland linux_disable_dmabuf=false"
    );
    let cli = run(&["--private", "--linux-disable-dmabuf"]);
    assert_eq!(
        dry_run_report(&cli, "https://duckduckgo.com"),
        "engine=webkit url=https://duckduckgo.com private=true linux_backend=Auto linux_disable_dmabuf=true"
    );
}

fn pairs(cli: &Cli, is_linux: bool) -> Vec<(String, String)> {
    linux_runtime_overrides(cli, is_linux).into_iter().map(|e| (e.name, e.value)).collect()
}

#[test]
fn environment_overrides_on_linux() {
    let p = |a: &str, b: &str| (a.to_string(), b.to_string());
    assert_eq!(pairs(&run(&[]), true), vec![]);
    assert_eq!(
        pairs(&run(&["--linux-backend", "x11", "--linux-disable-dmabuf"]), true),
        vec![
            p("WINIT_UNIX_BACKEND", "x11"),
            p("GDK_BACKEND", "x11"),
            p("WEBKIT_DISABLE_DMABUF_RENDERER", "1")
        ]
    );
    assert_eq!(
        pairs(&run(&["--linux-backend", "wayland"]), true),
        vec![p("WINIT_UNIX_BACKEND", "wayland"), p("GDK_BACKEND", "wayland")]
    );
    assert_eq!(pairs(&run(&["--linux-disable-dmabuf"]), true), vec![p("WEBKIT_DISABLE_DMABUF_RENDERER", "1")]);
    assert_eq!(pairs(&run(&["--linux-backend", "x11", "--linux-disable-dmabuf"]), false), vec![]);
}

fn env(forced: Option<&str>, session: &str, wayland_display: bool) -> HostEnv {
    HostEnv {
        is_linux: true,
        forced_backend: forced.map(|s| s.to_string()),
        session_type: session.to_string(),
        has_wayland_display: wayland_display,
    }
}

#[test]
fn chooses_how_webviews_are_hosted() {
    let auto = run(&[]);
    assert_eq!(resolve_webview_host_mode(&run(&["--linux-backend", "x11"]), &env(None, "wayland", true)), HostMode::Child);
    assert_eq!(resolve_webview_host_mode(&run(&["--linux-backend", "wayland"]), &env(None, "x11", false)), HostMode::Window);
    assert_eq!(resolve_webview_host_mode(&auto, &env(Some("x11"), "wayland", true)), HostMode::Child);
    assert_eq!(resolve_webview_host_mode(&auto, &env(Some("wayland"), "x11", false)), HostMode::Window);
    assert_eq!(resolve_webview_host_mode(&auto, &env(Some("X11"), "x11", false)), HostMode::Child);
    assert_eq!(resolve_webview_host_mode(&auto, &env(None, "WayLand", false)), HostMode::Window);
    assert_eq!(resolve_webview_host_mode(&auto, &env(None, "", true)), HostMode::Window);
    assert_eq!(resolve_webview_host_mode(&auto, &env(None, "x11", false)), HostMode::Child);
    let mut elsewhere = env(None, "wayland", true);
    elsewhere.is_linux = false;
    assert_eq!(resolve_webview_host_mode(&run(&["--linux-backend", "wayland"]), &elsewhere), HostMode::Child);
}

#[test]
fn recognises_unsupported_child_webviews() {
    assert!(is_child_webview_unsupported_error("The Window Handle Kind is not supported", true));
    assert!(is_child_webview_unsupported_error("Child webviews are NOT SUPPORTED here", true));
    assert!(!is_child_webview_unsupported_error("child failed", true));
    assert!(!is_child_webview_unsupported_error("not supported", true));
    assert!(!is_child_webview_unsupported_error("window handle kind is not supported", false));
}

#[test]
fn builds_fall_back_from_child_to_window() {
    assert_eq!(first_build_attempt(HostMode::Child), BuildAttempt::AsChild);
    assert_eq!(first_build_attempt(HostMode::Window), BuildAttempt::AsWindow);
    assert_eq!(after_build_attempt(BuildAttempt::AsChild, None, true), BuildStep::Built(HostMode::Child));
    assert_eq!(after_build_attempt(BuildAttempt::AsWindow, None, true), BuildStep::Built(HostMode::Window));
    assert_eq!(
        after_build_attempt(BuildAttempt::AsChild, Some("the window handle kind is not supported"), true),
        BuildStep::Try(BuildAttempt::AsWindow)
    );
    assert_eq!(after_build_attempt(BuildAttempt::AsChild, Some("the window handle kind is not supported"), false), BuildStep::Fail);
    assert_eq!(after_build_attempt(BuildAttempt::AsChild, Some("out of memory"), true), BuildStep::Fail);
    assert_eq!(after_build_attempt(BuildAttempt::AsWindow, Some("child not supported"), true), BuildStep::Fail);
}
