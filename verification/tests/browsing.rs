use rustywolf::browser::{
    parse_chrome_message, BrowserState, ChromeCommand, DownloadStatus, Effect, FileSize, HostMode,
    UserEvent,
};

fn ipc(s: &mut BrowserState, m: &str) -> Vec<Effect> {
    s.handle_event(UserEvent::ChromeIpc(m.to_string()), "1000")
}

fn built(s: &mut BrowserState) -> Vec<Effect> {
    assert!(s.awaiting_build().is_some());
    s.finish_build(Some(HostMode::Child))
}

fn has_build(fx: &[Effect], id: u32, url: &str) -> bool {
    fx.iter().any(|e| matches!(e, Effect::BuildWebview { tab_id, url: u } if *tab_id == id && u == url))
}

fn has_drop(fx: &[Effect], id: u32) -> bool {
    fx.iter().any(|e| matches!(e, Effect::DropWebview { tab_id } if *tab_id == id))
}

/// A browser with one loaded tab showing `url`.
fn browser(url: &str) -> BrowserState {
    let mut s = BrowserState::new(false, HostMode::Child);
    let fx = s.start(url.to_string());
    assert!(has_build(&fx, 1, url));
    assert_eq!(fx.len(), 1);
    built(&mut s);
    s
}

#[test]
fn first_tab_opens_after_its_webview_is_built() {
    let mut s = BrowserState::new(true, HostMode::Window);
    assert!(s.is_private());
    assert_eq!(s.chrome_height(), 84);
    let fx = s.start("https://duckduckgo.com".to_string());
    assert_eq!(s.awaiting_build(), Some(1));
    assert_eq!(s.next_id(), 2);
    assert!(s.tabs().is_empty());
    assert!(has_build(&fx, 1, "https://duckduckgo.com"));
    let fx = s.finish_build(Some(HostMode::Child));
    assert_eq!(s.host_mode(), HostMode::Child);
    assert_eq!(s.awaiting_build(), None);
    assert_eq!(s.tabs().len(), 1);
    assert_eq!(s.active_index(), 0);
    let t = &s.tabs()[0];
    assert_eq!((t.id, t.title.as_str(), t.url.as_str(), t.kir_enabled, t.loaded), (1, "New Tab", "https://duckduckgo.com", false, true));
    assert!(fx.iter().any(|e| matches!(e, Effect::SetVisible { tab_id: 1, visible: true })));
    assert!(fx.iter().any(|e| matches!(e, Effect::ChromeScript(c) if c.starts_with("window.__rustywolfSetTabs"))));
    assert!(fx.iter().any(|e| matches!(e, Effect::ChromeScript(c) if c.starts_with("window.__rustywolfSetDownloads"))));
    assert!(fx.iter().any(|e| matches!(e, Effect::ChromeScript(c) if c.starts_with("window.__rustywolfSetAdblock && "))));
    assert!(fx.iter().any(|e| matches!(e, Effect::ChromeScript(c) if c.starts_with("window.__rustywolfSetPopupPrompt"))));
}

#[test]
fn failed_builds_open_nothing() {
    let mut s = BrowserState::new(false, HostMode::Child);
    s.start("https://a.org".to_string());
    let fx = s.finish_build(None);
    assert!(fx.is_empty());
    assert!(s.tabs().is_empty());
    assert_eq!(s.awaiting_build(), None);
    assert_eq!(s.next_id(), 2);
}

#[test]
fn page_loads_are_recorded_in_history() {
    let mut s = browser("https://duckduckgo.com");
    let fx = s.handle_event(UserEvent::PageLoaded { tab_id: 1, url: "https://example.com/".into() }, "1700000000");
    assert_eq!(s.tabs()[0].url, "https://example.com/");
    assert_eq!(s.history().len(), 1);
    let h = &s.history()[0];
    assert_eq!((h.title.as_str(), h.url.as_str(), h.visited_at.as_str()), ("New Tab", "https://example.com/", "1700000000"));
    assert!(fx.iter().any(|e| matches!(e, Effect::TabScript { tab_id: 1, script } if script == "window.__rustywolfSetAdblockEnabled && window.__rustywolfSetAdblockEnabled(false);")));
    s.handle_event(UserEvent::PageLoaded { tab_id: 1, url: "about:blank".into() }, "1");
    s.handle_event(UserEvent::PageLoaded { tab_id: 1, url: "".into() }, "1");
    s.handle_event(UserEvent::PageLoaded { tab_id: 9, url: "https://x.org".into() }, "1");
    s.handle_event(UserEvent::PageLoaded { tab_id: 1, url: "data:text/html;base64,AAAA".into() }, "1");
    assert_eq!(s.history().len(), 1);
    assert_eq!(s.tabs()[0].url, "data:text/html;base64,AAAA");
}

#[test]
fn blank_titles_are_ignored() {
    let mut s = browser("https://duckduckgo.com");
    s.handle_event(UserEvent::TitleChanged { tab_id: 1, title: "   ".into() }, "1");
    assert_eq!(s.tabs()[0].title, "New Tab");
    s.handle_event(UserEvent::TitleChanged { tab_id: 1, title: "Example".into() }, "1");
    assert_eq!(s.tabs()[0].title, "Example");
    s.handle_event(UserEvent::PageLoaded { tab_id: 1, url: "https://a.org/".into() }, "7");
    assert_eq!(s.history()[0].title, "Example");
}

#[test]
fn history_keeps_the_newest_250_visits() {
    let mut s = browser("https://duckduckgo.com");
    for i in 0..260u32 {
        s.handle_event(UserEvent::PageLoaded { tab_id: 1, url: format!("https://h/{i}") }, &i.to_string());
    }
    assert_eq!(s.history().len(), 250);
    assert_eq!(s.history()[0].url, "https://h/10");
    assert_eq!(s.history()[249].url, "https://h/259");
}

#[test]
fn new_tabs_suspend_background_tabs_without_kir() {
    let mut s = browser("https://a.org");
    let fx = ipc(&mut s, "new_tab");
    assert!(has_build(&fx, 2, "https://duckduckgo.com"));
    let fx = built(&mut s);
    assert_eq!(s.tabs().len(), 2);
    assert_eq!(s.active_index(), 1);
    assert!(!s.tabs()[0].loaded);
    assert!(has_drop(&fx, 1));
    // Switching back rebuilds the first tab and suspends the second.
    let fx = ipc(&mut s, "switch_tab:1");
    assert!(has_build(&fx, 1, "https://a.org"));
    let fx = built(&mut s);
    assert_eq!(s.active_index(), 0);
    assert!(s.tabs()[0].loaded && !s.tabs()[1].loaded);
    assert!(has_drop(&fx, 2));
}

#[test]
fn kept_in_ram_tabs_stay_loaded() {
    let mut s = browser("https://a.org");
    ipc(&mut s, "toggle_kir:1");
    assert!(s.tabs()[0].kir_enabled);
    ipc(&mut s, "new_tab");
    built(&mut s);
    assert!(s.tabs()[0].loaded);
    let fx = ipc(&mut s, "switch_tab:1");
    assert!(fx.iter().all(|e| !matches!(e, Effect::BuildWebview { .. })));
    assert_eq!(s.active_index(), 0);
    assert!(!s.tabs()[1].loaded);
    // Turning K off on a background tab unloads it.
    ipc(&mut s, "switch_tab:2");
    built(&mut s);
    let fx = ipc(&mut s, "toggle_kir:1");
    assert!(!s.tabs()[0].kir_enabled && !s.tabs()[0].loaded);
    assert!(has_drop(&fx, 1));
}

#[test]
fn closing_tabs() {
    let mut s = browser("https://a.org");
    ipc(&mut s, "new_tab");
    built(&mut s);
    ipc(&mut s, "new_tab");
    built(&mut s);
    ipc(&mut s, "switch_tab:2");
    built(&mut s);
    assert_eq!(s.tabs()[s.active_index()].id, 2);
    // A background tab goes; the active one stays active.
    let fx = ipc(&mut s, "close_tab:1");
    assert_eq!(s.tabs().iter().map(|t| t.id).collect::<Vec<_>>(), vec![2, 3]);
    assert_eq!(s.tabs()[s.active_index()].id, 2);
    assert!(fx.iter().all(|e| !matches!(e, Effect::Quit)));
    // The active tab goes; its right-hand neighbour becomes active and is rebuilt.
    let fx = ipc(&mut s, "close_active_tab");
    assert_eq!(s.tabs().len(), 1);
    assert!(has_build(&fx, 3, "https://duckduckgo.com"));
    built(&mut s);
    assert_eq!(s.tabs()[s.active_index()].id, 3);
    assert!(ipc(&mut s, "close_tab:42").is_empty());
    let fx = ipc(&mut s, "close_tab:3");
    assert!(matches!(fx.as_slice(), [Effect::DropWebview { tab_id: 3 }, Effect::Quit]));
    assert!(s.tabs().is_empty());
}

#[test]
fn closing_a_tab_releases_its_webview() {
    let mut s = browser("https://a.org");
    ipc(&mut s, "toggle_kir:1");
    ipc(&mut s, "new_tab");
    built(&mut s);
    assert!(s.tabs()[0].loaded && s.tabs()[1].loaded);
    let fx = ipc(&mut s, "close_tab:1");
    assert!(matches!(fx.first(), Some(Effect::DropWebview { tab_id: 1 })));
    assert_eq!(fx.iter().filter(|e| matches!(e, Effect::DropWebview { .. })).count(), 1);
    // An unloaded tab has no webview to release.
    ipc(&mut s, "new_tab");
    built(&mut s);
    assert!(!s.tabs()[0].loaded);
    let fx = ipc(&mut s, "close_tab:2");
    assert!(fx.iter().all(|e| !matches!(e, Effect::DropWebview { .. })));
    let fx = ipc(&mut s, "close_active_tab");
    assert!(matches!(fx.as_slice(), [Effect::DropWebview { tab_id: 3 }, Effect::Quit]));
}

#[test]
fn events_that_take_a_tab_id() {
    let mut s = browser("https://a.org");
    assert!(s.event_allocates(&UserEvent::ChromeIpc("new_tab".into())));
    assert!(s.event_allocates(&UserEvent::ChromeIpc("open_properties".into())));
    assert!(!s.event_allocates(&UserEvent::ChromeIpc("popup_allow_yes".into())));
    assert!(!s.event_allocates(&UserEvent::ChromeIpc("toggle_adblock".into())));
    assert!(!s.event_allocates(&UserEvent::OpenInNewTab { url: "https://example.com/".into() }));
    s.handle_event(UserEvent::OpenInNewTab { url: "https://example.com/".into() }, "1");
    assert!(s.event_allocates(&UserEvent::ChromeIpc("popup_allow_yes".into())));
    ipc(&mut s, "popup_allow_yes");
    built(&mut s);
    assert!(s.event_allocates(&UserEvent::OpenInNewTab { url: "https://example.com/x".into() }));
    assert!(!s.event_allocates(&UserEvent::PageLoaded { tab_id: 1, url: "https://x/".into() }));
}

#[test]
fn navigation_from_the_url_bar() {
    let mut s = browser("https://a.org");
    let fx = ipc(&mut s, "navigate:rust webview");
    assert_eq!(s.tabs()[0].url, "https://duckduckgo.com/?q=rust+webview");
    assert_eq!(s.tabs()[0].title, "Loading\u{2026}");
    assert!(fx.iter().any(|e| matches!(e, Effect::LoadUrl { tab_id: 1, url } if url == "https://duckduckgo.com/?q=rust+webview")));
    assert!(matches!(ipc(&mut s, "back").as_slice(), [Effect::TabScript { tab_id: 1, script }] if script == "history.back();"));
    assert!(matches!(ipc(&mut s, "forward").as_slice(), [Effect::TabScript { tab_id: 1, script }] if script == "history.forward();"));
    assert!(matches!(ipc(&mut s, "reload").as_slice(), [Effect::TabScript { tab_id: 1, script }] if script == "location.reload();"));
    assert!(ipc(&mut s, "nonsense").is_empty());
}

#[test]
fn adblock_toggle() {
    let mut s = browser("https://a.org");
    let fx = ipc(&mut s, "toggle_adblock");
    assert!(s.adblock_enabled());
    assert!(fx.iter().any(|e| matches!(e, Effect::TabScript { tab_id: 1, script } if script.ends_with("(true);"))));
    assert!(fx.iter().any(|e| matches!(e, Effect::ChromeScript(c) if c == "window.__rustywolfSetAdblock && window.__rustywolfSetAdblock(true);")));
    // New tabs get the setting too.
    ipc(&mut s, "new_tab");
    let fx = built(&mut s);
    assert!(fx.iter().any(|e| matches!(e, Effect::TabScript { tab_id: 2, script } if script.ends_with("(true);"))));
    ipc(&mut s, "toggle_adblock");
    assert!(!s.adblock_enabled());
}

#[test]
fn downloads_panel_changes_the_bar_height() {
    let mut s = browser("https://a.org");
    let fx = ipc(&mut s, "toggle_downloads");
    assert!(s.downloads_panel_open());
    assert_eq!(s.chrome_height(), 188);
    assert!(matches!(fx.first(), Some(Effect::Reflow)));
    ipc(&mut s, "toggle_downloads");
    assert_eq!(s.chrome_height(), 84);
}

#[test]
fn popup_gate() {
    let mut s = browser("https://a.org");
    // A blocked target is ignored.
    assert!(s.handle_event(UserEvent::OpenInNewTab { url: "https://duckduckgo.com/post3.html".into() }, "1").is_empty());
    // An unknown host is asked about.
    let fx = s.handle_event(UserEvent::OpenInNewTab { url: " https://example.com/page ".into() }, "1");
    let p = s.pending_popup().as_ref().unwrap();
    assert_eq!((p.url.as_str(), p.host.as_str()), ("https://example.com/page", "example.com"));
    assert_eq!(s.chrome_height(), 128);
    assert!(fx.iter().any(|e| matches!(e, Effect::Reflow)));
    assert!(fx.iter().all(|e| !matches!(e, Effect::BuildWebview { .. })));
    // One question at a time.
    assert!(s.handle_event(UserEvent::OpenInNewTab { url: "https://other.org/".into() }, "1").is_empty());
    // Yes: the host is allowed and the tab opens.
    let fx = ipc(&mut s, "popup_allow_yes");
    assert!(s.pending_popup().is_none());
    assert_eq!(s.popup_allow_hosts().clone(), vec!["example.com".to_string()]);
    assert!(has_build(&fx, 2, "https://example.com/page"));
    built(&mut s);
    assert_eq!(s.tabs().len(), 2);
    // The same host now opens tabs without asking.
    let fx = s.handle_event(UserEvent::OpenInNewTab { url: "https://example.com/other".into() }, "1");
    assert!(has_build(&fx, 3, "https://example.com/other"));
    assert!(s.pending_popup().is_none());
    built(&mut s);
    // No: the question goes and nothing opens.
    s.handle_event(UserEvent::OpenInNewTab { url: "https://other.org/".into() }, "1");
    let fx = ipc(&mut s, "popup_allow_no");
    assert!(s.pending_popup().is_none());
    assert_eq!(s.popup_allow_hosts().len(), 1);
    assert!(fx.iter().all(|e| !matches!(e, Effect::BuildWebview { .. })));
}

#[test]
fn downloads_progress() {
    let mut s = browser("https://a.org");
    s.handle_event(UserEvent::DownloadStarted { url: "https://a.org/f.zip".into(), file_path: "/d/f.zip".into() }, "10");
    assert_eq!(s.downloads().len(), 1);
    assert_eq!(s.downloads()[0].status, DownloadStatus::InProgress);
    assert_eq!(s.downloads()[0].updated_at, "10");
    s.handle_event(UserEvent::DownloadTotal { file_path: "/d/f.zip".into(), total_bytes: Some(100) }, "11");
    assert_eq!(s.downloads()[0].total_bytes, Some(100));
    let fx = s.handle_event(UserEvent::DownloadTick { sizes: vec![FileSize { path: "/d/f.zip".into(), bytes: 40 }] }, "12");
    assert_eq!(s.downloads()[0].downloaded_bytes, 40);
    assert_eq!(fx.len(), 1);
    let fx = s.handle_event(UserEvent::DownloadTick { sizes: vec![FileSize { path: "/d/f.zip".into(), bytes: 40 }] }, "13");
    assert!(fx.is_empty());
    s.handle_event(
        UserEvent::DownloadCompleted { url: "https://a.org/f.zip".into(), file_path: Some("/d/f.zip".into()), success: true, size_on_disk: Some(100) },
        "14",
    );
    let d = &s.downloads()[0];
    assert_eq!((d.status, d.downloaded_bytes, d.updated_at.as_str()), (DownloadStatus::Completed, 100, "14"));
    // A completion with no matching download is recorded as a new entry.
    s.handle_event(
        UserEvent::DownloadCompleted { url: "https://b.org/g".into(), file_path: None, success: false, size_on_disk: None },
        "15",
    );
    let d = &s.downloads()[1];
    assert_eq!((d.file_path.as_str(), d.status, d.downloaded_bytes), ("Unknown destination", DownloadStatus::Failed, 0));
}

#[test]
fn downloads_keep_the_newest_200() {
    let mut s = browser("https://a.org");
    for i in 0..205 {
        s.handle_event(UserEvent::DownloadStarted { url: format!("https://a/{i}"), file_path: format!("/d/{i}") }, "1");
    }
    assert_eq!(s.downloads().len(), 200);
    assert_eq!(s.downloads()[0].url, "https://a/5");
}

#[test]
fn properties_open_in_a_new_tab() {
    let mut s = browser("https://a.org");
    s.handle_event(UserEvent::PageLoaded { tab_id: 1, url: "https://example.com/".into() }, "5");
    let fx = ipc(&mut s, "open_properties");
    assert!(fx.iter().any(|e| matches!(e, Effect::BuildWebview { tab_id: 2, url } if url.starts_with("data:text/html;base64,"))));
    built(&mut s);
    assert_eq!(s.tabs()[1].title, "Properties");
}

#[test]
fn reads_chrome_messages() {
    assert!(matches!(parse_chrome_message("navigate:example.com"), ChromeCommand::Navigate(u) if u == "example.com"));
    assert!(matches!(parse_chrome_message("switch_tab:12"), ChromeCommand::SwitchTab(12)));
    assert!(matches!(parse_chrome_message("close_tab:+3"), ChromeCommand::CloseTab(3)));
    assert!(matches!(parse_chrome_message("toggle_kir:x"), ChromeCommand::Ignored));
    assert!(matches!(parse_chrome_message("switch_tab:4294967296"), ChromeCommand::Ignored));
    assert!(matches!(parse_chrome_message("popup_allow_yes"), ChromeCommand::PopupAllowYes));
    assert!(matches!(parse_chrome_message("back "), ChromeCommand::Ignored));
}
