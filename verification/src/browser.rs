//! The browser's state and its decisions.
//!
//! `BrowserState` holds what the browser knows of its tabs, its session history,
//! its downloads and the popup gate, as plain values. It never touches a window
//! or a webview: each step returns the `Effect`s that the shell performs, in
//! order. Where a step needs a new webview it ends with `Effect::BuildWebview`;
//! the shell builds it and reports the outcome to `finish_build`, which carries
//! out the rest of the step.

use vstd::prelude::*;
use crate::text::{
    chars_eq, chars_of, opt_chars, parse_u32, parse_u32_chars, starts_with, starts_with_chars,
    string_of_range, trim, trimmed,
};
use crate::address::{
    host_of, internal_page_prefix, is_internal_page, normalize_url, should_open_new_tab_url,
    spec_host_of, spec_normalize_url, spec_should_open_new_tab_url,
};

verus! {

/// The most visits the session history keeps.
pub const MAX_HISTORY_ENTRIES: usize = 250;

/// The most downloads the session keeps.
pub const MAX_DOWNLOAD_ENTRIES: usize = 200;

/// How content webviews are attached to the window.
#[derive(PartialEq, Eq, Structural, Clone, Copy, Debug)]
pub enum HostMode {
    Child,
    Window,
}

#[derive(PartialEq, Eq, Structural, Clone, Copy, Debug)]
pub enum DownloadStatus {
    InProgress,
    Completed,
    Failed,
}

pub open spec fn status_text(s: DownloadStatus) -> Seq<char> {
    match s {
        DownloadStatus::InProgress => "In progress"@,
        DownloadStatus::Completed => "Completed"@,
        DownloadStatus::Failed => "Failed"@,
    }
}

/// The label a download's status is shown with.
pub fn status_label(s: DownloadStatus) -> (r: &'static str)
    ensures
        r@ == status_text(s),
{
    match s {
        DownloadStatus::InProgress => "In progress",
        DownloadStatus::Completed => "Completed",
        DownloadStatus::Failed => "Failed",
    }
}

// ---------- State ---------------------------------------------------------

#[derive(Debug)]
pub struct Tab {
    pub id: u32,
    pub title: String,
    pub url: String,
    /// "Keep in RAM": the tab's page stays loaded while the tab is in the background.
    pub kir_enabled: bool,
    /// Whether the tab has a live webview.
    pub loaded: bool,
}

#[verifier::ext_equal]
pub struct TabView {
    pub id: u32,
    pub title: Seq<char>,
    pub url: Seq<char>,
    pub kir_enabled: bool,
    pub loaded: bool,
}

impl View for Tab {
    type V = TabView;

    open spec fn view(&self) -> TabView {
        TabView {
            id: self.id,
            title: self.title@,
            url: self.url@,
            kir_enabled: self.kir_enabled,
            loaded: self.loaded,
        }
    }
}

#[derive(Debug)]
pub struct HistoryEntry {
    pub title: String,
    pub url: String,
    pub visited_at: String,
}

#[verifier::ext_equal]
pub struct HistoryView {
    pub title: Seq<char>,
    pub url: Seq<char>,
    pub visited_at: Seq<char>,
}

impl View for HistoryEntry {
    type V = HistoryView;

    open spec fn view(&self) -> HistoryView {
        HistoryView { title: self.title@, url: self.url@, visited_at: self.visited_at@ }
    }
}

#[derive(Debug)]
pub struct DownloadEntry {
    pub url: String,
    pub file_path: String,
    pub status: DownloadStatus,
    pub downloaded_bytes: u64,
    pub total_bytes: Option<u64>,
    pub updated_at: String,
}

#[verifier::ext_equal]
pub struct DownloadView {
    pub url: Seq<char>,
    pub file_path: Seq<char>,
    pub status: DownloadStatus,
    pub downloaded_bytes: u64,
    pub total_bytes: Option<u64>,
    pub updated_at: Seq<char>,
}

impl View for DownloadEntry {
    type V = DownloadView;

    open spec fn view(&self) -> DownloadView {
        DownloadView {
            url: self.url@,
            file_path: self.file_path@,
            status: self.status,
            downloaded_bytes: self.downloaded_bytes,
            total_bytes: self.total_bytes,
            updated_at: self.updated_at@,
        }
    }
}

pub open spec fn in_progress(d: DownloadView) -> bool {
    d.status == DownloadStatus::InProgress
}

/// A page's request to open a new tab, waiting for the user's answer.
#[derive(Debug)]
pub struct PendingPopup {
    pub url: String,
    pub host: String,
}

#[verifier::ext_equal]
pub struct PopupView {
    pub url: Seq<char>,
    pub host: Seq<char>,
}

impl View for PendingPopup {
    type V = PopupView;

    open spec fn view(&self) -> PopupView {
        PopupView { url: self.url@, host: self.host@ }
    }
}

pub open spec fn popup_view(p: Option<PendingPopup>) -> Option<PopupView> {
    match p {
        Some(p) => Some(p@),
        None => None,
    }
}

/// What a step does once the tab it waits for has its webview.
pub enum AfterLoad {
    /// Point the active tab at this URL.
    Navigate(String),
    /// The active tab was switched.
    Switched,
    /// A tab was closed.
    Closed,
}

#[verifier::ext_equal]
pub enum AfterLoadView {
    Navigate(Seq<char>),
    Switched,
    Closed,
}

impl View for AfterLoad {
    type V = AfterLoadView;

    open spec fn view(&self) -> AfterLoadView {
        match self {
            AfterLoad::Navigate(u) => AfterLoadView::Navigate(u@),
            AfterLoad::Switched => AfterLoadView::Switched,
            AfterLoad::Closed => AfterLoadView::Closed,
        }
    }
}

/// Why a webview is being built.
pub enum BuildPurpose {
    /// A new tab showing `url`; `title` replaces its title once it is open.
    NewTab { url: String, title: Option<String> },
    /// The existing tab at `index`, which has no webview.
    LoadTab { index: usize, then: AfterLoad },
}

#[verifier::ext_equal]
pub enum BuildPurposeView {
    NewTab { url: Seq<char>, title: Option<Seq<char>> },
    LoadTab { index: int, then: AfterLoadView },
}

impl View for BuildPurpose {
    type V = BuildPurposeView;

    open spec fn view(&self) -> BuildPurposeView {
        match self {
            BuildPurpose::NewTab { url, title } => BuildPurposeView::NewTab {
                url: url@,
                title: opt_chars(*title),
            },
            BuildPurpose::LoadTab { index, then } => BuildPurposeView::LoadTab {
                index: *index as int,
                then: then@,
            },
        }
    }
}

pub struct PendingBuild {
    pub tab_id: u32,
    pub purpose: BuildPurpose,
}

#[verifier::ext_equal]
pub struct PendingBuildView {
    pub tab_id: u32,
    pub purpose: BuildPurposeView,
}

impl View for PendingBuild {
    type V = PendingBuildView;

    open spec fn view(&self) -> PendingBuildView {
        PendingBuildView { tab_id: self.tab_id, purpose: self.purpose@ }
    }
}

pub open spec fn build_view(b: Option<PendingBuild>) -> Option<PendingBuildView> {
    match b {
        Some(b) => Some(b@),
        None => None,
    }
}

/// Everything the browser decides on, as plain values.
pub struct BrowserState {
    tabs: Vec<Tab>,
    history: Vec<HistoryEntry>,
    downloads: Vec<DownloadEntry>,
    adblock_enabled: bool,
    /// The hosts allowed to open tabs, as a set: a `Vec` in which no host
    /// occurs twice (`hosts_unique`). std's `HashSet` has no specification
    /// in vstd for `String` keys, so a set of them could not be reasoned
    /// about here.
    popup_allow_hosts: Vec<String>,
    pending_popup: Option<PendingPopup>,
    downloads_panel_open: bool,
    active: usize,
    next_id: u32,
    private: bool,
    host_mode: HostMode,
    awaiting: Option<PendingBuild>,
}

#[verifier::ext_equal]
pub struct StateView {
    pub tabs: Seq<TabView>,
    pub history: Seq<HistoryView>,
    pub downloads: Seq<DownloadView>,
    pub adblock_enabled: bool,
    pub popup_allow_hosts: Seq<Seq<char>>,
    pub pending_popup: Option<PopupView>,
    pub downloads_panel_open: bool,
    pub active: int,
    pub next_id: u32,
    pub private: bool,
    pub host_mode: HostMode,
    pub awaiting: Option<PendingBuildView>,
}

pub open spec fn tabs_view(s: Seq<Tab>) -> Seq<TabView> {
    s.map_values(|t: Tab| t@)
}

pub open spec fn history_view(s: Seq<HistoryEntry>) -> Seq<HistoryView> {
    s.map_values(|e: HistoryEntry| e@)
}

pub open spec fn downloads_view(s: Seq<DownloadEntry>) -> Seq<DownloadView> {
    s.map_values(|e: DownloadEntry| e@)
}

pub open spec fn strings_view(s: Seq<String>) -> Seq<Seq<char>> {
    s.map_values(|e: String| e@)
}

impl View for BrowserState {
    type V = StateView;

    closed spec fn view(&self) -> StateView {
        StateView {
            tabs: tabs_view(self.tabs@),
            history: history_view(self.history@),
            downloads: downloads_view(self.downloads@),
            adblock_enabled: self.adblock_enabled,
            popup_allow_hosts: strings_view(self.popup_allow_hosts@),
            pending_popup: popup_view(self.pending_popup),
            downloads_panel_open: self.downloads_panel_open,
            active: self.active as int,
            next_id: self.next_id,
            private: self.private,
            host_mode: self.host_mode,
            awaiting: build_view(self.awaiting),
        }
    }
}

/// Tab ids are all below the next id to hand out, and no two tabs share one.
pub open spec fn tabs_ok(tabs: Seq<TabView>, next_id: u32) -> bool {
    &&& forall|i: int| 0 <= i < tabs.len() ==> #[trigger] tabs[i].id < next_id
    &&& forall|i: int, j: int|
        0 <= i < tabs.len() && 0 <= j < tabs.len() && i != j ==> #[trigger] tabs[i].id
            != #[trigger] tabs[j].id
}

/// No host is listed twice among those allowed to open tabs.
pub open spec fn hosts_unique(h: Seq<Seq<char>>) -> bool {
    forall|i: int, j: int|
        0 <= i < h.len() && 0 <= j < h.len() && i != j ==> #[trigger] h[i] != #[trigger] h[j]
}

/// The webview the browser waits for is a new tab's, with a fresh id, or an
/// existing tab's that has none.
pub open spec fn awaiting_ok(s: StateView) -> bool {
    match s.awaiting {
        None => true,
        Some(b) => match b.purpose {
            BuildPurposeView::NewTab { .. } => b.tab_id < s.next_id && forall|i: int|
                0 <= i < s.tabs.len() ==> #[trigger] s.tabs[i].id != b.tab_id,
            BuildPurposeView::LoadTab { index, .. } => 0 <= index < s.tabs.len()
                && s.tabs[index].id == b.tab_id && !s.tabs[index].loaded,
        },
    }
}

/// The state's invariant.
pub open spec fn state_wf(s: StateView) -> bool {
    &&& active_ok(s)
    &&& tabs_ok(s.tabs, s.next_id)
    &&& s.history.len() <= MAX_HISTORY_ENTRIES
    &&& s.downloads.len() <= MAX_DOWNLOAD_ENTRIES
    &&& hosts_unique(s.popup_allow_hosts)
    &&& awaiting_ok(s)
}

/// The active tab is a tab, while there are tabs.
pub open spec fn active_ok(s: StateView) -> bool {
    &&& 0 <= s.active
    &&& s.tabs.len() > 0 ==> s.active < s.tabs.len()
}

/// The height of the browser's own bar, in logical pixels: the tab and URL
/// rows, plus the downloads panel and the popup question when they show.
pub open spec fn spec_chrome_height(s: StateView) -> int {
    84 + (if s.downloads_panel_open {
        104int
    } else {
        0int
    }) + (if s.pending_popup is Some {
        44int
    } else {
        0int
    })
}

// ---------- Effects -------------------------------------------------------

/// What the shell does for the browser.
#[derive(Debug)]
pub enum Effect {
    /// Run a script in the chrome page.
    ChromeScript(String),
    /// Run a script in a tab's page (the tab has a webview).
    TabScript { tab_id: u32, script: String },
    /// Navigate a tab's webview.
    LoadUrl { tab_id: u32, url: String },
    /// Show or hide a tab's webview.
    SetVisible { tab_id: u32, visible: bool },
    /// Drop a tab's webview (the tab stays, unloaded).
    DropWebview { tab_id: u32 },
    /// Lay out the chrome and the tabs again (`chrome_height` may have changed).
    Reflow,
    /// Build a webview for a tab showing `url`, then report to `finish_build`.
    BuildWebview { tab_id: u32, url: String },
    /// The last tab was closed: leave the event loop.
    Quit,
}

#[verifier::ext_equal]
pub enum EffectView {
    ChromeScript(Seq<char>),
    TabScript { tab_id: u32, script: Seq<char> },
    LoadUrl { tab_id: u32, url: Seq<char> },
    SetVisible { tab_id: u32, visible: bool },
    DropWebview { tab_id: u32 },
    Reflow,
    BuildWebview { tab_id: u32, url: Seq<char> },
    Quit,
}

impl View for Effect {
    type V = EffectView;

    open spec fn view(&self) -> EffectView {
        match self {
            Effect::ChromeScript(s) => EffectView::ChromeScript(s@),
            Effect::TabScript { tab_id, script } => EffectView::TabScript {
                tab_id: *tab_id,
                script: script@,
            },
            Effect::LoadUrl { tab_id, url } => EffectView::LoadUrl { tab_id: *tab_id, url: url@ },
            Effect::SetVisible { tab_id, visible } => EffectView::SetVisible {
                tab_id: *tab_id,
                visible: *visible,
            },
            Effect::DropWebview { tab_id } => EffectView::DropWebview { tab_id: *tab_id },
            Effect::Reflow => EffectView::Reflow,
            Effect::BuildWebview { tab_id, url } => EffectView::BuildWebview {
                tab_id: *tab_id,
                url: url@,
            },
            Effect::Quit => EffectView::Quit,
        }
    }
}

pub open spec fn fx_view(v: Seq<Effect>) -> Seq<EffectView> {
    v.map_values(|e: Effect| e@)
}

fn emit(out: &mut Vec<Effect>, e: Effect)
    ensures
        fx_view(final(out)@) == fx_view(old(out)@).push(e@),
{
    out.push(e);
    assert(fx_view(out@) =~= fx_view(old(out)@).push(e@));
}

} // verus!

verus! {

// ---------- Events ---------------------------------------------------------

/// How big a download's file is on disk.
#[derive(Debug)]
pub struct FileSize {
    pub path: String,
    pub bytes: u64,
}

#[verifier::ext_equal]
pub struct FileSizeView {
    pub path: Seq<char>,
    pub bytes: u64,
}

impl View for FileSize {
    type V = FileSizeView;

    open spec fn view(&self) -> FileSizeView {
        FileSizeView { path: self.path@, bytes: self.bytes }
    }
}

pub open spec fn sizes_view(s: Seq<FileSize>) -> Seq<FileSizeView> {
    s.map_values(|f: FileSize| f@)
}

/// What happens to the browser.
#[derive(Debug)]
#[allow(inconsistent_fields)]
pub enum UserEvent {
    /// A message from the chrome page.
    ChromeIpc(String),
    /// A tab's page changed its title.
    TitleChanged { tab_id: u32, title: String },
    /// A tab finished loading `url`.
    PageLoaded { tab_id: u32, url: String },
    /// A download began, saving to `file_path`.
    DownloadStarted { url: String, file_path: String },
    /// The server announced a download's size (or did not).
    DownloadTotal { file_path: String, total_bytes: Option<u64> },
    /// The periodic progress check: the sizes of download files found on disk.
    DownloadTick { sizes: Vec<FileSize> },
    /// A download ended; `size_on_disk` is the size of the file it ended with, if found.
    DownloadCompleted {
        url: String,
        file_path: Option<String>,
        success: bool,
        size_on_disk: Option<u64>,
    },
    /// A page asked to open `url` in a new tab.
    OpenInNewTab { url: String },
    /// The browser is asked to leave (handled by the event loop itself).
    Quit,
}

#[verifier::ext_equal]
#[allow(inconsistent_fields)]
pub enum EventView {
    ChromeIpc(Seq<char>),
    TitleChanged { tab_id: u32, title: Seq<char> },
    PageLoaded { tab_id: u32, url: Seq<char> },
    DownloadStarted { url: Seq<char>, file_path: Seq<char> },
    DownloadTotal { file_path: Seq<char>, total_bytes: Option<u64> },
    DownloadTick { sizes: Seq<FileSizeView> },
    DownloadCompleted {
        url: Seq<char>,
        file_path: Option<Seq<char>>,
        success: bool,
        size_on_disk: Option<u64>,
    },
    OpenInNewTab { url: Seq<char> },
    Quit,
}

impl View for UserEvent {
    type V = EventView;

    open spec fn view(&self) -> EventView {
        match self {
            UserEvent::ChromeIpc(m) => EventView::ChromeIpc(m@),
            UserEvent::TitleChanged { tab_id, title } => EventView::TitleChanged {
                tab_id: *tab_id,
                title: title@,
            },
            UserEvent::PageLoaded { tab_id, url } => EventView::PageLoaded {
                tab_id: *tab_id,
                url: url@,
            },
            UserEvent::DownloadStarted { url, file_path } => EventView::DownloadStarted {
                url: url@,
                file_path: file_path@,
            },
            UserEvent::DownloadTotal { file_path, total_bytes } => EventView::DownloadTotal {
                file_path: file_path@,
                total_bytes: *total_bytes,
            },
            UserEvent::DownloadTick { sizes } => EventView::DownloadTick { sizes: sizes_view(sizes@) },
            UserEvent::DownloadCompleted { url, file_path, success, size_on_disk } =>
                EventView::DownloadCompleted {
                url: url@,
                file_path: opt_chars(*file_path),
                success: *success,
                size_on_disk: *size_on_disk,
            },
            UserEvent::OpenInNewTab { url } => EventView::OpenInNewTab { url: url@ },
            UserEvent::Quit => EventView::Quit,
        }
    }
}

/// A message of the chrome page, read.
#[derive(Debug)]
pub enum ChromeCommand {
    Navigate(String),
    Back,
    Forward,
    Reload,
    NewTab,
    OpenProperties,
    ToggleDownloads,
    PopupAllowYes,
    PopupAllowNo,
    ToggleAdblock,
    CloseActiveTab,
    ToggleKir(u32),
    SwitchTab(u32),
    CloseTab(u32),
    /// Not a message the browser acts on.
    Ignored,
}

#[verifier::ext_equal]
pub enum CommandView {
    Navigate(Seq<char>),
    Back,
    Forward,
    Reload,
    NewTab,
    OpenProperties,
    ToggleDownloads,
    PopupAllowYes,
    PopupAllowNo,
    ToggleAdblock,
    CloseActiveTab,
    ToggleKir(u32),
    SwitchTab(u32),
    CloseTab(u32),
    Ignored,
}

impl View for ChromeCommand {
    type V = CommandView;

    open spec fn view(&self) -> CommandView {
        match self {
            ChromeCommand::Navigate(u) => CommandView::Navigate(u@),
            ChromeCommand::Back => CommandView::Back,
            ChromeCommand::Forward => CommandView::Forward,
            ChromeCommand::Reload => CommandView::Reload,
            ChromeCommand::NewTab => CommandView::NewTab,
            ChromeCommand::OpenProperties => CommandView::OpenProperties,
            ChromeCommand::ToggleDownloads => CommandView::ToggleDownloads,
            ChromeCommand::PopupAllowYes => CommandView::PopupAllowYes,
            ChromeCommand::PopupAllowNo => CommandView::PopupAllowNo,
            ChromeCommand::ToggleAdblock => CommandView::ToggleAdblock,
            ChromeCommand::CloseActiveTab => CommandView::CloseActiveTab,
            ChromeCommand::ToggleKir(id) => CommandView::ToggleKir(*id),
            ChromeCommand::SwitchTab(id) => CommandView::SwitchTab(*id),
            ChromeCommand::CloseTab(id) => CommandView::CloseTab(*id),
            ChromeCommand::Ignored => CommandView::Ignored,
        }
    }
}

pub open spec fn after_prefix(m: Seq<char>, prefix: Seq<char>) -> Seq<char> {
    m.subrange(prefix.len() as int, m.len() as int)
}

/// How the browser reads a message of the chrome page.
pub open spec fn spec_parse_chrome_message(m: Seq<char>) -> CommandView {
    if starts_with(m, "navigate:"@) {
        CommandView::Navigate(after_prefix(m, "navigate:"@))
    } else if m == "back"@ {
        CommandView::Back
    } else if m == "forward"@ {
        CommandView::Forward
    } else if m == "reload"@ {
        CommandView::Reload
    } else if m == "new_tab"@ {
        CommandView::NewTab
    } else if m == "open_properties"@ {
        CommandView::OpenProperties
    } else if m == "toggle_downloads"@ {
        CommandView::ToggleDownloads
    } else if m == "popup_allow_yes"@ {
        CommandView::PopupAllowYes
    } else if m == "popup_allow_no"@ {
        CommandView::PopupAllowNo
    } else if m == "toggle_adblock"@ {
        CommandView::ToggleAdblock
    } else if m == "close_active_tab"@ {
        CommandView::CloseActiveTab
    } else if starts_with(m, "toggle_kir:"@) {
        match parse_u32(after_prefix(m, "toggle_kir:"@)) {
            Some(id) => CommandView::ToggleKir(id),
            None => CommandView::Ignored,
        }
    } else if starts_with(m, "switch_tab:"@) {
        match parse_u32(after_prefix(m, "switch_tab:"@)) {
            Some(id) => CommandView::SwitchTab(id),
            None => CommandView::Ignored,
        }
    } else if starts_with(m, "close_tab:"@) {
        match parse_u32(after_prefix(m, "close_tab:"@)) {
            Some(id) => CommandView::CloseTab(id),
            None => CommandView::Ignored,
        }
    } else {
        CommandView::Ignored
    }
}

fn is_message(m: &Vec<char>, word: &str) -> (r: bool)
    ensures
        r == (m@ == word@),
{
    chars_eq(m, &chars_of(word))
}

/// If `m` starts with `prefix`, the number after it as `str::parse::<u32>` reads it.
fn id_after(m: &Vec<char>, prefix: &str) -> (r: Option<Option<u32>>)
    ensures
        match r {
            None => !starts_with(m@, prefix@),
            Some(id) => starts_with(m@, prefix@) && id == parse_u32(after_prefix(m@, prefix@)),
        },
{
    let p = chars_of(prefix);
    if starts_with_chars(m, &p) {
        let mut rest: Vec<char> = Vec::new();
        let mut i = p.len();
        while i < m.len()
            invariant
                p.len() <= i <= m.len(),
                rest@ == m@.subrange(p.len() as int, i as int),
            decreases m.len() - i,
        {
            rest.push(m[i]);
            assert(rest@ =~= m@.subrange(p.len() as int, i + 1));
            i = i + 1;
        }
        Some(parse_u32_chars(&rest))
    } else {
        None
    }
}

/// Reads a message of the chrome page.
pub fn parse_chrome_message(message: &str) -> (r: ChromeCommand)
    ensures
        r@ == spec_parse_chrome_message(message@),
{
    let m = chars_of(message);
    let nav = chars_of("navigate:");
    if starts_with_chars(&m, &nav) {
        return ChromeCommand::Navigate(string_of_range(&m, nav.len(), m.len()));
    }
    if is_message(&m, "back") {
        return ChromeCommand::Back;
    }
    if is_message(&m, "forward") {
        return ChromeCommand::Forward;
    }
    if is_message(&m, "reload") {
        return ChromeCommand::Reload;
    }
    if is_message(&m, "new_tab") {
        return ChromeCommand::NewTab;
    }
    if is_message(&m, "open_properties") {
        return ChromeCommand::OpenProperties;
    }
    if is_message(&m, "toggle_downloads") {
        return ChromeCommand::ToggleDownloads;
    }
    if is_message(&m, "popup_allow_yes") {
        return ChromeCommand::PopupAllowYes;
    }
    if is_message(&m, "popup_allow_no") {
        return ChromeCommand::PopupAllowNo;
    }
    if is_message(&m, "toggle_adblock") {
        return ChromeCommand::ToggleAdblock;
    }
    if is_message(&m, "close_active_tab") {
        return ChromeCommand::CloseActiveTab;
    }
    match id_after(&m, "toggle_kir:") {
        Some(Some(id)) => {
            return ChromeCommand::ToggleKir(id);
        },
        Some(None) => {
            return ChromeCommand::Ignored;
        },
        None => {},
    }
    match id_after(&m, "switch_tab:") {
        Some(Some(id)) => {
            return ChromeCommand::SwitchTab(id);
        },
        Some(None) => {
            return ChromeCommand::Ignored;
        },
        None => {},
    }
    match id_after(&m, "close_tab:") {
        Some(Some(id)) => {
            return ChromeCommand::CloseTab(id);
        },
        Some(None) => {
            return ChromeCommand::Ignored;
        },
        None => {},
    }
    ChromeCommand::Ignored
}

} // verus!

verus! {

// ---------- Transitions, as the specification states them ------------------

pub open spec fn new_tab_url() -> Seq<char> {
    "https://duckduckgo.com"@
}

pub open spec fn new_tab_title() -> Seq<char> {
    "New Tab"@
}

pub open spec fn loading_title() -> Seq<char> {
    "Loading\u{2026}"@
}

pub open spec fn properties_title() -> Seq<char> {
    "Properties"@
}

pub open spec fn unknown_destination() -> Seq<char> {
    "Unknown destination"@
}

/// The first tab among the first `n` whose id is `id`.
pub open spec fn find_tab_upto(tabs: Seq<TabView>, id: u32, n: int) -> Option<int>
    decreases n,
{
    if n <= 0 {
        None
    } else {
        match find_tab_upto(tabs, id, n - 1) {
            Some(i) => Some(i),
            None => if tabs[n - 1].id == id {
                Some(n - 1)
            } else {
                None
            },
        }
    }
}

pub proof fn lemma_find_tab_upto(tabs: Seq<TabView>, id: u32, n: int)
    requires
        0 <= n <= tabs.len(),
    ensures
        match find_tab_upto(tabs, id, n) {
            Some(i) => 0 <= i < n && tabs[i].id == id && forall|m: int|
                n <= m <= tabs.len() ==> #[trigger] find_tab_upto(tabs, id, m) == Some(i),
            None => forall|k: int| 0 <= k < n ==> #[trigger] tabs[k].id != id,
        },
    decreases n,
{
    if n > 0 {
        lemma_find_tab_upto(tabs, id, n - 1);
    }
    match find_tab_upto(tabs, id, n) {
        Some(i) => {
            assert forall|m: int| n <= m <= tabs.len() implies #[trigger] find_tab_upto(tabs, id, m)
                == Some(i) by {
                lemma_find_tab_grows(tabs, id, n, m);
            }
        },
        None => {},
    }
}

proof fn lemma_find_tab_grows(tabs: Seq<TabView>, id: u32, n: int, m: int)
    requires
        0 <= n <= m,
        find_tab_upto(tabs, id, n) is Some,
    ensures
        find_tab_upto(tabs, id, m) == find_tab_upto(tabs, id, n),
    decreases m - n,
{
    if m > n {
        lemma_find_tab_grows(tabs, id, n, m - 1);
    }
}

/// Where the tab with id `id` stands.
pub open spec fn find_tab(tabs: Seq<TabView>, id: u32) -> Option<int> {
    find_tab_upto(tabs, id, tabs.len() as int)
}

pub open spec fn fx_push_tabs(s: StateView) -> Seq<EffectView> {
    if s.tabs.len() == 0 {
        seq![]
    } else {
        seq![EffectView::ChromeScript(crate::chrome::spec_tabs_script(s.tabs, s.tabs[s.active].id))]
    }
}

pub open spec fn fx_push_downloads(s: StateView) -> Seq<EffectView> {
    seq![
        EffectView::ChromeScript(
            crate::chrome::spec_downloads_script(s.downloads, s.downloads_panel_open),
        ),
    ]
}

pub open spec fn fx_push_adblock(s: StateView) -> Seq<EffectView> {
    seq![EffectView::ChromeScript(crate::chrome::spec_adblock_button_script(s.adblock_enabled))]
}

pub open spec fn fx_push_popup(s: StateView) -> Seq<EffectView> {
    seq![EffectView::ChromeScript(crate::chrome::spec_popup_script(s.pending_popup))]
}

/// Showing the active tab's webview and hiding the other loaded ones.
pub open spec fn fx_visibility_upto(tabs: Seq<TabView>, active: int, n: int) -> Seq<EffectView>
    decreases n,
{
    if n <= 0 {
        seq![]
    } else {
        fx_visibility_upto(tabs, active, n - 1) + if tabs[n - 1].loaded {
            seq![EffectView::SetVisible { tab_id: tabs[n - 1].id, visible: n - 1 == active }]
        } else {
            seq![]
        }
    }
}

pub open spec fn fx_visibility(s: StateView) -> Seq<EffectView> {
    fx_visibility_upto(s.tabs, s.active, s.tabs.len() as int)
}

/// Whether the tab at `i` is unloaded when background tabs are suspended.
pub open spec fn suspends(t: TabView, i: int, active: int) -> bool {
    i != active && !t.kir_enabled
}

pub open spec fn suspended_tab(t: TabView, i: int, active: int) -> TabView {
    if suspends(t, i, active) {
        TabView { loaded: false, ..t }
    } else {
        t
    }
}

pub open spec fn fx_suspend_upto(tabs: Seq<TabView>, active: int, n: int) -> Seq<EffectView>
    decreases n,
{
    if n <= 0 {
        seq![]
    } else {
        fx_suspend_upto(tabs, active, n - 1) + if suspends(tabs[n - 1], n - 1, active)
            && tabs[n - 1].loaded {
            seq![EffectView::DropWebview { tab_id: tabs[n - 1].id }]
        } else {
            seq![]
        }
    }
}

/// Unloads every background tab that does not keep its page in RAM.
pub open spec fn suspend(s: StateView) -> (StateView, Seq<EffectView>) {
    (
        StateView {
            tabs: Seq::new(s.tabs.len(), |i: int| suspended_tab(s.tabs[i], i, s.active)),
            ..s
        },
        fx_suspend_upto(s.tabs, s.active, s.tabs.len() as int),
    )
}

/// Turns every loaded page's adblocker to the browser's setting.
pub open spec fn fx_page_adblock_upto(tabs: Seq<TabView>, enabled: bool, n: int) -> Seq<EffectView>
    decreases n,
{
    if n <= 0 {
        seq![]
    } else {
        fx_page_adblock_upto(tabs, enabled, n - 1) + if tabs[n - 1].loaded {
            seq![
                EffectView::TabScript {
                    tab_id: tabs[n - 1].id,
                    script: crate::chrome::spec_page_adblock_script(enabled),
                },
            ]
        } else {
            seq![]
        }
    }
}

/// Keeps the newest `max` items.
pub open spec fn keep_last<A>(s: Seq<A>, max: nat) -> Seq<A> {
    if s.len() > max {
        s.subrange(s.len() - max, s.len() as int)
    } else {
        s
    }
}

/// Suspending, showing the active tab and redrawing the tab strip: how a step
/// ends once the active tab has its webview.
pub open spec fn settle(s: StateView) -> (StateView, Seq<EffectView>) {
    let (s1, fx1) = suspend(s);
    (s1, fx1 + fx_visibility(s1) + fx_push_tabs(s1))
}

/// The rest of a step once the tab it waited for has its webview.
pub open spec fn after_load(s: StateView, then: AfterLoadView) -> (StateView, Seq<EffectView>) {
    match then {
        AfterLoadView::Navigate(url) => if 0 <= s.active < s.tabs.len() {
            let t = s.tabs[s.active];
            let s1 = StateView {
                tabs: s.tabs.update(s.active, TabView { url: url, title: loading_title(), ..t }),
                ..s
            };
            (
                s1,
                (if t.loaded {
                    seq![EffectView::LoadUrl { tab_id: t.id, url: url }]
                } else {
                    seq![]
                }) + fx_push_tabs(s1),
            )
        } else {
            (s, seq![])
        },
        AfterLoadView::Switched => settle(s),
        AfterLoadView::Closed => settle(s),
    }
}

/// Makes sure the tab at `index` has a webview, then goes on with `then`.
pub open spec fn ensure_loaded(s: StateView, index: int, then: AfterLoadView) -> (
    StateView,
    Seq<EffectView>,
) {
    if index < 0 || index >= s.tabs.len() || s.tabs[index].loaded {
        after_load(s, then)
    } else {
        (
            StateView {
                awaiting: Some(
                    PendingBuildView {
                        tab_id: s.tabs[index].id,
                        purpose: BuildPurposeView::LoadTab { index, then },
                    },
                ),
                ..s
            },
            seq![EffectView::BuildWebview { tab_id: s.tabs[index].id, url: s.tabs[index].url }],
        )
    }
}

/// Asks for the webview of a new tab showing `url`; its id is the next free one.
pub open spec fn request_tab(s: StateView, url: Seq<char>, title: Option<Seq<char>>) -> (
    StateView,
    Seq<EffectView>,
) {
    (
        StateView {
            next_id: (s.next_id + 1) as u32,
            awaiting: Some(
                PendingBuildView {
                    tab_id: s.next_id,
                    purpose: BuildPurposeView::NewTab { url, title },
                },
            ),
            ..s
        },
        seq![EffectView::BuildWebview { tab_id: s.next_id, url }],
    )
}

/// A closed tab's webview goes with it.
pub open spec fn fx_drop_closed(t: TabView) -> Seq<EffectView> {
    if t.loaded {
        seq![EffectView::DropWebview { tab_id: t.id }]
    } else {
        seq![]
    }
}

/// Closes the tab with id `id`, releasing its webview: the same tab stays
/// active where it can, and closing the last tab quits.
pub open spec fn close_tab(s: StateView, id: u32) -> (StateView, Seq<EffectView>) {
    match find_tab(s.tabs, id) {
        None => (s, seq![]),
        Some(index) => {
            let dropped = fx_drop_closed(s.tabs[index]);
            let tabs = s.tabs.remove(index);
            if tabs.len() == 0 {
                (StateView { tabs, ..s }, dropped + seq![EffectView::Quit])
            } else {
                let active = if s.active >= tabs.len() {
                    tabs.len() - 1
                } else if index < s.active {
                    s.active - 1
                } else {
                    s.active
                };
                let (s1, fx1) = ensure_loaded(
                    StateView { tabs, active, ..s },
                    active,
                    AfterLoadView::Closed,
                );
                (s1, dropped + fx1)
            }
        },
    }
}

pub open spec fn fx_active_script(s: StateView, script: Seq<char>) -> Seq<EffectView> {
    if 0 <= s.active < s.tabs.len() && s.tabs[s.active].loaded {
        seq![EffectView::TabScript { tab_id: s.tabs[s.active].id, script }]
    } else {
        seq![]
    }
}

/// Adds `host` to the hosts that may open tabs without asking.
pub open spec fn allow_host(hosts: Seq<Seq<char>>, host: Seq<char>) -> Seq<Seq<char>> {
    if host.len() == 0 || hosts.contains(host) {
        hosts
    } else {
        hosts.push(host)
    }
}

/// What a message of the chrome page does.
pub open spec fn spec_command(s: StateView, c: CommandView) -> (StateView, Seq<EffectView>) {
    match c {
        CommandView::Navigate(raw) => ensure_loaded(
            s,
            s.active,
            AfterLoadView::Navigate(spec_normalize_url(raw)),
        ),
        CommandView::Back => (s, fx_active_script(s, "history.back();"@)),
        CommandView::Forward => (s, fx_active_script(s, "history.forward();"@)),
        CommandView::Reload => (s, fx_active_script(s, "location.reload();"@)),
        CommandView::NewTab => request_tab(s, new_tab_url(), None),
        CommandView::OpenProperties => request_tab(
            s,
            crate::properties::spec_properties_data_url(s.history, s.downloads),
            Some(properties_title()),
        ),
        CommandView::ToggleDownloads => {
            let s1 = StateView { downloads_panel_open: !s.downloads_panel_open, ..s };
            (s1, seq![EffectView::Reflow] + fx_push_downloads(s1))
        },
        CommandView::PopupAllowYes => match s.pending_popup {
            None => (s, seq![]),
            Some(p) => {
                let s1 = StateView {
                    pending_popup: None,
                    popup_allow_hosts: allow_host(s.popup_allow_hosts, p.host),
                    ..s
                };
                let (s2, fx2) = request_tab(s1, p.url, None);
                (s2, fx_push_popup(s1) + seq![EffectView::Reflow] + fx2)
            },
        },
        CommandView::PopupAllowNo => {
            let s1 = StateView { pending_popup: None, ..s };
            (s1, fx_push_popup(s1) + seq![EffectView::Reflow])
        },
        CommandView::ToggleAdblock => {
            let s1 = StateView { adblock_enabled: !s.adblock_enabled, ..s };
            (
                s1,
                fx_page_adblock_upto(s1.tabs, s1.adblock_enabled, s1.tabs.len() as int)
                    + fx_push_adblock(s1),
            )
        },
        CommandView::CloseActiveTab => if s.tabs.len() > 0 {
            close_tab(s, s.tabs[s.active].id)
        } else {
            (s, seq![])
        },
        CommandView::ToggleKir(id) => match find_tab(s.tabs, id) {
            None => (s, seq![]),
            Some(i) => {
                let t = s.tabs[i];
                let kir = !t.kir_enabled;
                let unload = i != s.active && !kir;
                let t1 = TabView { kir_enabled: kir, loaded: if unload {
                    false
                } else {
                    t.loaded
                }, ..t };
                let s1 = StateView { tabs: s.tabs.update(i, t1), ..s };
                (
                    s1,
                    (if unload && t.loaded {
                        seq![EffectView::DropWebview { tab_id: t.id }]
                    } else {
                        seq![]
                    }) + fx_visibility(s1) + fx_push_tabs(s1),
                )
            },
        },
        CommandView::SwitchTab(id) => match find_tab(s.tabs, id) {
            None => (s, seq![]),
            Some(i) => ensure_loaded(StateView { active: i, ..s }, i, AfterLoadView::Switched),
        },
        CommandView::CloseTab(id) => close_tab(s, id),
        CommandView::Ignored => (s, seq![]),
    }
}

/// A visit, as the session history records it.
pub open spec fn visit(title: Seq<char>, url: Seq<char>, now: Seq<char>) -> HistoryView {
    HistoryView {
        title: if trim(title).len() == 0 {
            url
        } else {
            title
        },
        url,
        visited_at: now,
    }
}

/// Records a visit; the history keeps the newest `MAX_HISTORY_ENTRIES`.
pub open spec fn append_history(h: Seq<HistoryView>, title: Seq<char>, url: Seq<char>, now: Seq<char>) -> Seq<HistoryView> {
    if url.len() == 0 {
        h
    } else {
        keep_last(h.push(visit(title, url, now)), MAX_HISTORY_ENTRIES as nat)
    }
}

/// The newest in-progress download among the first `n` that `p` picks.
pub open spec fn find_last_download(ds: Seq<DownloadView>, p: spec_fn(DownloadView) -> bool, n: int) -> Option<int>
    decreases n,
{
    if n <= 0 {
        None
    } else if in_progress(ds[n - 1]) && p(ds[n - 1]) {
        Some(n - 1)
    } else {
        find_last_download(ds, p, n - 1)
    }
}

pub open spec fn by_path(path: Seq<char>) -> spec_fn(DownloadView) -> bool {
    |d: DownloadView| d.file_path == path
}

pub open spec fn by_url(url: Seq<char>) -> spec_fn(DownloadView) -> bool {
    |d: DownloadView| d.url == url
}

/// The first size reported for `path` among the first `n`.
pub open spec fn size_for(sizes: Seq<FileSizeView>, path: Seq<char>, n: int) -> Option<u64>
    decreases n,
{
    if n <= 0 {
        None
    } else {
        match size_for(sizes, path, n - 1) {
            Some(b) => Some(b),
            None => if sizes[n - 1].path == path {
                Some(sizes[n - 1].bytes)
            } else {
                None
            },
        }
    }
}

pub open spec fn ticked(d: DownloadView, sizes: Seq<FileSizeView>) -> DownloadView {
    if in_progress(d) {
        match size_for(sizes, d.file_path, sizes.len() as int) {
            Some(b) => DownloadView { downloaded_bytes: b, ..d },
            None => d,
        }
    } else {
        d
    }
}

pub open spec fn completed_status(success: bool) -> DownloadStatus {
    if success {
        DownloadStatus::Completed
    } else {
        DownloadStatus::Failed
    }
}

/// A page's new title, shown unless it is blank.
pub open spec fn spec_title_changed(s: StateView, tab_id: u32, title: Seq<char>) -> (
    StateView,
    Seq<EffectView>,
) {
    match find_tab(s.tabs, tab_id) {
        Some(i) => if trim(title).len() != 0 {
            let s1 = StateView { tabs: s.tabs.update(i, TabView { title, ..s.tabs[i] }), ..s };
            (s1, fx_push_tabs(s1))
        } else {
            (s, seq![])
        },
        None => (s, seq![]),
    }
}

/// A finished page load: the tab's address, a history entry (but for the
/// browser's own pages), and the page's adblocker set.
pub open spec fn spec_page_loaded(s: StateView, tab_id: u32, url: Seq<char>, now: Seq<char>) -> (
    StateView,
    Seq<EffectView>,
) {
    match find_tab(s.tabs, tab_id) {
        Some(i) => if url.len() != 0 && url != "about:blank"@ {
            let t = s.tabs[i];
            let history = if starts_with(url, crate::address::internal_page_prefix()) {
                s.history
            } else {
                append_history(s.history, t.title, url, now)
            };
            let s1 = StateView { tabs: s.tabs.update(i, TabView { url, ..t }), history, ..s };
            (
                s1,
                (if t.loaded {
                    seq![
                        EffectView::TabScript {
                            tab_id: t.id,
                            script: crate::chrome::spec_page_adblock_script(s.adblock_enabled),
                        },
                    ]
                } else {
                    seq![]
                }) + fx_push_tabs(s1),
            )
        } else {
            (s, seq![])
        },
        None => (s, seq![]),
    }
}

pub open spec fn spec_download_started(s: StateView, url: Seq<char>, file_path: Seq<char>, now: Seq<char>) -> (
    StateView,
    Seq<EffectView>,
) {
    let d = DownloadView {
        url,
        file_path,
        status: DownloadStatus::InProgress,
        downloaded_bytes: 0,
        total_bytes: None,
        updated_at: now,
    };
    let s1 = StateView {
        downloads: keep_last(s.downloads.push(d), MAX_DOWNLOAD_ENTRIES as nat),
        ..s
    };
    (s1, fx_push_downloads(s1))
}

pub open spec fn spec_download_total(s: StateView, file_path: Seq<char>, total_bytes: Option<u64>) -> (
    StateView,
    Seq<EffectView>,
) {
    match find_last_download(s.downloads, by_path(file_path), s.downloads.len() as int) {
        Some(i) => {
            let s1 = StateView {
                downloads: s.downloads.update(i, DownloadView { total_bytes, ..s.downloads[i] }),
                ..s
            };
            (s1, fx_push_downloads(s1))
        },
        None => (s, seq![]),
    }
}

pub open spec fn spec_download_tick(s: StateView, sizes: Seq<FileSizeView>) -> (
    StateView,
    Seq<EffectView>,
) {
    let ds = Seq::new(s.downloads.len(), |i: int| ticked(s.downloads[i], sizes));
    let s1 = StateView { downloads: ds, ..s };
    if exists|i: int|
        0 <= i < s.downloads.len() && (#[trigger] ds[i]).downloaded_bytes
            != s.downloads[i].downloaded_bytes {
        (s1, fx_push_downloads(s1))
    } else {
        (s1, seq![])
    }
}

pub open spec fn spec_download_completed(
    s: StateView,
    url: Seq<char>,
    file_path: Option<Seq<char>>,
    success: bool,
    size_on_disk: Option<u64>,
    now: Seq<char>,
) -> (StateView, Seq<EffectView>) {
    let path = match file_path {
        Some(p) => p,
        None => unknown_destination(),
    };
    let status = completed_status(success);
    let ds = match find_last_download(s.downloads, by_url(url), s.downloads.len() as int) {
        Some(i) => {
            let d = s.downloads[i];
            s.downloads.update(
                i,
                DownloadView {
                    file_path: path,
                    status,
                    downloaded_bytes: match size_on_disk {
                        Some(b) => b,
                        None => d.downloaded_bytes,
                    },
                    updated_at: now,
                    ..d
                },
            )
        },
        None => keep_last(
            s.downloads.push(
                DownloadView {
                    url,
                    file_path: path,
                    status,
                    downloaded_bytes: 0,
                    total_bytes: None,
                    updated_at: now,
                },
            ),
            MAX_DOWNLOAD_ENTRIES as nat,
        ),
    };
    let s1 = StateView { downloads: ds, ..s };
    (s1, fx_push_downloads(s1))
}

/// A page asks for a new tab: hosts the user allowed get one at once, others
/// are asked about (one question at a time).
pub open spec fn spec_open_in_new_tab(s: StateView, url: Seq<char>) -> (
    StateView,
    Seq<EffectView>,
) {
    if spec_should_open_new_tab_url(url) {
        let t = trim(url);
        let host = spec_host_of(t);
        if host.len() != 0 && s.popup_allow_hosts.contains(host) {
            request_tab(s, t, None)
        } else if s.pending_popup is None {
            let s1 = StateView { pending_popup: Some(PopupView { url: t, host }), ..s };
            (s1, fx_push_popup(s1) + seq![EffectView::Reflow])
        } else {
            (s, seq![])
        }
    } else {
        (s, seq![])
    }
}

/// What an event does.
pub open spec fn spec_handle_event(s: StateView, ev: EventView, now: Seq<char>) -> (
    StateView,
    Seq<EffectView>,
) {
    match ev {
        EventView::ChromeIpc(m) => spec_command(s, spec_parse_chrome_message(m)),
        EventView::TitleChanged { tab_id, title } => spec_title_changed(s, tab_id, title),
        EventView::PageLoaded { tab_id, url } => spec_page_loaded(s, tab_id, url, now),
        EventView::DownloadStarted { url, file_path } => spec_download_started(
            s,
            url,
            file_path,
            now,
        ),
        EventView::DownloadTotal { file_path, total_bytes } => spec_download_total(
            s,
            file_path,
            total_bytes,
        ),
        EventView::DownloadTick { sizes } => spec_download_tick(s, sizes),
        EventView::DownloadCompleted { url, file_path, success, size_on_disk } =>
            spec_download_completed(s, url, file_path, success, size_on_disk, now),
        EventView::OpenInNewTab { url } => spec_open_in_new_tab(s, url),
        EventView::Quit => (s, seq![]),
    }
}

/// Whether a chrome command asks for a new tab, and so takes the next id.
pub open spec fn command_allocates(s: StateView, c: CommandView) -> bool {
    match c {
        CommandView::NewTab => true,
        CommandView::OpenProperties => true,
        CommandView::PopupAllowYes => s.pending_popup is Some,
        _ => false,
    }
}

/// Whether an event asks for a new tab, and so takes the next id.
pub open spec fn event_allocates(s: StateView, ev: EventView) -> bool {
    match ev {
        EventView::ChromeIpc(m) => command_allocates(s, spec_parse_chrome_message(m)),
        EventView::OpenInNewTab { url } => spec_should_open_new_tab_url(url) && spec_host_of(
            trim(url),
        ).len() != 0 && s.popup_allow_hosts.contains(spec_host_of(trim(url))),
        _ => false,
    }
}

/// Ids are left to hand out where an event needs one.
pub open spec fn ids_left_for(s: StateView, ev: EventView) -> bool {
    s.next_id < u32::MAX || !event_allocates(s, ev)
}

/// A new tab's webview is ready: the tab joins the strip, becomes active, and
/// the chrome is brought up to date.
pub open spec fn spec_tab_opened(
    s: StateView,
    tab_id: u32,
    url: Seq<char>,
    title: Option<Seq<char>>,
) -> (StateView, Seq<EffectView>) {
    let tab = TabView { id: tab_id, title: new_tab_title(), url, kir_enabled: false, loaded: true };
    let s1 = StateView { tabs: s.tabs.push(tab), active: s.tabs.len() as int, ..s };
    let (s2, fx3) = spec_new_tab_shown(s1, tab_id);
    match title {
        None => (s2, fx3),
        Some(t) => {
            let last = s2.tabs.len() - 1;
            let s3 = StateView {
                tabs: s2.tabs.update(last, TabView { title: t, ..s2.tabs[last] }),
                ..s2
            };
            (s3, fx3 + fx_push_tabs(s3))
        },
    }
}

/// With the new tab active: suspending, showing it, and bringing the whole
/// chrome up to date.
pub open spec fn spec_new_tab_shown(s1: StateView, tab_id: u32) -> (StateView, Seq<EffectView>) {
    let (s2, fx2) = suspend(s1);
    (
        s2,
        fx2 + fx_visibility(s2) + fx_push_tabs(s2) + fx_push_downloads(s2) + fx_push_adblock(s2)
            + fx_push_popup(s2) + if s2.adblock_enabled {
            seq![
                EffectView::TabScript {
                    tab_id,
                    script: crate::chrome::spec_page_adblock_script(true),
                },
            ]
        } else {
            seq![]
        },
    )
}

/// An existing tab's webview is ready: the step that waited goes on.
pub open spec fn spec_tab_reloaded(s: StateView, index: int, then: AfterLoadView) -> (
    StateView,
    Seq<EffectView>,
) {
    let s1 = StateView {
        tabs: s.tabs.update(index, TabView { loaded: true, ..s.tabs[index] }),
        ..s
    };
    after_load(s1, then)
}

/// What the outcome of a webview build does: `Some(mode)` when the webview
/// was built (and how it is hosted), `None` when it failed.
pub open spec fn spec_finish_build(s: StateView, outcome: Option<HostMode>) -> (
    StateView,
    Seq<EffectView>,
) {
    match (s.awaiting, outcome) {
        (Some(b), Some(mode)) => {
            let s0 = StateView { host_mode: mode, awaiting: None, ..s };
            match b.purpose {
                BuildPurposeView::NewTab { url, title } => spec_tab_opened(s0, b.tab_id, url, title),
                BuildPurposeView::LoadTab { index, then } => spec_tab_reloaded(s0, index, then),
            }
        },
        _ => (StateView { awaiting: None, ..s }, seq![]),
    }
}

} // verus!

verus! {

// ---------- Transitions, as the browser carries them out --------------------

pub open spec fn opt_index(r: Option<usize>) -> Option<int> {
    match r {
        Some(i) => Some(i as int),
        None => None,
    }
}

/// Keeps the newest `max` items of `v`.
fn keep_last_vec<T>(v: &mut Vec<T>, max: usize)
    requires
        max > 0,
    ensures
        final(v)@ == keep_last(old(v)@, max as nat),
{
    let ghost orig = v@;
    while v.len() > max
        invariant
            max > 0,
            v.len() >= max || v@ == orig,
            v@ == orig.subrange(orig.len() - v.len(), orig.len() as int),
            v.len() <= orig.len(),
        decreases v.len(),
    {
        v.remove(0);
        assert(v@ =~= orig.subrange(orig.len() - v.len(), orig.len() as int));
    }
    proof {
        if orig.len() <= max {
            assert(orig.subrange(0, orig.len() as int) =~= orig);
        }
    }
}

impl BrowserState {
    /// The state before the first tab opens.
    pub open spec fn spec_new(private: bool, host_mode: HostMode) -> StateView {
        StateView {
            tabs: seq![],
            history: seq![],
            downloads: seq![],
            adblock_enabled: false,
            popup_allow_hosts: seq![],
            pending_popup: None,
            downloads_panel_open: false,
            active: 0,
            next_id: 1,
            private,
            host_mode,
            awaiting: None,
        }
    }

    pub fn new(private: bool, host_mode: HostMode) -> (s: Self)
        ensures
            s@ == Self::spec_new(private, host_mode),
            state_wf(s@),
    {
        let s = BrowserState {
            tabs: Vec::new(),
            history: Vec::new(),
            downloads: Vec::new(),
            adblock_enabled: false,
            popup_allow_hosts: Vec::new(),
            pending_popup: None,
            downloads_panel_open: false,
            active: 0,
            next_id: 1,
            private,
            host_mode,
            awaiting: None,
        };
        assert(s@ =~= Self::spec_new(private, host_mode));
        s
    }

    // ----- what the shell reads -----

    /// The height of the browser's bar, in logical pixels.
    pub fn chrome_height(&self) -> (h: u32)
        ensures
            h == spec_chrome_height(self@),
    {
        let mut h: u32 = 84;
        if self.downloads_panel_open {
            h = h + 104;
        }
        if self.pending_popup.is_some() {
            h = h + 44;
        }
        h
    }

    pub fn host_mode(&self) -> (m: HostMode)
        ensures
            m == self@.host_mode,
    {
        self.host_mode
    }

    pub fn is_private(&self) -> (p: bool)
        ensures
            p == self@.private,
    {
        self.private
    }

    pub fn adblock_enabled(&self) -> (b: bool)
        ensures
            b == self@.adblock_enabled,
    {
        self.adblock_enabled
    }

    pub fn downloads_panel_open(&self) -> (b: bool)
        ensures
            b == self@.downloads_panel_open,
    {
        self.downloads_panel_open
    }

    pub fn tabs(&self) -> (t: &Vec<Tab>)
        ensures
            tabs_view(t@) == self@.tabs,
    {
        &self.tabs
    }

    pub fn active_index(&self) -> (a: usize)
        ensures
            a as int == self@.active,
    {
        self.active
    }

    pub fn history(&self) -> (h: &Vec<HistoryEntry>)
        ensures
            history_view(h@) == self@.history,
    {
        &self.history
    }

    pub fn downloads(&self) -> (d: &Vec<DownloadEntry>)
        ensures
            downloads_view(d@) == self@.downloads,
    {
        &self.downloads
    }

    pub fn pending_popup(&self) -> (p: &Option<PendingPopup>)
        ensures
            popup_view(*p) == self@.pending_popup,
    {
        &self.pending_popup
    }

    pub fn popup_allow_hosts(&self) -> (h: &Vec<String>)
        ensures
            strings_view(h@) == self@.popup_allow_hosts,
    {
        &self.popup_allow_hosts
    }

    /// The id of the tab whose webview the browser waits for, if any.
    pub fn awaiting_build(&self) -> (r: Option<u32>)
        ensures
            match self@.awaiting {
                Some(b) => r == Some(b.tab_id),
                None => r is None,
            },
    {
        match &self.awaiting {
            Some(b) => Some(b.tab_id),
            None => None,
        }
    }

    pub fn next_id(&self) -> (n: u32)
        ensures
            n == self@.next_id,
    {
        self.next_id
    }

    // ----- helpers -----

    /// Where the tab with id `tab_id` stands.
    pub fn find_index(&self, tab_id: u32) -> (r: Option<usize>)
        ensures
            opt_index(r) == find_tab(self@.tabs, tab_id),
    {
        let ghost tv = self@.tabs;
        let mut i: usize = 0;
        while i < self.tabs.len()
            invariant
                i <= self.tabs.len(),
                tv == tabs_view(self.tabs@),
                find_tab_upto(tv, tab_id, i as int) is None,
            decreases self.tabs.len() - i,
        {
            assert(tv[i as int].id == self.tabs[i as int].id);
            if self.tabs[i].id == tab_id {
                proof {
                    lemma_find_tab_upto(tv, tab_id, i + 1);
                }
                return Some(i);
            }
            i = i + 1;
        }
        None
    }

    fn push_tabs(&self, out: &mut Vec<Effect>)
        requires
            active_ok(self@),
        ensures
            fx_view(final(out)@) == fx_view(old(out)@) + fx_push_tabs(self@),
    {
        if self.tabs.len() == 0 {
            assert(fx_view(out@) =~= fx_view(out@) + Seq::<EffectView>::empty());
            return;
        }
        assert(self@.tabs[self.active as int].id == self.tabs[self.active as int].id);
        let script = crate::chrome::tabs_script(&self.tabs, self.tabs[self.active].id);
        emit(out, Effect::ChromeScript(script));
        assert(fx_view(old(out)@).push(EffectView::ChromeScript(script@)) =~= fx_view(old(out)@)
            + fx_push_tabs(self@));
    }

    fn push_downloads(&self, out: &mut Vec<Effect>)
        ensures
            fx_view(final(out)@) == fx_view(old(out)@) + fx_push_downloads(self@),
    {
        let script = crate::chrome::downloads_script(&self.downloads, self.downloads_panel_open);
        emit(out, Effect::ChromeScript(script));
        assert(fx_view(old(out)@).push(EffectView::ChromeScript(script@)) =~= fx_view(old(out)@)
            + fx_push_downloads(self@));
    }

    fn push_adblock(&self, out: &mut Vec<Effect>)
        ensures
            fx_view(final(out)@) == fx_view(old(out)@) + fx_push_adblock(self@),
    {
        let script = crate::chrome::adblock_button_script(self.adblock_enabled);
        emit(out, Effect::ChromeScript(script));
        assert(fx_view(old(out)@).push(EffectView::ChromeScript(script@)) =~= fx_view(old(out)@)
            + fx_push_adblock(self@));
    }

    fn push_popup_prompt(&self, out: &mut Vec<Effect>)
        ensures
            fx_view(final(out)@) == fx_view(old(out)@) + fx_push_popup(self@),
    {
        let script = crate::chrome::popup_script(&self.pending_popup);
        emit(out, Effect::ChromeScript(script));
        assert(fx_view(old(out)@).push(EffectView::ChromeScript(script@)) =~= fx_view(old(out)@)
            + fx_push_popup(self@));
    }

    fn apply_visibility(&self, out: &mut Vec<Effect>)
        ensures
            fx_view(final(out)@) == fx_view(old(out)@) + fx_visibility(self@),
    {
        let ghost tv = self@.tabs;
        let mut i: usize = 0;
        while i < self.tabs.len()
            invariant
                i <= self.tabs.len(),
                tv == tabs_view(self.tabs@),
                tv == self@.tabs,
                fx_view(out@) == fx_view(old(out)@) + fx_visibility_upto(tv, self@.active, i as int),
            decreases self.tabs.len() - i,
        {
            assert(tv[i as int] == self.tabs[i as int]@);
            if self.tabs[i].loaded {
                emit(out, Effect::SetVisible { tab_id: self.tabs[i].id, visible: i == self.active });
            }
            assert(fx_view(out@) =~= fx_view(old(out)@) + fx_visibility_upto(
                tv,
                self@.active,
                i + 1,
            ));
            i = i + 1;
        }
    }

    fn apply_adblock_setting_to_tabs(&self, out: &mut Vec<Effect>)
        ensures
            fx_view(final(out)@) == fx_view(old(out)@) + fx_page_adblock_upto(
                self@.tabs,
                self@.adblock_enabled,
                self@.tabs.len() as int,
            ),
    {
        let ghost tv = self@.tabs;
        let mut i: usize = 0;
        while i < self.tabs.len()
            invariant
                i <= self.tabs.len(),
                tv == tabs_view(self.tabs@),
                tv == self@.tabs,
                fx_view(out@) == fx_view(old(out)@) + fx_page_adblock_upto(
                    tv,
                    self@.adblock_enabled,
                    i as int,
                ),
            decreases self.tabs.len() - i,
        {
            assert(tv[i as int] == self.tabs[i as int]@);
            if self.tabs[i].loaded {
                let script = crate::chrome::page_adblock_script(self.adblock_enabled);
                emit(out, Effect::TabScript { tab_id: self.tabs[i].id, script });
            }
            assert(fx_view(out@) =~= fx_view(old(out)@) + fx_page_adblock_upto(
                tv,
                self@.adblock_enabled,
                i + 1,
            ));
            i = i + 1;
        }
    }

    fn suspend_background_tabs(&mut self, out: &mut Vec<Effect>)
        ensures
            final(self)@ == suspend(old(self)@).0,
            fx_view(final(out)@) == fx_view(old(out)@) + suspend(old(self)@).1,
    {
        let ghost s = self@;
        let ghost tv = s.tabs;
        let mut i: usize = 0;
        while i < self.tabs.len()
            invariant
                i <= self.tabs.len(),
                self.tabs.len() == tv.len(),
                tv == s.tabs,
                self@ == (StateView { tabs: self@.tabs, ..s }),
                self.active as int == s.active,
                forall|k: int| 0 <= k < i ==> #[trigger] self@.tabs[k] == suspended_tab(tv[k], k, s.active),
                forall|k: int| i <= k < tv.len() ==> #[trigger] self@.tabs[k] == tv[k],
                fx_view(out@) == fx_view(old(out)@) + fx_suspend_upto(tv, s.active, i as int),
            decreases self.tabs.len() - i,
        {
            assert(self@.tabs[i as int] == self.tabs[i as int]@);
            let ghost prev = self@.tabs;
            if i != self.active && !self.tabs[i].kir_enabled {
                if self.tabs[i].loaded {
                    emit(out, Effect::DropWebview { tab_id: self.tabs[i].id });
                }
                self.tabs[i].loaded = false;
            }
            assert(self@.tabs =~= prev.update(i as int, suspended_tab(tv[i as int], i as int, s.active)));
            assert(fx_view(out@) =~= fx_view(old(out)@) + fx_suspend_upto(tv, s.active, i + 1));
            i = i + 1;
        }
        assert(self@ =~= suspend(s).0);
    }

    fn settle(&mut self, out: &mut Vec<Effect>)
        requires
            active_ok(old(self)@),
        ensures
            final(self)@ == settle(old(self)@).0,
            fx_view(final(out)@) == fx_view(old(out)@) + settle(old(self)@).1,
    {
        self.suspend_background_tabs(out);
        self.apply_visibility(out);
        self.push_tabs(out);
        assert(fx_view(out@) =~= fx_view(old(out)@) + settle(old(self)@).1);
    }

    fn after_load(&mut self, then: AfterLoad, out: &mut Vec<Effect>)
        requires
            active_ok(old(self)@),
        ensures
            final(self)@ == after_load(old(self)@, then@).0,
            fx_view(final(out)@) == fx_view(old(out)@) + after_load(old(self)@, then@).1,
    {
        match then {
            AfterLoad::Navigate(url) => {
                if self.active < self.tabs.len() {
                    let a = self.active;
                    let id = self.tabs[a].id;
                    let loaded = self.tabs[a].loaded;
                    assert(self@.tabs[a as int] == self.tabs[a as int]@);
                    self.tabs[a].url = url.clone();
                    self.tabs[a].title = String::from_str("Loading\u{2026}");
                    assert(self@ =~= after_load(old(self)@, then@).0);
                    if loaded {
                        emit(out, Effect::LoadUrl { tab_id: id, url });
                    }
                    self.push_tabs(out);
                    assert(fx_view(out@) =~= fx_view(old(out)@) + after_load(old(self)@, then@).1);
                } else {
                    assert(fx_view(out@) =~= fx_view(old(out)@) + Seq::<EffectView>::empty());
                }
            },
            AfterLoad::Switched => {
                self.settle(out);
            },
            AfterLoad::Closed => {
                self.settle(out);
            },
        }
    }

    fn ensure_loaded(&mut self, index: usize, then: AfterLoad, out: &mut Vec<Effect>)
        requires
            active_ok(old(self)@),
        ensures
            final(self)@ == ensure_loaded(old(self)@, index as int, then@).0,
            fx_view(final(out)@) == fx_view(old(out)@) + ensure_loaded(
                old(self)@,
                index as int,
                then@,
            ).1,
    {
        if index >= self.tabs.len() || self.tabs[index].loaded {
            proof {
                if index < self.tabs.len() {
                    assert(self@.tabs[index as int] == self.tabs[index as int]@);
                }
            }
            self.after_load(then, out);
        } else {
            assert(self@.tabs[index as int] == self.tabs[index as int]@);
            let id = self.tabs[index].id;
            let url = self.tabs[index].url.clone();
            self.awaiting = Some(PendingBuild { tab_id: id, purpose: BuildPurpose::LoadTab { index, then } });
            emit(out, Effect::BuildWebview { tab_id: id, url });
            assert(self@ =~= ensure_loaded(old(self)@, index as int, then@).0);
            assert(fx_view(out@) =~= fx_view(old(out)@) + ensure_loaded(
                old(self)@,
                index as int,
                then@,
            ).1);
        }
    }

    fn request_tab(&mut self, url: String, title: Option<String>, out: &mut Vec<Effect>)
        requires
            old(self)@.next_id < u32::MAX,
        ensures
            final(self)@ == request_tab(old(self)@, url@, opt_chars(title)).0,
            fx_view(final(out)@) == fx_view(old(out)@) + request_tab(
                old(self)@,
                url@,
                opt_chars(title),
            ).1,
    {
        let id = self.next_id;
        self.next_id = self.next_id + 1;
        let build_url = url.clone();
        self.awaiting = Some(PendingBuild { tab_id: id, purpose: BuildPurpose::NewTab { url, title } });
        emit(out, Effect::BuildWebview { tab_id: id, url: build_url });
        assert(self@ =~= request_tab(old(self)@, url@, opt_chars(title)).0);
        assert(fx_view(out@) =~= fx_view(old(out)@) + request_tab(
            old(self)@,
            url@,
            opt_chars(title),
        ).1);
    }

    fn close_tab(&mut self, tab_id: u32, out: &mut Vec<Effect>)
        requires
            active_ok(old(self)@),
        ensures
            final(self)@ == close_tab(old(self)@, tab_id).0,
            fx_view(final(out)@) == fx_view(old(out)@) + close_tab(old(self)@, tab_id).1,
    {
        let ghost s = self@;
        let found = self.find_index(tab_id);
        proof {
            lemma_find_tab_upto(s.tabs, tab_id, s.tabs.len() as int);
        }
        match found {
            None => {
                assert(fx_view(out@) =~= fx_view(old(out)@) + Seq::<EffectView>::empty());
            },
            Some(index) => {
                assert(s.tabs[index as int] == self.tabs[index as int]@);
                if self.tabs[index].loaded {
                    emit(out, Effect::DropWebview { tab_id: self.tabs[index].id });
                }
                let ghost after_drop = out@;
                assert(fx_view(after_drop) =~= fx_view(old(out)@) + fx_drop_closed(s.tabs[index as int]));
                self.tabs.remove(index);
                assert(tabs_view(self.tabs@) =~= s.tabs.remove(index as int));
                if self.tabs.len() == 0 {
                    emit(out, Effect::Quit);
                    assert(self@ =~= close_tab(s, tab_id).0);
                    assert(fx_view(out@) =~= fx_view(old(out)@) + close_tab(s, tab_id).1);
                    return;
                }
                if self.active >= self.tabs.len() {
                    self.active = self.tabs.len() - 1;
                } else if index < self.active {
                    self.active = self.active - 1;
                }
                let a = self.active;
                let ghost s1 = self@;
                self.ensure_loaded(a, AfterLoad::Closed, out);
                assert(fx_view(out@) =~= fx_view(old(out)@) + (fx_drop_closed(s.tabs[index as int])
                    + ensure_loaded(s1, a as int, AfterLoadView::Closed).1));
            },
        }
    }

    fn run_script_on_active_tab(&self, script: &str, out: &mut Vec<Effect>)
        ensures
            fx_view(final(out)@) == fx_view(old(out)@) + fx_active_script(self@, script@),
    {
        if self.active < self.tabs.len() && self.tabs[self.active].loaded {
            assert(self@.tabs[self.active as int] == self.tabs[self.active as int]@);
            emit(
                out,
                Effect::TabScript {
                    tab_id: self.tabs[self.active].id,
                    script: String::from_str(script),
                },
            );
            assert(fx_view(out@) =~= fx_view(old(out)@) + fx_active_script(self@, script@));
        } else {
            proof {
                if self.active < self.tabs.len() {
                    assert(self@.tabs[self.active as int] == self.tabs[self.active as int]@);
                }
            }
            assert(fx_view(out@) =~= fx_view(old(out)@) + fx_active_script(self@, script@));
        }
    }

    fn allow_host(&mut self, host: String)
        ensures
            final(self)@ == (StateView {
                popup_allow_hosts: allow_host(old(self)@.popup_allow_hosts, host@),
                ..old(self)@
            }),
    {
        let ghost hv = self@.popup_allow_hosts;
        if host.as_str().is_empty() {
            return;
        }
        let h = chars_of(host.as_str());
        let mut i: usize = 0;
        while i < self.popup_allow_hosts.len()
            invariant
                i <= self.popup_allow_hosts.len(),
                hv == strings_view(self.popup_allow_hosts@),
                h@ == host@,
                forall|k: int| 0 <= k < i ==> hv[k] != host@,
            decreases self.popup_allow_hosts.len() - i,
        {
            assert(hv[i as int] == self.popup_allow_hosts[i as int]@);
            if chars_eq(&chars_of(self.popup_allow_hosts[i].as_str()), &h) {
                assert(hv[i as int] == host@);
                assert(hv.contains(host@));
                return;
            }
            i = i + 1;
        }
        assert(!hv.contains(host@));
        self.popup_allow_hosts.push(host);
        assert(strings_view(self.popup_allow_hosts@) =~= hv.push(host@));
        assert(self@ =~= (StateView {
            popup_allow_hosts: allow_host(old(self)@.popup_allow_hosts, host@),
            ..old(self)@
        }));
    }

    /// Whether `ev` asks for a new tab, and so takes the next tab id.
    pub fn event_allocates(&self, ev: &UserEvent) -> (r: bool)
        ensures
            r == event_allocates(self@, ev@),
    {
        match ev {
            UserEvent::ChromeIpc(message) => match parse_chrome_message(message.as_str()) {
                ChromeCommand::NewTab => true,
                ChromeCommand::OpenProperties => true,
                ChromeCommand::PopupAllowYes => self.pending_popup.is_some(),
                _ => false,
            },
            UserEvent::OpenInNewTab { url } => {
                if !should_open_new_tab_url(url.as_str()) {
                    return false;
                }
                let t = trimmed(url.as_str());
                let host = host_of(t.as_str());
                !host.as_str().is_empty() && self.hosts_contain(host.as_str())
            },
            _ => false,
        }
    }

    fn hosts_contain(&self, host: &str) -> (r: bool)
        ensures
            r == self@.popup_allow_hosts.contains(host@),
    {
        let ghost hv = self@.popup_allow_hosts;
        let h = chars_of(host);
        let mut i: usize = 0;
        while i < self.popup_allow_hosts.len()
            invariant
                i <= self.popup_allow_hosts.len(),
                hv == strings_view(self.popup_allow_hosts@),
                hv == self@.popup_allow_hosts,
                h@ == host@,
                forall|k: int| 0 <= k < i ==> hv[k] != host@,
            decreases self.popup_allow_hosts.len() - i,
        {
            assert(hv[i as int] == self.popup_allow_hosts[i as int]@);
            if chars_eq(&chars_of(self.popup_allow_hosts[i].as_str()), &h) {
                assert(hv[i as int] == host@);
                return true;
            }
            i = i + 1;
        }
        false
    }
}

} // verus!

verus! {

impl BrowserState {
    fn toggle_downloads(&mut self, out: &mut Vec<Effect>)
        ensures
            final(self)@ == spec_command(old(self)@, CommandView::ToggleDownloads).0,
            fx_view(final(out)@) == fx_view(old(out)@) + spec_command(
                old(self)@,
                CommandView::ToggleDownloads,
            ).1,
    {
        self.downloads_panel_open = !self.downloads_panel_open;
        emit(out, Effect::Reflow);
        self.push_downloads(out);
        assert(fx_view(out@) =~= fx_view(old(out)@) + spec_command(
            old(self)@,
            CommandView::ToggleDownloads,
        ).1);
    }

    fn popup_allow_yes(&mut self, out: &mut Vec<Effect>)
        requires
            old(self)@.next_id < u32::MAX || old(self)@.pending_popup is None,
        ensures
            final(self)@ == spec_command(old(self)@, CommandView::PopupAllowYes).0,
            fx_view(final(out)@) == fx_view(old(out)@) + spec_command(
                old(self)@,
                CommandView::PopupAllowYes,
            ).1,
    {
        match self.pending_popup.take() {
            Some(pending) => {
                self.allow_host(pending.host);
                self.push_popup_prompt(out);
                emit(out, Effect::Reflow);
                self.request_tab(pending.url, None, out);
                assert(fx_view(out@) =~= fx_view(old(out)@) + spec_command(
                    old(self)@,
                    CommandView::PopupAllowYes,
                ).1);
            },
            None => {
                assert(fx_view(out@) =~= fx_view(old(out)@) + Seq::<EffectView>::empty());
            },
        }
    }

    fn popup_allow_no(&mut self, out: &mut Vec<Effect>)
        ensures
            final(self)@ == spec_command(old(self)@, CommandView::PopupAllowNo).0,
            fx_view(final(out)@) == fx_view(old(out)@) + spec_command(
                old(self)@,
                CommandView::PopupAllowNo,
            ).1,
    {
        self.pending_popup = None;
        self.push_popup_prompt(out);
        emit(out, Effect::Reflow);
        assert(fx_view(out@) =~= fx_view(old(out)@) + spec_command(
            old(self)@,
            CommandView::PopupAllowNo,
        ).1);
    }

    fn toggle_adblock(&mut self, out: &mut Vec<Effect>)
        ensures
            final(self)@ == spec_command(old(self)@, CommandView::ToggleAdblock).0,
            fx_view(final(out)@) == fx_view(old(out)@) + spec_command(
                old(self)@,
                CommandView::ToggleAdblock,
            ).1,
    {
        self.adblock_enabled = !self.adblock_enabled;
        self.apply_adblock_setting_to_tabs(out);
        self.push_adblock(out);
        assert(fx_view(out@) =~= fx_view(old(out)@) + spec_command(
            old(self)@,
            CommandView::ToggleAdblock,
        ).1);
    }

    fn close_active_tab(&mut self, out: &mut Vec<Effect>)
        requires
            active_ok(old(self)@),
        ensures
            final(self)@ == spec_command(old(self)@, CommandView::CloseActiveTab).0,
            fx_view(final(out)@) == fx_view(old(out)@) + spec_command(
                old(self)@,
                CommandView::CloseActiveTab,
            ).1,
    {
        if self.tabs.len() > 0 {
            assert(self@.tabs[self.active as int] == self.tabs[self.active as int]@);
            let id = self.tabs[self.active].id;
            self.close_tab(id, out);
        } else {
            assert(fx_view(out@) =~= fx_view(old(out)@) + Seq::<EffectView>::empty());
        }
    }

    fn toggle_kir(&mut self, id: u32, out: &mut Vec<Effect>)
        requires
            active_ok(old(self)@),
        ensures
            final(self)@ == spec_command(old(self)@, CommandView::ToggleKir(id)).0,
            fx_view(final(out)@) == fx_view(old(out)@) + spec_command(
                old(self)@,
                CommandView::ToggleKir(id),
            ).1,
    {
        let ghost s = self@;
        let found = self.find_index(id);
        proof {
            lemma_find_tab_upto(s.tabs, id, s.tabs.len() as int);
        }
        match found {
            Some(i) => {
                assert(s.tabs[i as int] == self.tabs[i as int]@);
                let kir = !self.tabs[i].kir_enabled;
                let was_loaded = self.tabs[i].loaded;
                let tab_id = self.tabs[i].id;
                self.tabs[i].kir_enabled = kir;
                let unload = i != self.active && !kir;
                if unload {
                    self.tabs[i].loaded = false;
                    if was_loaded {
                        emit(out, Effect::DropWebview { tab_id });
                    }
                }
                assert(self@ =~= spec_command(s, CommandView::ToggleKir(id)).0);
                self.apply_visibility(out);
                self.push_tabs(out);
                assert(fx_view(out@) =~= fx_view(old(out)@) + spec_command(
                    s,
                    CommandView::ToggleKir(id),
                ).1);
            },
            None => {
                assert(fx_view(out@) =~= fx_view(old(out)@) + Seq::<EffectView>::empty());
            },
        }
    }

    fn switch_tab(&mut self, id: u32, out: &mut Vec<Effect>)
        requires
            active_ok(old(self)@),
        ensures
            final(self)@ == spec_command(old(self)@, CommandView::SwitchTab(id)).0,
            fx_view(final(out)@) == fx_view(old(out)@) + spec_command(
                old(self)@,
                CommandView::SwitchTab(id),
            ).1,
    {
        let ghost s = self@;
        let found = self.find_index(id);
        proof {
            lemma_find_tab_upto(s.tabs, id, s.tabs.len() as int);
        }
        match found {
            Some(i) => {
                self.active = i;
                self.ensure_loaded(i, AfterLoad::Switched, out);
            },
            None => {
                assert(fx_view(out@) =~= fx_view(old(out)@) + Seq::<EffectView>::empty());
            },
        }
    }

    fn handle_command(&mut self, cmd: ChromeCommand, out: &mut Vec<Effect>)
        requires
            active_ok(old(self)@),
            old(self)@.next_id < u32::MAX || !command_allocates(old(self)@, cmd@),
        ensures
            final(self)@ == spec_command(old(self)@, cmd@).0,
            fx_view(final(out)@) == fx_view(old(out)@) + spec_command(old(self)@, cmd@).1,
    {
        match cmd {
            ChromeCommand::Navigate(raw) => {
                let next = normalize_url(raw.as_str());
                let a = self.active;
                self.ensure_loaded(a, AfterLoad::Navigate(next), out);
            },
            ChromeCommand::Back => {
                self.run_script_on_active_tab("history.back();", out);
            },
            ChromeCommand::Forward => {
                self.run_script_on_active_tab("history.forward();", out);
            },
            ChromeCommand::Reload => {
                self.run_script_on_active_tab("location.reload();", out);
            },
            ChromeCommand::NewTab => {
                self.request_tab(String::from_str("https://duckduckgo.com"), None, out);
            },
            ChromeCommand::OpenProperties => {
                let url = crate::properties::properties_data_url(&self.history, &self.downloads);
                self.request_tab(url, Some(String::from_str("Properties")), out);
            },
            ChromeCommand::ToggleDownloads => self.toggle_downloads(out),
            ChromeCommand::PopupAllowYes => self.popup_allow_yes(out),
            ChromeCommand::PopupAllowNo => self.popup_allow_no(out),
            ChromeCommand::ToggleAdblock => self.toggle_adblock(out),
            ChromeCommand::CloseActiveTab => self.close_active_tab(out),
            ChromeCommand::ToggleKir(id) => self.toggle_kir(id, out),
            ChromeCommand::SwitchTab(id) => self.switch_tab(id, out),
            ChromeCommand::CloseTab(id) => self.close_tab(id, out),
            ChromeCommand::Ignored => {
                assert(fx_view(out@) =~= fx_view(old(out)@) + Seq::<EffectView>::empty());
            },
        }
    }
}

} // verus!

verus! {

/// The newest in-progress download, among the first `n`, that `pick` selects.
fn find_last_download_exec(ds: &Vec<DownloadEntry>, key: &str, by_file: bool) -> (r: Option<usize>)
    ensures
        opt_index(r) == find_last_download(
            downloads_view(ds@),
            if by_file {
                by_path(key@)
            } else {
                by_url(key@)
            },
            ds@.len() as int,
        ),
{
    let ghost dv = downloads_view(ds@);
    let ghost p = if by_file {
        by_path(key@)
    } else {
        by_url(key@)
    };
    let k = chars_of(key);
    let mut i = ds.len();
    while i > 0
        invariant
            i <= ds.len(),
            dv == downloads_view(ds@),
            k@ == key@,
            p == (if by_file {
                by_path(key@)
            } else {
                by_url(key@)
            }),
            find_last_download(dv, p, ds@.len() as int) == find_last_download(dv, p, i as int),
        decreases i,
    {
        let d = &ds[i - 1];
        assert(dv[i - 1] == d@);
        let field = if by_file {
            chars_of(d.file_path.as_str())
        } else {
            chars_of(d.url.as_str())
        };
        if d.status == DownloadStatus::InProgress && chars_eq(&field, &k) {
            return Some(i - 1);
        }
        i = i - 1;
    }
    None
}

fn size_for_path(sizes: &Vec<FileSize>, path: &str) -> (r: Option<u64>)
    ensures
        r == size_for(sizes_view(sizes@), path@, sizes@.len() as int),
{
    let ghost sv = sizes_view(sizes@);
    let p = chars_of(path);
    let mut i: usize = 0;
    while i < sizes.len()
        invariant
            i <= sizes.len(),
            sv == sizes_view(sizes@),
            p@ == path@,
            size_for(sv, path@, i as int) is None,
        decreases sizes.len() - i,
    {
        assert(sv[i as int] == sizes[i as int]@);
        if chars_eq(&chars_of(sizes[i].path.as_str()), &p) {
            proof {
                lemma_size_for_grows(sv, path@, i + 1, sizes@.len() as int);
            }
            return Some(sizes[i].bytes);
        }
        i = i + 1;
    }
    None
}

proof fn lemma_size_for_grows(sizes: Seq<FileSizeView>, path: Seq<char>, n: int, m: int)
    requires
        0 <= n <= m,
        size_for(sizes, path, n) is Some,
    ensures
        size_for(sizes, path, m) == size_for(sizes, path, n),
    decreases m - n,
{
    if m > n {
        lemma_size_for_grows(sizes, path, n, m - 1);
    }
}

impl BrowserState {
    fn title_changed(&mut self, tab_id: u32, title: String, out: &mut Vec<Effect>)
        requires
            active_ok(old(self)@),
        ensures
            final(self)@ == spec_handle_event(
                old(self)@,
                EventView::TitleChanged { tab_id, title: title@ },
                seq![],
            ).0,
            fx_view(final(out)@) == fx_view(old(out)@) + spec_handle_event(
                old(self)@,
                EventView::TitleChanged { tab_id, title: title@ },
                seq![],
            ).1,
    {
        let ghost s = self@;
        let ghost ev = EventView::TitleChanged { tab_id, title: title@ };
        let found = self.find_index(tab_id);
        proof {
            lemma_find_tab_upto(s.tabs, tab_id, s.tabs.len() as int);
        }
        match found {
            Some(i) => {
                if !trimmed(title.as_str()).as_str().is_empty() {
                    assert(s.tabs[i as int] == self.tabs[i as int]@);
                    self.tabs[i].title = title;
                    assert(self@ =~= spec_handle_event(s, ev, seq![]).0);
                    self.push_tabs(out);
                } else {
                    assert(fx_view(out@) =~= fx_view(old(out)@) + Seq::<EffectView>::empty());
                }
            },
            None => {
                assert(fx_view(out@) =~= fx_view(old(out)@) + Seq::<EffectView>::empty());
            },
        }
    }

    fn append_history(&mut self, title: String, url: String, now: &str)
        ensures
            final(self)@ == (StateView {
                history: append_history(old(self)@.history, title@, url@, now@),
                ..old(self)@
            }),
    {
        if url.as_str().is_empty() {
            return;
        }
        let title = if trimmed(title.as_str()).as_str().is_empty() {
            url.clone()
        } else {
            title
        };
        self.history.push(HistoryEntry { title, url, visited_at: String::from_str(now) });
        let ghost pushed = self.history@;
        keep_last_vec(&mut self.history, MAX_HISTORY_ENTRIES);
        assert(history_view(self.history@) =~= keep_last(
            history_view(pushed),
            MAX_HISTORY_ENTRIES as nat,
        ));
        assert(history_view(pushed) =~= old(self)@.history.push(visit(title@, url@, now@)));
        assert(self@ =~= (StateView {
            history: append_history(old(self)@.history, title@, url@, now@),
            ..old(self)@
        }));
    }

    fn page_loaded(&mut self, tab_id: u32, url: String, now: &str, out: &mut Vec<Effect>)
        requires
            active_ok(old(self)@),
        ensures
            final(self)@ == spec_handle_event(
                old(self)@,
                EventView::PageLoaded { tab_id, url: url@ },
                now@,
            ).0,
            fx_view(final(out)@) == fx_view(old(out)@) + spec_handle_event(
                old(self)@,
                EventView::PageLoaded { tab_id, url: url@ },
                now@,
            ).1,
    {
        let ghost s = self@;
        let ghost ev = EventView::PageLoaded { tab_id, url: url@ };
        let found = self.find_index(tab_id);
        proof {
            lemma_find_tab_upto(s.tabs, tab_id, s.tabs.len() as int);
        }
        let i = match found {
            Some(i) => i,
            None => {
                assert(fx_view(out@) =~= fx_view(old(out)@) + Seq::<EffectView>::empty());
                return;
            },
        };
        if url.as_str().is_empty() || chars_eq(&chars_of(url.as_str()), &chars_of("about:blank")) {
            assert(fx_view(out@) =~= fx_view(old(out)@) + Seq::<EffectView>::empty());
            return;
        }
        assert(s.tabs[i as int] == self.tabs[i as int]@);
        if !is_internal_page(url.as_str()) {
            let title = self.tabs[i].title.clone();
            self.append_history(title, url.clone(), now);
        }
        let loaded = self.tabs[i].loaded;
        self.tabs[i].url = url;
        assert(self@ =~= spec_handle_event(s, ev, now@).0);
        if loaded {
            let script = crate::chrome::page_adblock_script(self.adblock_enabled);
            emit(out, Effect::TabScript { tab_id: self.tabs[i].id, script });
        }
        self.push_tabs(out);
        assert(fx_view(out@) =~= fx_view(old(out)@) + spec_handle_event(s, ev, now@).1);
    }

    fn download_started(&mut self, url: String, file_path: String, now: &str, out: &mut Vec<Effect>)
        ensures
            final(self)@ == spec_handle_event(
                old(self)@,
                EventView::DownloadStarted { url: url@, file_path: file_path@ },
                now@,
            ).0,
            fx_view(final(out)@) == fx_view(old(out)@) + spec_handle_event(
                old(self)@,
                EventView::DownloadStarted { url: url@, file_path: file_path@ },
                now@,
            ).1,
    {
        let ghost s = self@;
        let ghost ev = EventView::DownloadStarted { url: url@, file_path: file_path@ };
        self.downloads.push(
            DownloadEntry {
                url,
                file_path,
                status: DownloadStatus::InProgress,
                downloaded_bytes: 0,
                total_bytes: None,
                updated_at: String::from_str(now),
            },
        );
        let ghost pushed = self.downloads@;
        keep_last_vec(&mut self.downloads, MAX_DOWNLOAD_ENTRIES);
        assert(downloads_view(self.downloads@) =~= keep_last(
            downloads_view(pushed),
            MAX_DOWNLOAD_ENTRIES as nat,
        ));
        assert(self@ =~= spec_handle_event(s, ev, now@).0);
        self.push_downloads(out);
    }

    fn download_total(&mut self, file_path: String, total_bytes: Option<u64>, out: &mut Vec<Effect>)
        ensures
            final(self)@ == spec_handle_event(
                old(self)@,
                EventView::DownloadTotal { file_path: file_path@, total_bytes },
                seq![],
            ).0,
            fx_view(final(out)@) == fx_view(old(out)@) + spec_handle_event(
                old(self)@,
                EventView::DownloadTotal { file_path: file_path@, total_bytes },
                seq![],
            ).1,
    {
        let ghost s = self@;
        let ghost ev = EventView::DownloadTotal { file_path: file_path@, total_bytes };
        match find_last_download_exec(&self.downloads, file_path.as_str(), true) {
            Some(i) => {
                proof {
                    lemma_find_last_download(s.downloads, by_path(file_path@), s.downloads.len() as int);
                }
                self.downloads[i].total_bytes = total_bytes;
                assert(self@ =~= spec_handle_event(s, ev, seq![]).0);
                self.push_downloads(out);
            },
            None => {
                assert(fx_view(out@) =~= fx_view(old(out)@) + Seq::<EffectView>::empty());
            },
        }
    }

    fn download_tick(&mut self, sizes: &Vec<FileSize>, out: &mut Vec<Effect>)
        ensures
            final(self)@ == spec_handle_event(
                old(self)@,
                EventView::DownloadTick { sizes: sizes_view(sizes@) },
                seq![],
            ).0,
            fx_view(final(out)@) == fx_view(old(out)@) + spec_handle_event(
                old(self)@,
                EventView::DownloadTick { sizes: sizes_view(sizes@) },
                seq![],
            ).1,
    {
        let ghost s = self@;
        let ghost sv = sizes_view(sizes@);
        let ghost ds = s.downloads;
        let mut changed = false;
        let mut i: usize = 0;
        while i < self.downloads.len()
            invariant
                i <= self.downloads.len(),
                self.downloads.len() == ds.len(),
                sv == sizes_view(sizes@),
                ds == s.downloads,
                self@ == (StateView { downloads: self@.downloads, ..s }),
                forall|k: int| 0 <= k < i ==> #[trigger] self@.downloads[k] == ticked(ds[k], sv),
                forall|k: int| i <= k < ds.len() ==> #[trigger] self@.downloads[k] == ds[k],
                changed == exists|k: int|
                    0 <= k < i && (#[trigger] ticked(ds[k], sv)).downloaded_bytes
                        != ds[k].downloaded_bytes,
            decreases self.downloads.len() - i,
        {
            assert(self@.downloads[i as int] == self.downloads[i as int]@);
            let ghost prev = self@.downloads;
            if self.downloads[i].status == DownloadStatus::InProgress {
                match size_for_path(sizes, self.downloads[i].file_path.as_str()) {
                    Some(bytes) => {
                        if bytes != self.downloads[i].downloaded_bytes {
                            self.downloads[i].downloaded_bytes = bytes;
                            changed = true;
                        }
                    },
                    None => {},
                }
            }
            assert(self@.downloads =~= prev.update(i as int, ticked(ds[i as int], sv)));
            assert(changed == exists|k: int|
                0 <= k < i + 1 && (#[trigger] ticked(ds[k], sv)).downloaded_bytes
                    != ds[k].downloaded_bytes) by {
                if changed {
                    if !(exists|k: int|
                        0 <= k < i && (#[trigger] ticked(ds[k], sv)).downloaded_bytes
                            != ds[k].downloaded_bytes) {
                        assert(ticked(ds[i as int], sv).downloaded_bytes
                            != ds[i as int].downloaded_bytes);
                    }
                }
            }
            i = i + 1;
        }
        let ghost ev = EventView::DownloadTick { sizes: sv };
        let ghost nds = Seq::new(s.downloads.len(), |k: int| ticked(s.downloads[k], sv));
        assert(self@.downloads =~= nds);
        assert(self@ =~= spec_handle_event(s, ev, seq![]).0);
        assert(changed == exists|k: int|
            0 <= k < s.downloads.len() && (#[trigger] nds[k]).downloaded_bytes
                != s.downloads[k].downloaded_bytes) by {
            if changed {
                let k = choose|k: int|
                    0 <= k < i && (#[trigger] ticked(ds[k], sv)).downloaded_bytes
                        != ds[k].downloaded_bytes;
                assert(nds[k] == ticked(ds[k], sv));
            }
        }
        if changed {
            self.push_downloads(out);
        } else {
            assert(fx_view(out@) =~= fx_view(old(out)@) + Seq::<EffectView>::empty());
        }
    }

    fn download_completed(
        &mut self,
        url: String,
        file_path: Option<String>,
        success: bool,
        size_on_disk: Option<u64>,
        now: &str,
        out: &mut Vec<Effect>,
    )
        ensures
            final(self)@ == spec_handle_event(
                old(self)@,
                EventView::DownloadCompleted {
                    url: url@,
                    file_path: opt_chars(file_path),
                    success,
                    size_on_disk,
                },
                now@,
            ).0,
            fx_view(final(out)@) == fx_view(old(out)@) + spec_handle_event(
                old(self)@,
                EventView::DownloadCompleted {
                    url: url@,
                    file_path: opt_chars(file_path),
                    success,
                    size_on_disk,
                },
                now@,
            ).1,
    {
        let ghost s = self@;
        let ghost ev = EventView::DownloadCompleted {
            url: url@,
            file_path: opt_chars(file_path),
            success,
            size_on_disk,
        };
        let path = match file_path {
            Some(p) => p,
            None => String::from_str("Unknown destination"),
        };
        let status = if success {
            DownloadStatus::Completed
        } else {
            DownloadStatus::Failed
        };
        match find_last_download_exec(&self.downloads, url.as_str(), false) {
            Some(i) => {
                proof {
                    lemma_find_last_download(s.downloads, by_url(url@), s.downloads.len() as int);
                }
                assert(s.downloads[i as int] == self.downloads[i as int]@);
                self.downloads[i].file_path = path;
                self.downloads[i].status = status;
                match size_on_disk {
                    Some(b) => {
                        self.downloads[i].downloaded_bytes = b;
                    },
                    None => {},
                }
                self.downloads[i].updated_at = String::from_str(now);
                assert(self@ =~= spec_handle_event(s, ev, now@).0);
            },
            None => {
                self.downloads.push(
                    DownloadEntry {
                        url,
                        file_path: path,
                        status,
                        downloaded_bytes: 0,
                        total_bytes: None,
                        updated_at: String::from_str(now),
                    },
                );
                let ghost pushed = self.downloads@;
                keep_last_vec(&mut self.downloads, MAX_DOWNLOAD_ENTRIES);
                assert(downloads_view(self.downloads@) =~= keep_last(
                    downloads_view(pushed),
                    MAX_DOWNLOAD_ENTRIES as nat,
                ));
                assert(self@ =~= spec_handle_event(s, ev, now@).0);
            },
        }
        self.push_downloads(out);
    }

    fn open_in_new_tab(&mut self, url: String, out: &mut Vec<Effect>)
        requires
            ids_left_for(old(self)@, EventView::OpenInNewTab { url: url@ }),
        ensures
            final(self)@ == spec_handle_event(
                old(self)@,
                EventView::OpenInNewTab { url: url@ },
                seq![],
            ).0,
            fx_view(final(out)@) == fx_view(old(out)@) + spec_handle_event(
                old(self)@,
                EventView::OpenInNewTab { url: url@ },
                seq![],
            ).1,
    {
        let ghost s = self@;
        let ghost ev = EventView::OpenInNewTab { url: url@ };
        if !should_open_new_tab_url(url.as_str()) {
            assert(fx_view(out@) =~= fx_view(old(out)@) + Seq::<EffectView>::empty());
            return;
        }
        let t = trimmed(url.as_str());
        let host = host_of(t.as_str());
        if !host.as_str().is_empty() && self.hosts_contain(host.as_str()) {
            self.request_tab(t, None, out);
        } else if self.pending_popup.is_none() {
            self.pending_popup = Some(PendingPopup { url: t, host });
            assert(self@ =~= spec_handle_event(s, ev, seq![]).0);
            self.push_popup_prompt(out);
            emit(out, Effect::Reflow);
            assert(fx_view(out@) =~= fx_view(old(out)@) + spec_handle_event(s, ev, seq![]).1);
        } else {
            assert(fx_view(out@) =~= fx_view(old(out)@) + Seq::<EffectView>::empty());
        }
    }
}

pub proof fn lemma_find_last_download(ds: Seq<DownloadView>, p: spec_fn(DownloadView) -> bool, n: int)
    requires
        0 <= n <= ds.len(),
    ensures
        match find_last_download(ds, p, n) {
            Some(i) => 0 <= i < n && in_progress(ds[i]) && p(ds[i]),
            None => forall|k: int| 0 <= k < n ==> !(in_progress(#[trigger] ds[k]) && p(ds[k])),
        },
    decreases n,
{
    if n > 0 {
        lemma_find_last_download(ds, p, n - 1);
    }
}

} // verus!

verus! {

impl BrowserState {
    /// Opens the first tab, showing `url`.
    pub fn start(&mut self, url: String) -> (fx: Vec<Effect>)
        requires
            old(self)@.next_id < u32::MAX,
        ensures
            final(self)@ == request_tab(old(self)@, url@, None).0,
            fx_view(fx@) == request_tab(old(self)@, url@, None).1,
    {
        let mut out: Vec<Effect> = Vec::new();
        self.request_tab(url, None, &mut out);
        assert(fx_view(out@) =~= Seq::<EffectView>::empty() + request_tab(old(self)@, url@, None).1);
        out
    }

    fn dispatch(&mut self, ev: UserEvent, now: &str, out: &mut Vec<Effect>)
        requires
            active_ok(old(self)@),
            ids_left_for(old(self)@, ev@),
        ensures
            final(self)@ == spec_handle_event(old(self)@, ev@, now@).0,
            fx_view(final(out)@) == fx_view(old(out)@) + spec_handle_event(old(self)@, ev@, now@).1,
    {
        match ev {
            UserEvent::ChromeIpc(message) => {
                let cmd = parse_chrome_message(message.as_str());
                self.handle_command(cmd, out);
            },
            UserEvent::TitleChanged { tab_id, title } => self.title_changed(tab_id, title, out),
            UserEvent::PageLoaded { tab_id, url } => self.page_loaded(tab_id, url, now, out),
            UserEvent::DownloadStarted { url, file_path } => self.download_started(
                url,
                file_path,
                now,
                out,
            ),
            UserEvent::DownloadTotal { file_path, total_bytes } => self.download_total(
                file_path,
                total_bytes,
                out,
            ),
            UserEvent::DownloadTick { sizes } => self.download_tick(&sizes, out),
            UserEvent::DownloadCompleted { url, file_path, success, size_on_disk } => self.download_completed(
                url,
                file_path,
                success,
                size_on_disk,
                now,
                out,
            ),
            UserEvent::OpenInNewTab { url } => self.open_in_new_tab(url, out),
            UserEvent::Quit => {
                assert(fx_view(out@) =~= fx_view(old(out)@) + Seq::<EffectView>::empty());
            },
        }
    }

    /// Reacts to an event: the new state and the effects are what
    /// `spec_handle_event` says, and the state's invariant holds after.
    /// `now` is the time stamp recorded on visits and downloads.
    pub fn handle_event(&mut self, ev: UserEvent, now: &str) -> (fx: Vec<Effect>)
        requires
            state_wf(old(self)@),
            old(self)@.awaiting is None,
            ids_left_for(old(self)@, ev@),
        ensures
            final(self)@ == spec_handle_event(old(self)@, ev@, now@).0,
            fx_view(fx@) == spec_handle_event(old(self)@, ev@, now@).1,
            state_wf(final(self)@),
    {
        let ghost s = self@;
        let ghost e = ev@;
        let mut out: Vec<Effect> = Vec::new();
        self.dispatch(ev, now, &mut out);
        assert(fx_view(out@) =~= Seq::<EffectView>::empty() + spec_handle_event(s, e, now@).1);
        proof {
            lemma_handle_event_wf(s, e, now@);
        }
        out
    }

    fn new_tab_shown(&mut self, tab_id: u32, out: &mut Vec<Effect>)
        requires
            active_ok(old(self)@),
        ensures
            final(self)@ == spec_new_tab_shown(old(self)@, tab_id).0,
            fx_view(final(out)@) == fx_view(old(out)@) + spec_new_tab_shown(old(self)@, tab_id).1,
    {
        self.suspend_background_tabs(out);
        self.apply_visibility(out);
        self.push_tabs(out);
        self.push_downloads(out);
        self.push_adblock(out);
        self.push_popup_prompt(out);
        if self.adblock_enabled {
            let script = crate::chrome::page_adblock_script(true);
            emit(out, Effect::TabScript { tab_id, script });
        }
        assert(fx_view(out@) =~= fx_view(old(out)@) + spec_new_tab_shown(old(self)@, tab_id).1);
    }

    fn tab_opened(&mut self, tab_id: u32, url: String, title: Option<String>, out: &mut Vec<Effect>)
        ensures
            final(self)@ == spec_tab_opened(old(self)@, tab_id, url@, opt_chars(title)).0,
            fx_view(final(out)@) == fx_view(old(out)@) + spec_tab_opened(
                old(self)@,
                tab_id,
                url@,
                opt_chars(title),
            ).1,
    {
        let ghost s = self@;
        let ghost tab = TabView { id: tab_id, title: new_tab_title(), url: url@, kir_enabled: false, loaded: true };
        self.tabs.push(
            Tab { id: tab_id, title: String::from_str("New Tab"), url, kir_enabled: false, loaded: true },
        );
        self.active = self.tabs.len() - 1;
        let ghost s1 = StateView { tabs: s.tabs.push(tab), active: s.tabs.len() as int, ..s };
        assert(self@ =~= s1);
        self.new_tab_shown(tab_id, out);
        let ghost s2 = self@;
        match title {
            Some(t) => {
                let last = self.tabs.len() - 1;
                assert(self@.tabs[last as int] == self.tabs[last as int]@);
                self.tabs[last].title = t;
                assert(self@ =~= spec_tab_opened(s, tab_id, url@, opt_chars(title)).0);
                self.push_tabs(out);
                assert(fx_view(out@) =~= fx_view(old(out)@) + spec_tab_opened(
                    s,
                    tab_id,
                    url@,
                    opt_chars(title),
                ).1);
            },
            None => {},
        }
    }

    /// Carries a step on once the shell has tried to build the webview the
    /// browser waits for: `Some(mode)` when it was built (and how it is hosted),
    /// `None` when building failed.
    pub fn finish_build(&mut self, outcome: Option<HostMode>) -> (fx: Vec<Effect>)
        requires
            state_wf(old(self)@),
            old(self)@.awaiting is Some,
        ensures
            final(self)@ == spec_finish_build(old(self)@, outcome).0,
            fx_view(fx@) == spec_finish_build(old(self)@, outcome).1,
            state_wf(final(self)@),
    {
        let ghost s = self@;
        let mut out: Vec<Effect> = Vec::new();
        let pending = self.awaiting.take();
        match (pending, outcome) {
            (Some(b), Some(mode)) => {
                self.host_mode = mode;
                match b.purpose {
                    BuildPurpose::NewTab { url, title } => {
                        self.tab_opened(b.tab_id, url, title, &mut out);
                    },
                    BuildPurpose::LoadTab { index, then } => {
                        assert(self@.tabs[index as int] == self.tabs[index as int]@);
                        self.tabs[index].loaded = true;
                        assert(self@ =~= (StateView {
                            tabs: s.tabs.update(
                                index as int,
                                TabView { loaded: true, ..s.tabs[index as int] },
                            ),
                            host_mode: mode,
                            awaiting: None,
                            ..s
                        }));
                        self.after_load(then, &mut out);
                    },
                }
            },
            _ => {
                assert(self@ =~= spec_finish_build(s, outcome).0);
            },
        }
        assert(fx_view(out@) =~= Seq::<EffectView>::empty() + spec_finish_build(s, outcome).1);
        proof {
            lemma_finish_build_wf(s, outcome);
        }
        out
    }
}

} // verus!

verus! {

// ---------- The invariant is kept -------------------------------------------

proof fn lemma_update_tab_ok(tabs: Seq<TabView>, n: u32, i: int, t: TabView)
    requires
        tabs_ok(tabs, n),
        0 <= i < tabs.len(),
        t.id == tabs[i].id,
    ensures
        tabs_ok(tabs.update(i, t), n),
{
    let u = tabs.update(i, t);
    assert forall|a: int| 0 <= a < u.len() implies #[trigger] u[a].id == tabs[a].id by {}
    assert forall|a: int, b: int| 0 <= a < u.len() && 0 <= b < u.len() && a != b implies #[trigger] u[a].id
        != #[trigger] u[b].id by {
        assert(u[a].id == tabs[a].id);
        assert(u[b].id == tabs[b].id);
    }
}

proof fn lemma_remove_tab_ok(tabs: Seq<TabView>, n: u32, i: int)
    requires
        tabs_ok(tabs, n),
        0 <= i < tabs.len(),
    ensures
        tabs_ok(tabs.remove(i), n),
{
    let u = tabs.remove(i);
    assert forall|a: int| 0 <= a < u.len() implies #[trigger] u[a].id < n by {
        if a < i {
            assert(u[a] == tabs[a]);
        } else {
            assert(u[a] == tabs[a + 1]);
        }
    }
    assert forall|a: int, b: int| 0 <= a < u.len() && 0 <= b < u.len() && a != b implies #[trigger] u[a].id
        != #[trigger] u[b].id by {
        let a1 = if a < i {
            a
        } else {
            a + 1
        };
        let b1 = if b < i {
            b
        } else {
            b + 1
        };
        assert(u[a] == tabs[a1]);
        assert(u[b] == tabs[b1]);
        assert(tabs[a1].id != tabs[b1].id);
    }
}

proof fn lemma_push_tab_ok(tabs: Seq<TabView>, n: u32, t: TabView)
    requires
        tabs_ok(tabs, n),
        t.id < n,
        forall|k: int| 0 <= k < tabs.len() ==> #[trigger] tabs[k].id != t.id,
    ensures
        tabs_ok(tabs.push(t), n),
{
    let u = tabs.push(t);
    assert forall|a: int| 0 <= a < u.len() implies #[trigger] u[a].id < n by {
        if a < tabs.len() {
            assert(u[a] == tabs[a]);
        }
    }
    assert forall|a: int, b: int| 0 <= a < u.len() && 0 <= b < u.len() && a != b implies #[trigger] u[a].id
        != #[trigger] u[b].id by {
        if a < tabs.len() {
            assert(u[a] == tabs[a]);
        }
        if b < tabs.len() {
            assert(u[b] == tabs[b]);
        }
    }
}

proof fn lemma_suspend_wf(s: StateView)
    requires
        state_wf(s),
        s.awaiting is None,
    ensures
        state_wf(suspend(s).0),
        suspend(s).0.awaiting is None,
        suspend(s).0.tabs.len() == s.tabs.len(),
{
    let u = suspend(s).0.tabs;
    assert forall|a: int| 0 <= a < u.len() implies #[trigger] u[a].id == s.tabs[a].id by {}
    assert forall|a: int, b: int| 0 <= a < u.len() && 0 <= b < u.len() && a != b implies #[trigger] u[a].id
        != #[trigger] u[b].id by {
        assert(u[a].id == s.tabs[a].id);
        assert(u[b].id == s.tabs[b].id);
    }
}

proof fn lemma_settle_wf(s: StateView)
    requires
        state_wf(s),
        s.awaiting is None,
    ensures
        state_wf(settle(s).0),
        settle(s).0.awaiting is None,
{
    lemma_suspend_wf(s);
}

proof fn lemma_after_load_wf(s: StateView, then: AfterLoadView)
    requires
        state_wf(s),
        s.awaiting is None,
    ensures
        state_wf(after_load(s, then).0),
        after_load(s, then).0.awaiting is None,
{
    match then {
        AfterLoadView::Navigate(url) => {
            if 0 <= s.active < s.tabs.len() {
                let t = s.tabs[s.active];
                lemma_update_tab_ok(
                    s.tabs,
                    s.next_id,
                    s.active,
                    TabView { url: url, title: loading_title(), ..t },
                );
            }
        },
        _ => lemma_settle_wf(s),
    }
}

proof fn lemma_ensure_loaded_wf(s: StateView, index: int, then: AfterLoadView)
    requires
        state_wf(s),
        s.awaiting is None,
    ensures
        state_wf(ensure_loaded(s, index, then).0),
{
    if index < 0 || index >= s.tabs.len() || s.tabs[index].loaded {
        lemma_after_load_wf(s, then);
    }
}

proof fn lemma_request_tab_wf(s: StateView, url: Seq<char>, title: Option<Seq<char>>)
    requires
        state_wf(s),
        s.next_id < u32::MAX,
    ensures
        state_wf(request_tab(s, url, title).0),
{
    let s1 = request_tab(s, url, title).0;
    assert forall|i: int| 0 <= i < s1.tabs.len() implies #[trigger] s1.tabs[i].id < s1.next_id by {
        assert(s.tabs[i].id < s.next_id);
    }
    assert forall|i: int| 0 <= i < s1.tabs.len() implies #[trigger] s1.tabs[i].id != s.next_id by {
        assert(s.tabs[i].id < s.next_id);
    }
}

proof fn lemma_close_tab_wf(s: StateView, id: u32)
    requires
        state_wf(s),
        s.awaiting is None,
    ensures
        state_wf(close_tab(s, id).0),
{
    lemma_find_tab_upto(s.tabs, id, s.tabs.len() as int);
    match find_tab(s.tabs, id) {
        None => {},
        Some(index) => {
            let tabs = s.tabs.remove(index);
            lemma_remove_tab_ok(s.tabs, s.next_id, index);
            if tabs.len() != 0 {
                let active = if s.active >= tabs.len() {
                    tabs.len() - 1
                } else if index < s.active {
                    s.active - 1
                } else {
                    s.active
                };
                let s1 = StateView { tabs, active, ..s };
                assert(state_wf(s1));
                lemma_ensure_loaded_wf(s1, active, AfterLoadView::Closed);
            }
        },
    }
}

proof fn lemma_command_wf(s: StateView, c: CommandView)
    requires
        state_wf(s),
        s.awaiting is None,
        s.next_id < u32::MAX || !command_allocates(s, c),
    ensures
        state_wf(spec_command(s, c).0),
{
    match c {
        CommandView::Navigate(raw) => lemma_ensure_loaded_wf(
            s,
            s.active,
            AfterLoadView::Navigate(spec_normalize_url(raw)),
        ),
        CommandView::NewTab => lemma_request_tab_wf(s, new_tab_url(), None),
        CommandView::OpenProperties => lemma_request_tab_wf(
            s,
            crate::properties::spec_properties_data_url(s.history, s.downloads),
            Some(properties_title()),
        ),
        CommandView::PopupAllowYes => match s.pending_popup {
            None => {},
            Some(p) => {
                let s1 = StateView {
                    pending_popup: None,
                    popup_allow_hosts: allow_host(s.popup_allow_hosts, p.host),
                    ..s
                };
                let h = s.popup_allow_hosts;
                if !(p.host.len() == 0 || h.contains(p.host)) {
                    let h1 = h.push(p.host);
                    assert forall|i: int, j: int|
                        0 <= i < h1.len() && 0 <= j < h1.len() && i != j implies #[trigger] h1[i]
                        != #[trigger] h1[j] by {
                        if i < h.len() && j < h.len() {
                            assert(h1[i] == h[i] && h1[j] == h[j]);
                        } else if i < h.len() {
                            assert(h1[i] == h[i]);
                        } else if j < h.len() {
                            assert(h1[j] == h[j]);
                        }
                    }
                }
                assert(state_wf(s1));
                lemma_request_tab_wf(s1, p.url, None);
            },
        },
        CommandView::CloseActiveTab => if s.tabs.len() > 0 {
            lemma_close_tab_wf(s, s.tabs[s.active].id);
        },
        CommandView::ToggleKir(id) => {
            lemma_find_tab_upto(s.tabs, id, s.tabs.len() as int);
            match find_tab(s.tabs, id) {
                None => {},
                Some(i) => {
                    let t = s.tabs[i];
                    let kir = !t.kir_enabled;
                    let unload = i != s.active && !kir;
                    let t1 = TabView { kir_enabled: kir, loaded: if unload {
                        false
                    } else {
                        t.loaded
                    }, ..t };
                    lemma_update_tab_ok(s.tabs, s.next_id, i, t1);
                },
            }
        },
        CommandView::SwitchTab(id) => {
            lemma_find_tab_upto(s.tabs, id, s.tabs.len() as int);
            match find_tab(s.tabs, id) {
                None => {},
                Some(i) => lemma_ensure_loaded_wf(
                    StateView { active: i, ..s },
                    i,
                    AfterLoadView::Switched,
                ),
            }
        },
        CommandView::CloseTab(id) => lemma_close_tab_wf(s, id),
        _ => {},
    }
}

proof fn lemma_keep_last_len<A>(s: Seq<A>, max: nat)
    ensures
        keep_last(s, max).len() <= max || keep_last(s, max) == s,
        s.len() <= max + 1 ==> keep_last(s, max).len() <= max,
{
}

/// Every event keeps the state's invariant.
pub proof fn lemma_handle_event_wf(s: StateView, ev: EventView, now: Seq<char>)
    requires
        state_wf(s),
        s.awaiting is None,
        ids_left_for(s, ev),
    ensures
        state_wf(spec_handle_event(s, ev, now).0),
{
    match ev {
        EventView::ChromeIpc(m) => {
            lemma_command_wf(s, spec_parse_chrome_message(m));
        },
        EventView::TitleChanged { tab_id, title } => {
            lemma_find_tab_upto(s.tabs, tab_id, s.tabs.len() as int);
            match find_tab(s.tabs, tab_id) {
                Some(i) => lemma_update_tab_ok(s.tabs, s.next_id, i, TabView { title, ..s.tabs[i] }),
                None => {},
            }
        },
        EventView::PageLoaded { tab_id, url } => {
            lemma_find_tab_upto(s.tabs, tab_id, s.tabs.len() as int);
            match find_tab(s.tabs, tab_id) {
                Some(i) => lemma_update_tab_ok(s.tabs, s.next_id, i, TabView { url, ..s.tabs[i] }),
                None => {},
            }
        },
        EventView::DownloadStarted { url, file_path } => {},
        EventView::DownloadTotal { file_path, total_bytes } => {
            lemma_find_last_download(s.downloads, by_path(file_path), s.downloads.len() as int);
        },
        EventView::DownloadTick { sizes } => {},
        EventView::DownloadCompleted { url, file_path, success, size_on_disk } => {
            lemma_find_last_download(s.downloads, by_url(url), s.downloads.len() as int);
        },
        EventView::OpenInNewTab { url } => {
            let t = trim(url);
            if spec_should_open_new_tab_url(url) && spec_host_of(t).len() != 0
                && s.popup_allow_hosts.contains(spec_host_of(t)) {
                lemma_request_tab_wf(s, t, None);
            }
        },
        EventView::Quit => {},
    }
}

/// The outcome of a webview build keeps the state's invariant.
pub proof fn lemma_finish_build_wf(s: StateView, outcome: Option<HostMode>)
    requires
        state_wf(s),
        s.awaiting is Some,
    ensures
        state_wf(spec_finish_build(s, outcome).0),
{
    match (s.awaiting, outcome) {
        (Some(b), Some(mode)) => {
            let s0 = StateView { host_mode: mode, awaiting: None, ..s };
            match b.purpose {
                BuildPurposeView::NewTab { url, title } => {
                    let tab = TabView {
                        id: b.tab_id,
                        title: new_tab_title(),
                        url,
                        kir_enabled: false,
                        loaded: true,
                    };
                    lemma_push_tab_ok(s0.tabs, s0.next_id, tab);
                    let s1 = StateView {
                        tabs: s0.tabs.push(tab),
                        active: s0.tabs.len() as int,
                        ..s0
                    };
                    lemma_suspend_wf(s1);
                    let s2 = suspend(s1).0;
                    match title {
                        None => {},
                        Some(t) => {
                            let last = s2.tabs.len() - 1;
                            lemma_update_tab_ok(s2.tabs, s2.next_id, last, TabView { title: t, ..s2.tabs[last] });
                        },
                    }
                },
                BuildPurposeView::LoadTab { index, then } => {
                    lemma_update_tab_ok(s0.tabs, s0.next_id, index, TabView { loaded: true, ..s0.tabs[index] });
                    let s1 = StateView {
                        tabs: s0.tabs.update(index, TabView { loaded: true, ..s0.tabs[index] }),
                        ..s0
                    };
                    lemma_after_load_wf(s1, then);
                },
            }
        },
        _ => {},
    }
}

} // verus!
