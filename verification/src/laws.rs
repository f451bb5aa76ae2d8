//! What holds of the browser across all inputs and across steps.

use vstd::prelude::*;
use vstd::utf8::encode_utf8;
use crate::address::{
    fallback_filename, form_urlencoded, hex_upper, internal_page_prefix, is_unsafe_filename_char,
    sanitize_char, search_prefix, spec_filename_from_url, spec_host_of, spec_looks_like_address,
    spec_normalize_url, spec_sanitize_filename, spec_should_open_new_tab_url, urlencode_byte,
    urlencode_unchanged,
};
use crate::browser::{
    allow_host, close_tab, ensure_loaded, find_tab, fx_push_popup, keep_last, lemma_find_tab_upto,
    spec_chrome_height, spec_finish_build, spec_handle_event, spec_parse_chrome_message, state_wf,
    suspend, suspended_tab, visit, AfterLoadView, BuildPurposeView, CommandView, EffectView,
    EventView, HostMode, PendingBuildView, PopupView, StateView, MAX_HISTORY_ENTRIES,
    by_url, find_last_download, tabs_ok, active_ok, hosts_unique, ids_left_for,
    lemma_handle_event_wf, lemma_finish_build_wf, spec_command, in_progress, ticked, DownloadStatus, FileSizeView,
    MAX_DOWNLOAD_ENTRIES, DownloadView, HistoryView,
};
use crate::properties::{
    download_row, download_rows, download_rows_of, downloads_section_head, downloads_table_head,
    history_row, history_rows, history_rows_of, history_table_head, newest_first, page_head,
    page_tail, properties_html, rows_note,
};
use crate::text::{
    eq_pred, is_whitespace, lemma_trim_by_edges, lemma_trim_by_fixed, starts_with, trim, trim_char,
    ws_pred,
};

verus! {

// ---------- File names ------------------------------------------------------

proof fn lemma_stretch_keeps(s: Seq<char>, t: Seq<char>, safe: spec_fn(char) -> bool)
    requires
        forall|i: int| 0 <= i < s.len() ==> #[trigger] safe(s[i]),
        exists|a: int, b: int| 0 <= a <= b <= s.len() && t == #[trigger] s.subrange(a, b),
    ensures
        forall|i: int| 0 <= i < t.len() ==> #[trigger] safe(t[i]),
{
    let (a, b) = choose|a: int, b: int| 0 <= a <= b <= s.len() && t == #[trigger] s.subrange(a, b);
    assert forall|i: int| 0 <= i < t.len() implies #[trigger] safe(t[i]) by {
        assert(t[i] == s[a + i]);
    }
}

pub open spec fn filename_safe() -> spec_fn(char) -> bool {
    |c: char| !is_unsafe_filename_char(c)
}

/// A name that `sanitize_filename` gives is never empty and holds none of
/// the characters that file systems refuse (`< > : " / \ | ? *`) and no
/// control character.
pub proof fn law_sanitized_name_is_safe(raw: Seq<char>)
    ensures
        spec_sanitize_filename(raw).len() > 0,
        forall|i: int|
            0 <= i < spec_sanitize_filename(raw).len() ==> !is_unsafe_filename_char(
                #[trigger] spec_sanitize_filename(raw)[i],
            ),
{
    let safe = filename_safe();
    let out = raw.map_values(|c: char| sanitize_char(c));
    assert forall|i: int| 0 <= i < out.len() implies #[trigger] safe(out[i]) by {
        assert(out[i] == sanitize_char(raw[i]));
    }
    let dotless = trim_char(out, '.');
    lemma_trim_by_edges(out, eq_pred('.'));
    lemma_stretch_keeps(out, dotless, safe);
    let t = trim(dotless);
    lemma_trim_by_edges(dotless, ws_pred());
    lemma_stretch_keeps(dotless, t, safe);
    if t.len() == 0 {
        reveal_strlit("download.bin");
        let f = fallback_filename();
        assert forall|i: int| 0 <= i < f.len() implies #[trigger] safe(f[i]) by {}
    }
    let r = spec_sanitize_filename(raw);
    assert forall|i: int| 0 <= i < r.len() implies !is_unsafe_filename_char(#[trigger] r[i]) by {
        assert(safe(r[i]));
    }
}

/// The name a download is saved under is never empty and holds no character
/// that file systems refuse.
pub proof fn law_download_name_is_safe(url: Seq<char>)
    ensures
        spec_filename_from_url(url).len() > 0,
        forall|i: int|
            0 <= i < spec_filename_from_url(url).len() ==> !is_unsafe_filename_char(
                #[trigger] spec_filename_from_url(url)[i],
            ),
{
    let raw = match crate::address::url_parts_of(url) {
        Some((_, _, path)) => match crate::address::last_path_segment(path) {
            Some(seg) => if trim(seg).len() > 0 {
                trim(seg)
            } else {
                fallback_filename()
            },
            None => fallback_filename(),
        },
        None => fallback_filename(),
    };
    assert(spec_filename_from_url(url) == spec_sanitize_filename(raw));
    law_sanitized_name_is_safe(raw);
}

// ---------- The URL bar -----------------------------------------------------

/// Whatever is typed into the URL bar, the browser goes to `about:blank` or
/// to an `http://` or `https://` address.
pub proof fn law_normalized_is_web_address(input: Seq<char>)
    ensures
        spec_normalize_url(input) == "about:blank"@ || starts_with(
            spec_normalize_url(input),
            "http://"@,
        ) || starts_with(spec_normalize_url(input), "https://"@),
{
    let t = trim(input);
    if t == "about:blank"@ {
    } else if starts_with(t, "http://"@) || starts_with(t, "https://"@) {
    } else if spec_looks_like_address(t) {
        assert(("https://"@ + t).subrange(0, "https://"@.len() as int) =~= "https://"@);
    } else {
        reveal_strlit("https://duckduckgo.com/?q=");
        reveal_strlit("https://");
        let r = search_prefix() + form_urlencoded(encode_utf8(t));
        assert(r.subrange(0, 8) =~= "https://"@);
    }
}

proof fn lemma_urlencoded_has_no_whitespace(bytes: Seq<u8>)
    ensures
        forall|i: int|
            0 <= i < form_urlencoded(bytes).len() ==> !is_whitespace(
                #[trigger] form_urlencoded(bytes)[i],
            ),
    decreases bytes.len(),
{
    if bytes.len() > 0 {
        lemma_urlencoded_has_no_whitespace(bytes.drop_first());
        let b = bytes[0];
        let head = urlencode_byte(b);
        assert forall|i: int| 0 <= i < head.len() implies !is_whitespace(#[trigger] head[i]) by {
            if urlencode_unchanged(b) {
                assert(head[i] == b as char);
            } else if b == 32 {
            } else {
                let hi = (b / 16) as nat;
                let lo = (b % 16) as nat;
                assert(hi < 16 && lo < 16);
                assert(!is_whitespace(hex_upper(hi)));
                assert(!is_whitespace(hex_upper(lo)));
            }
        }
        let rest = form_urlencoded(bytes.drop_first());
        assert(form_urlencoded(bytes) == head + rest);
        assert forall|i: int| 0 <= i < form_urlencoded(bytes).len() implies !is_whitespace(
            #[trigger] form_urlencoded(bytes)[i],
        ) by {
            if i < head.len() {
                assert(form_urlencoded(bytes)[i] == head[i]);
            } else {
                assert(form_urlencoded(bytes)[i] == rest[i - head.len()]);
            }
        }
    }
}

proof fn lemma_trim_fixed(s: Seq<char>)
    requires
        s.len() > 0 ==> !is_whitespace(s[0]) && !is_whitespace(s.last()),
    ensures
        trim(s) == s,
{
    lemma_trim_by_fixed(s, ws_pred());
}

/// Taking what the URL bar produced and entering it again changes nothing:
/// `normalize_url` is idempotent.
pub proof fn law_normalize_url_idempotent(input: Seq<char>)
    ensures
        spec_normalize_url(spec_normalize_url(input)) == spec_normalize_url(input),
{
    let t = trim(input);
    lemma_trim_by_edges(input, ws_pred());
    lemma_trim_fixed(t);
    let r = spec_normalize_url(input);
    reveal_strlit("about:blank");
    reveal_strlit("https://");
    reveal_strlit("http://");
    if t == "about:blank"@ {
    } else if starts_with(t, "http://"@) || starts_with(t, "https://"@) {
    } else if spec_looks_like_address(t) {
        assert(r == "https://"@ + t);
        assert(r[0] == 'h');
        if t.len() > 0 {
            assert(r.last() == t.last());
        }
        lemma_trim_fixed(r);
        assert(r.subrange(0, 8) =~= "https://"@);
        assert(r != "about:blank"@) by {
            assert(r[0] != "about:blank"@[0]);
        }
    } else {
        reveal_strlit("https://duckduckgo.com/?q=");
        let enc = form_urlencoded(encode_utf8(t));
        lemma_urlencoded_has_no_whitespace(encode_utf8(t));
        assert(r == search_prefix() + enc);
        if enc.len() > 0 {
            assert(r.last() == enc[enc.len() - 1]);
        }
        lemma_trim_fixed(r);
        assert(r.subrange(0, 8) =~= "https://"@);
        assert(r != "about:blank"@) by {
            assert(r[0] != "about:blank"@[0]);
        }
    }
}

} // verus!

verus! {

// ---------- The session's history --------------------------------------------

/// Where the tab with id `id` stands, when tab ids are distinct.
proof fn lemma_find_known_tab(s: StateView, i: int)
    requires
        state_wf(s),
        0 <= i < s.tabs.len(),
    ensures
        find_tab(s.tabs, s.tabs[i].id) == Some(i),
{
    lemma_find_tab_upto(s.tabs, s.tabs[i].id, s.tabs.len() as int);
}

/// A finished load of a web page in a tab is recorded as the newest visit
/// of the session history, which keeps at most its newest 250 visits; the
/// browser's own pages and `about:blank` are not recorded.
pub proof fn law_page_load_records_visit(s: StateView, i: int, url: Seq<char>, now: Seq<char>)
    requires
        state_wf(s),
        0 <= i < s.tabs.len(),
    ensures
        ({
            let s1 = spec_handle_event(s, EventView::PageLoaded { tab_id: s.tabs[i].id, url }, now).0;
            &&& s1.history.len() <= MAX_HISTORY_ENTRIES
            &&& s1.tabs[i].url == (if url.len() == 0 || url == "about:blank"@ {
                s.tabs[i].url
            } else {
                url
            })
            &&& if url.len() == 0 || url == "about:blank"@ || starts_with(url, internal_page_prefix()) {
                s1.history == s.history
            } else {
                &&& s1.history.len() > 0
                &&& s1.history.last() == visit(s.tabs[i].title, url, now)
                &&& s1.history.len() == if s.history.len() < MAX_HISTORY_ENTRIES {
                    s.history.len() + 1int
                } else {
                    MAX_HISTORY_ENTRIES as int
                }
            }
        }),
{
    lemma_find_known_tab(s, i);
    let h = s.history.push(visit(s.tabs[i].title, url, now));
    let kept = keep_last(h, MAX_HISTORY_ENTRIES as nat);
    if h.len() > MAX_HISTORY_ENTRIES {
        assert(kept.last() == h.last());
    }
}

// ---------- Switches and settings --------------------------------------------

/// Turning the adblocker on or off twice leaves the browser as it was.
pub proof fn law_adblock_toggle_twice(s: StateView, m: Seq<char>, now: Seq<char>)
    requires
        spec_parse_chrome_message(m) == CommandView::ToggleAdblock,
    ensures
        spec_handle_event(s, EventView::ChromeIpc(m), now).0.adblock_enabled == !s.adblock_enabled,
        spec_handle_event(
            spec_handle_event(s, EventView::ChromeIpc(m), now).0,
            EventView::ChromeIpc(m),
            now,
        ).0 == s,
{
    let s1 = spec_handle_event(s, EventView::ChromeIpc(m), now).0;
    assert(spec_handle_event(s1, EventView::ChromeIpc(m), now).0 =~= s);
}

/// Opening the downloads panel makes the browser's bar 104 pixels taller,
/// and toggling the panel twice leaves the browser as it was.
pub proof fn law_downloads_panel_toggle(s: StateView, m: Seq<char>, now: Seq<char>)
    requires
        spec_parse_chrome_message(m) == CommandView::ToggleDownloads,
    ensures
        ({
            let s1 = spec_handle_event(s, EventView::ChromeIpc(m), now).0;
            &&& s1 == StateView { downloads_panel_open: !s.downloads_panel_open, ..s }
            &&& spec_chrome_height(s1) == spec_chrome_height(s) + if s1.downloads_panel_open {
                104int
            } else {
                -104int
            }
            &&& spec_handle_event(s1, EventView::ChromeIpc(m), now).0 == s
        }),
{
    let s1 = spec_handle_event(s, EventView::ChromeIpc(m), now).0;
    assert(spec_handle_event(s1, EventView::ChromeIpc(m), now).0 =~= s);
}

// ---------- The popup gate ---------------------------------------------------

/// A page may open a new tab at once when the user allowed its host before:
/// the tab is asked for with the next id and nothing is asked of the user.
pub proof fn law_allowed_host_opens_tab(s: StateView, url: Seq<char>, now: Seq<char>)
    requires
        spec_should_open_new_tab_url(url),
        spec_host_of(trim(url)).len() > 0,
        s.popup_allow_hosts.contains(spec_host_of(trim(url))),
    ensures
        ({
            let (s1, fx) = spec_handle_event(s, EventView::OpenInNewTab { url }, now);
            &&& s1.pending_popup == s.pending_popup
            &&& s1.tabs == s.tabs
            &&& s1.awaiting == Some(
                PendingBuildView {
                    tab_id: s.next_id,
                    purpose: BuildPurposeView::NewTab { url: trim(url), title: None },
                },
            )
            &&& fx == seq![EffectView::BuildWebview { tab_id: s.next_id, url: trim(url) }]
        }),
{
}

/// A page of a host the user did not allow asks before it opens a tab: the
/// question names the host, and no tab is opened until it is answered.
pub proof fn law_unknown_host_is_asked(s: StateView, url: Seq<char>, now: Seq<char>)
    requires
        spec_should_open_new_tab_url(url),
        !(spec_host_of(trim(url)).len() > 0 && s.popup_allow_hosts.contains(spec_host_of(trim(url)))),
        s.pending_popup is None,
    ensures
        ({
            let (s1, fx) = spec_handle_event(s, EventView::OpenInNewTab { url }, now);
            &&& s1.pending_popup == Some(PopupView { url: trim(url), host: spec_host_of(trim(url)) })
            &&& s1.tabs == s.tabs
            &&& s1.awaiting == s.awaiting
            &&& s1.popup_allow_hosts == s.popup_allow_hosts
            &&& !fx.contains(EffectView::BuildWebview { tab_id: s.next_id, url: trim(url) })
        }),
{
    let s1 = spec_handle_event(s, EventView::OpenInNewTab { url }, now).0;
    let fx = spec_handle_event(s, EventView::OpenInNewTab { url }, now).1;
    assert(fx =~= fx_push_popup(s1) + seq![EffectView::Reflow]);
    assert(fx.len() == 2);
    assert(fx[0] != EffectView::BuildWebview { tab_id: s.next_id, url: trim(url) });
    assert(fx[1] != EffectView::BuildWebview { tab_id: s.next_id, url: trim(url) });
}

/// Requests for a new tab that the browser refuses outright (`about:blank`,
/// blank targets, DuckDuckGo's own popup pages, non-web schemes) change
/// nothing.
pub proof fn law_refused_new_tab_is_ignored(s: StateView, url: Seq<char>, now: Seq<char>)
    requires
        !spec_should_open_new_tab_url(url),
    ensures
        spec_handle_event(s, EventView::OpenInNewTab { url }, now) == (s, Seq::<EffectView>::empty()),
{
}

/// Answering yes to the question allows its host from then on (hosts are
/// listed once) and asks for the tab.
pub proof fn law_popup_yes_allows_host(s: StateView, m: Seq<char>, now: Seq<char>)
    requires
        spec_parse_chrome_message(m) == CommandView::PopupAllowYes,
        s.pending_popup is Some,
    ensures
        ({
            let p = s.pending_popup.unwrap();
            let (s1, fx) = spec_handle_event(s, EventView::ChromeIpc(m), now);
            &&& s1.pending_popup is None
            &&& p.host.len() > 0 ==> s1.popup_allow_hosts.contains(p.host)
            &&& forall|h: Seq<char>| s.popup_allow_hosts.contains(h) ==> s1.popup_allow_hosts.contains(h)
            &&& s1.awaiting == Some(
                PendingBuildView {
                    tab_id: s.next_id,
                    purpose: BuildPurposeView::NewTab { url: p.url, title: None },
                },
            )
            &&& fx.last() == EffectView::BuildWebview { tab_id: s.next_id, url: p.url }
        }),
{
    let p = s.pending_popup.unwrap();
    let hosts = allow_host(s.popup_allow_hosts, p.host);
    if !(p.host.len() == 0 || s.popup_allow_hosts.contains(p.host)) {
        assert(hosts.last() == p.host);
        assert forall|h: Seq<char>| s.popup_allow_hosts.contains(h) implies hosts.contains(h) by {
            let k = choose|k: int| 0 <= k < s.popup_allow_hosts.len() && s.popup_allow_hosts[k] == h;
            assert(hosts[k] == h);
        }
    }
}

/// Answering no drops the question; no host is allowed and no tab opens.
pub proof fn law_popup_no_drops_question(s: StateView, m: Seq<char>, now: Seq<char>)
    requires
        spec_parse_chrome_message(m) == CommandView::PopupAllowNo,
    ensures
        ({
            let s1 = spec_handle_event(s, EventView::ChromeIpc(m), now).0;
            &&& s1.pending_popup is None
            &&& s1.popup_allow_hosts == s.popup_allow_hosts
            &&& s1.tabs == s.tabs
            &&& s1.awaiting == s.awaiting
        }),
{
}

// ---------- Closing and switching tabs ----------------------------------------

/// Closing a tab in the background keeps the same tab active, and the
/// other tabs in their order.
pub proof fn law_closing_background_tab_keeps_active(s: StateView, j: int, m: Seq<char>, now: Seq<char>)
    requires
        state_wf(s),
        s.awaiting is None,
        0 <= j < s.tabs.len(),
        j != s.active,
        spec_parse_chrome_message(m) == CommandView::CloseTab(s.tabs[j].id),
    ensures
        ({
            let s1 = spec_handle_event(s, EventView::ChromeIpc(m), now).0;
            &&& s1.tabs.len() == s.tabs.len() - 1
            &&& 0 <= s1.active < s1.tabs.len()
            &&& s1.tabs[s1.active].id == s.tabs[s.active].id
            &&& forall|k: int|
                0 <= k < s1.tabs.len() ==> #[trigger] s1.tabs[k].id == s.tabs.remove(j)[k].id
        }),
{
    lemma_find_known_tab(s, j);
    let tabs = s.tabs.remove(j);
    let active = if s.active >= tabs.len() {
        tabs.len() - 1
    } else if j < s.active {
        s.active - 1
    } else {
        s.active
    };
    assert(active == if j < s.active {
        s.active - 1
    } else {
        s.active
    });
    assert(tabs[active].id == s.tabs[s.active].id);
    let s2 = StateView { tabs, active, ..s };
    if !tabs[active].loaded {
    } else {
        let s3 = suspend(s2).0;
        assert(s3.tabs.len() == tabs.len());
        assert forall|k: int| 0 <= k < s3.tabs.len() implies #[trigger] s3.tabs[k].id == tabs[k].id by {
            assert(s3.tabs[k] == suspended_tab(tabs[k], k, active));
        }
    }
}

/// Closing the only tab ends the browser.
pub proof fn law_closing_last_tab_quits(s: StateView, m: Seq<char>, now: Seq<char>)
    requires
        state_wf(s),
        s.tabs.len() == 1,
        spec_parse_chrome_message(m) == CommandView::CloseTab(s.tabs[0].id)
            || spec_parse_chrome_message(m) == CommandView::CloseActiveTab,
    ensures
        spec_handle_event(s, EventView::ChromeIpc(m), now).0.tabs.len() == 0,
        spec_handle_event(s, EventView::ChromeIpc(m), now).1 == (if s.tabs[0].loaded {
            seq![EffectView::DropWebview { tab_id: s.tabs[0].id }, EffectView::Quit]
        } else {
            seq![EffectView::Quit]
        }),
{
    lemma_find_known_tab(s, 0);
    assert(s.tabs.remove(0).len() == 0);
    let fx = spec_handle_event(s, EventView::ChromeIpc(m), now).1;
    if s.tabs[0].loaded {
        assert(fx =~= seq![EffectView::DropWebview { tab_id: s.tabs[0].id }, EffectView::Quit]);
    } else {
        assert(fx =~= seq![EffectView::Quit]);
    }
}

/// A closed tab's webview is released: closing a loaded tab drops its
/// webview before anything else happens.
pub proof fn law_closing_tab_releases_webview(s: StateView, j: int, m: Seq<char>, now: Seq<char>)
    requires
        state_wf(s),
        0 <= j < s.tabs.len(),
        s.tabs[j].loaded,
        spec_parse_chrome_message(m) == CommandView::CloseTab(s.tabs[j].id),
    ensures
        ({
            let fx = spec_handle_event(s, EventView::ChromeIpc(m), now).1;
            &&& fx.len() > 0
            &&& fx[0] == EffectView::DropWebview { tab_id: s.tabs[j].id }
        }),
{
    lemma_find_known_tab(s, j);
    let tabs = s.tabs.remove(j);
    if tabs.len() > 0 {
        let active = if s.active >= tabs.len() {
            tabs.len() - 1
        } else if j < s.active {
            s.active - 1
        } else {
            s.active
        };
        let fx1 = ensure_loaded(StateView { tabs, active, ..s }, active, AfterLoadView::Closed).1;
        assert((seq![EffectView::DropWebview { tab_id: s.tabs[j].id }] + fx1)[0]
            == EffectView::DropWebview { tab_id: s.tabs[j].id });
    }
}

/// Switching to a tab whose page is loaded makes it the active tab and
/// unloads every other tab that does not keep its page in RAM; the tabs
/// that keep theirs stay as they were.
pub proof fn law_switch_unloads_background_tabs(s: StateView, i: int, m: Seq<char>, now: Seq<char>)
    requires
        state_wf(s),
        0 <= i < s.tabs.len(),
        s.tabs[i].loaded,
        spec_parse_chrome_message(m) == CommandView::SwitchTab(s.tabs[i].id),
    ensures
        ({
            let s1 = spec_handle_event(s, EventView::ChromeIpc(m), now).0;
            &&& s1.active == i
            &&& s1.tabs.len() == s.tabs.len()
            &&& s1.tabs[i] == s.tabs[i]
            &&& forall|k: int|
                0 <= k < s1.tabs.len() && k != i ==> (#[trigger] s1.tabs[k]).id == s.tabs[k].id && (
                s1.tabs[k].kir_enabled == s.tabs[k].kir_enabled) && (!s1.tabs[k].kir_enabled
                ==> !s1.tabs[k].loaded) && (s1.tabs[k].kir_enabled ==> s1.tabs[k].loaded
                == s.tabs[k].loaded)
        }),
{
    lemma_find_known_tab(s, i);
    let s2 = StateView { active: i, ..s };
    let s3 = suspend(s2).0;
    assert forall|k: int| 0 <= k < s3.tabs.len() implies #[trigger] s3.tabs[k] == suspended_tab(
        s.tabs[k],
        k,
        i,
    ) by {}
}

// ---------- What every step keeps ------------------------------------------

proof fn lemma_ensure_loaded_keeps_hosts(s: StateView, index: int, then: AfterLoadView)
    ensures
        ensure_loaded(s, index, then).0.popup_allow_hosts == s.popup_allow_hosts,
{
}

proof fn lemma_close_keeps_hosts(s: StateView, id: u32)
    ensures
        close_tab(s, id).0.popup_allow_hosts == s.popup_allow_hosts,
{
    match find_tab(s.tabs, id) {
        None => {},
        Some(index) => {
            let tabs = s.tabs.remove(index);
            if tabs.len() > 0 {
                let active = if s.active >= tabs.len() {
                    tabs.len() - 1
                } else if index < s.active {
                    s.active - 1
                } else {
                    s.active
                };
                lemma_ensure_loaded_keeps_hosts(
                    StateView { tabs, active, ..s },
                    active,
                    AfterLoadView::Closed,
                );
            }
        },
    }
}

/// A host the user allowed to open tabs stays allowed for the rest of the
/// session: no event takes it off the list.
pub proof fn law_allowed_hosts_stay_allowed(s: StateView, ev: EventView, now: Seq<char>, h: Seq<char>)
    requires
        s.popup_allow_hosts.contains(h),
    ensures
        spec_handle_event(s, ev, now).0.popup_allow_hosts.contains(h),
{
    match ev {
        EventView::ChromeIpc(m) => {
            let c = spec_parse_chrome_message(m);
            match c {
                CommandView::PopupAllowYes => {
                    match s.pending_popup {
                        Some(p) => {
                            let hosts = allow_host(s.popup_allow_hosts, p.host);
                            let k = choose|k: int|
                                0 <= k < s.popup_allow_hosts.len() && s.popup_allow_hosts[k] == h;
                            assert(hosts[k] == h);
                        },
                        None => {},
                    }
                },
                CommandView::CloseActiveTab => {
                    if s.tabs.len() > 0 {
                        lemma_close_keeps_hosts(s, s.tabs[s.active].id);
                    }
                },
                CommandView::CloseTab(id) => lemma_close_keeps_hosts(s, id),
                CommandView::Navigate(raw) => lemma_ensure_loaded_keeps_hosts(
                    s,
                    s.active,
                    AfterLoadView::Navigate(spec_normalize_url(raw)),
                ),
                CommandView::SwitchTab(id) => {
                    match find_tab(s.tabs, id) {
                        Some(i) => lemma_ensure_loaded_keeps_hosts(
                            StateView { active: i, ..s },
                            i,
                            AfterLoadView::Switched,
                        ),
                        None => {},
                    }
                },
                _ => {},
            }
        },
        _ => {},
    }
}

/// Nor does the outcome of building a webview.
pub proof fn law_allowed_hosts_survive_builds(s: StateView, outcome: Option<HostMode>, h: Seq<char>)
    requires
        s.popup_allow_hosts.contains(h),
    ensures
        spec_finish_build(s, outcome).0.popup_allow_hosts.contains(h),
{
}

// ---------- Keep-in-RAM and downloads ------------------------------------------

/// Keep-in-RAM on a tab: turning it off for a background tab unloads the
/// tab, turning it on unloads nothing, and toggling it twice gives the tab its
/// setting back.
pub proof fn law_kir_toggle(s: StateView, i: int, m: Seq<char>, now: Seq<char>)
    requires
        state_wf(s),
        0 <= i < s.tabs.len(),
        spec_parse_chrome_message(m) == CommandView::ToggleKir(s.tabs[i].id),
    ensures
        ({
            let s1 = spec_handle_event(s, EventView::ChromeIpc(m), now).0;
            let s2 = spec_handle_event(s1, EventView::ChromeIpc(m), now).0;
            &&& s1.tabs.len() == s.tabs.len()
            &&& s1.tabs[i].kir_enabled == !s.tabs[i].kir_enabled
            &&& s1.tabs[i].loaded == (s.tabs[i].loaded && (i == s.active || s1.tabs[i].kir_enabled))
            &&& forall|k: int| 0 <= k < s.tabs.len() && k != i ==> #[trigger] s1.tabs[k] == s.tabs[k]
            &&& s2.tabs[i].kir_enabled == s.tabs[i].kir_enabled
        }),
{
    lemma_find_known_tab(s, i);
    let s1 = spec_handle_event(s, EventView::ChromeIpc(m), now).0;
    assert forall|k: int| 0 <= k < s1.tabs.len() implies #[trigger] s1.tabs[k].id == s.tabs[k].id by {}
    assert(tabs_ok(s1.tabs, s1.next_id));
    lemma_find_tab_upto(s1.tabs, s.tabs[i].id, s1.tabs.len() as int);
    let j = find_tab(s1.tabs, s.tabs[i].id).unwrap();
    assert(s1.tabs[j].id == s1.tabs[i].id);
    assert(j == i);
    assert(s1.tabs.len() == s.tabs.len());
    assert(s1.tabs[i].kir_enabled == !s.tabs[i].kir_enabled);
}

/// A finished download ends the newest download of its URL that is still in
/// progress: it is marked completed or failed and no entry is added; where
/// none is in progress, the outcome is recorded as a new, newest entry.
pub proof fn law_download_completion(
    s: StateView,
    url: Seq<char>,
    file_path: Option<Seq<char>>,
    success: bool,
    size_on_disk: Option<u64>,
    now: Seq<char>,
)
    requires
        state_wf(s),
    ensures
        ({
            let s1 = spec_handle_event(
                s,
                EventView::DownloadCompleted { url, file_path, success, size_on_disk },
                now,
            ).0;
            let status = if success {
                DownloadStatus::Completed
            } else {
                DownloadStatus::Failed
            };
            match find_last_download(s.downloads, by_url(url), s.downloads.len() as int) {
                Some(i) => {
                    &&& s1.downloads.len() == s.downloads.len()
                    &&& s1.downloads[i].url == url
                    &&& s1.downloads[i].status == status
                    &&& forall|k: int|
                        0 <= k < s.downloads.len() && k != i ==> #[trigger] s1.downloads[k]
                            == s.downloads[k]
                },
                None => {
                    &&& s1.downloads.len() > 0
                    &&& s1.downloads.last().url == url
                    &&& s1.downloads.last().status == status
                    &&& s1.downloads.len() <= MAX_DOWNLOAD_ENTRIES
                },
            }
        }),
{
    crate::browser::lemma_find_last_download(s.downloads, by_url(url), s.downloads.len() as int);
}

/// The periodic progress check changes nothing but the byte counts of the
/// downloads in progress.
pub proof fn law_tick_only_counts_bytes(s: StateView, sizes: Seq<FileSizeView>, now: Seq<char>)
    ensures
        ({
            let s1 = spec_handle_event(s, EventView::DownloadTick { sizes }, now).0;
            &&& s1.downloads.len() == s.downloads.len()
            &&& s1.tabs == s.tabs
            &&& s1.history == s.history
            &&& forall|k: int|
                0 <= k < s.downloads.len() ==> (#[trigger] s1.downloads[k]).url == s.downloads[k].url
                    && s1.downloads[k].file_path == s.downloads[k].file_path
                    && s1.downloads[k].status == s.downloads[k].status
                    && s1.downloads[k].total_bytes == s.downloads[k].total_bytes
                    && (!in_progress(s.downloads[k]) ==> s1.downloads[k] == s.downloads[k])
        }),
{
    let s1 = spec_handle_event(s, EventView::DownloadTick { sizes }, now).0;
    assert forall|k: int| 0 <= k < s.downloads.len() implies #[trigger] s1.downloads[k] == ticked(
        s.downloads[k],
        sizes,
    ) by {}
}

// ---------- The session invariant, for every event --------------------------------

/// What every state of a session satisfies: the active tab is a tab, tab
/// ids are distinct and below the next id, the history holds at most 250
/// visits and the downloads at most 200, and no host is allowed twice.
pub open spec fn session_ok(s: StateView) -> bool {
    &&& active_ok(s)
    &&& tabs_ok(s.tabs, s.next_id)
    &&& s.history.len() <= MAX_HISTORY_ENTRIES
    &&& s.downloads.len() <= MAX_DOWNLOAD_ENTRIES
    &&& hosts_unique(s.popup_allow_hosts)
}

/// The state without its pending build.
pub open spec fn settled(s: StateView) -> StateView {
    StateView { awaiting: None, ..s }
}

proof fn lemma_ensure_loaded_ignores_build(s: StateView, index: int, then: AfterLoadView)
    ensures
        settled(ensure_loaded(s, index, then).0) == settled(ensure_loaded(settled(s), index, then).0),
{
    assert(settled(ensure_loaded(s, index, then).0) =~= settled(
        ensure_loaded(settled(s), index, then).0,
    ));
}

proof fn lemma_close_ignores_build(s: StateView, id: u32)
    ensures
        settled(close_tab(s, id).0) == settled(close_tab(settled(s), id).0),
{
    match find_tab(s.tabs, id) {
        None => {},
        Some(index) => {
            let tabs = s.tabs.remove(index);
            if tabs.len() > 0 {
                let active = if s.active >= tabs.len() {
                    tabs.len() - 1
                } else if index < s.active {
                    s.active - 1
                } else {
                    s.active
                };
                let s2 = StateView { tabs, active, ..s };
                lemma_ensure_loaded_ignores_build(s2, active, AfterLoadView::Closed);
                assert(settled(s2) == StateView { tabs, active, ..settled(s) });
            }
        },
    }
}

proof fn lemma_command_ignores_build(s: StateView, c: CommandView)
    ensures
        settled(spec_command(s, c).0) == settled(spec_command(settled(s), c).0),
{
    let s0 = settled(s);
    match c {
        CommandView::Navigate(raw) => lemma_ensure_loaded_ignores_build(
            s,
            s.active,
            AfterLoadView::Navigate(spec_normalize_url(raw)),
        ),
        CommandView::CloseActiveTab => {
            if s.tabs.len() > 0 {
                lemma_close_ignores_build(s, s.tabs[s.active].id);
            }
        },
        CommandView::CloseTab(id) => lemma_close_ignores_build(s, id),
        CommandView::SwitchTab(id) => {
            match find_tab(s.tabs, id) {
                Some(i) => {
                    lemma_ensure_loaded_ignores_build(
                        StateView { active: i, ..s },
                        i,
                        AfterLoadView::Switched,
                    );
                    assert(settled(StateView { active: i, ..s }) == StateView { active: i, ..s0 });
                },
                None => {},
            }
        },
        CommandView::ToggleKir(id) => {
            assert(settled(spec_command(s, c).0) =~= settled(spec_command(s0, c).0));
        },
        CommandView::PopupAllowYes => {
            assert(settled(spec_command(s, c).0) =~= settled(spec_command(s0, c).0));
        },
        CommandView::ToggleAdblock => {
            assert(settled(spec_command(s, c).0) =~= settled(spec_command(s0, c).0));
        },
        _ => {
            assert(settled(spec_command(s, c).0) =~= settled(spec_command(s0, c).0));
        },
    }
}

/// An event does the same to a state whatever build is pending, but for
/// the pending build itself.
proof fn lemma_event_ignores_build(s: StateView, ev: EventView, now: Seq<char>)
    ensures
        settled(spec_handle_event(s, ev, now).0) == settled(spec_handle_event(settled(s), ev, now).0),
{
    let s0 = settled(s);
    let r = spec_handle_event(s, ev, now).0;
    let r0 = spec_handle_event(s0, ev, now).0;
    match ev {
        EventView::ChromeIpc(m) => lemma_command_ignores_build(s, spec_parse_chrome_message(m)),
        EventView::TitleChanged { tab_id, title } => {
            assert(settled(r) =~= settled(r0));
        },
        EventView::PageLoaded { tab_id, url } => {
            assert(settled(r) =~= settled(r0));
        },
        EventView::DownloadStarted { url, file_path } => {
            assert(settled(r) =~= settled(r0));
        },
        EventView::DownloadTotal { file_path, total_bytes } => {
            assert(settled(r) =~= settled(r0));
        },
        EventView::DownloadTick { sizes } => {
            assert(settled(r) =~= settled(r0));
        },
        EventView::DownloadCompleted { url, file_path, success, size_on_disk } => {
            assert(settled(r) =~= settled(r0));
        },
        EventView::OpenInNewTab { url } => {
            assert(settled(r) =~= settled(r0));
        },
        EventView::Quit => {
            assert(settled(r) =~= settled(r0));
        },
    }
}

/// Every event keeps the session invariant, whatever build is pending, as
/// long as an id is left where the event needs one.
pub proof fn law_events_keep_session_invariant(s: StateView, ev: EventView, now: Seq<char>)
    requires
        session_ok(s),
        ids_left_for(s, ev),
    ensures
        session_ok(spec_handle_event(s, ev, now).0),
{
    let s0 = settled(s);
    assert(state_wf(s0));
    lemma_handle_event_wf(s0, ev, now);
    lemma_event_ignores_build(s, ev, now);
    let r = spec_handle_event(s, ev, now).0;
    let r0 = spec_handle_event(s0, ev, now).0;
    assert(settled(r).tabs == r.tabs);
    assert(settled(r0).tabs == r0.tabs);
}

/// So does the outcome of a webview build.
pub proof fn law_builds_keep_session_invariant(s: StateView, outcome: Option<HostMode>)
    requires
        state_wf(s),
    ensures
        session_ok(spec_finish_build(s, outcome).0),
{
    if s.awaiting is Some {
        lemma_finish_build_wf(s, outcome);
    }
}

} // verus!

verus! {

// ---------- What the URL bar counts as an address --------------------------------

/// Text holding a `.` or a `:`, or starting with `localhost`, `127.`, `[` or
/// `/`, is an address; other text is not.
pub proof fn law_address_marks(v: Seq<char>)
    ensures
        v.contains('.') ==> spec_looks_like_address(v),
        v.contains(':') ==> spec_looks_like_address(v),
        starts_with(v, "localhost"@) ==> spec_looks_like_address(v),
        starts_with(v, "127."@) ==> spec_looks_like_address(v),
        starts_with(v, "["@) ==> spec_looks_like_address(v),
        starts_with(v, "/"@) ==> spec_looks_like_address(v),
        !v.contains('.') && !v.contains(':') && !starts_with(v, "localhost"@) && !starts_with(
            v,
            "127."@,
        ) && !starts_with(v, "["@) && !starts_with(v, "/"@) ==> !spec_looks_like_address(v),
{
}

/// What typed text becomes, by its trimmed form `t`: `about:blank` and
/// `http(s)://` URLs stay as they are; an address (holding `.` or `:`, or
/// starting with `localhost`, `127.`, `[` or `/`) gets `https://` in front,
/// so `nas:5000` goes to `https://nas:5000`; anything else becomes a
/// DuckDuckGo search for `t`.
pub proof fn law_url_bar_outcomes(input: Seq<char>)
    ensures
        ({
            let t = trim(input);
            let r = spec_normalize_url(input);
            let kept = t == "about:blank"@ || starts_with(t, "http://"@) || starts_with(
                t,
                "https://"@,
            );
            let address = t.contains('.') || t.contains(':') || starts_with(t, "localhost"@)
                || starts_with(t, "127."@) || starts_with(t, "["@) || starts_with(t, "/"@);
            &&& kept ==> r == t
            &&& !kept && address ==> r == "https://"@ + t
            &&& !kept && !address ==> r == "https://duckduckgo.com/?q="@ + form_urlencoded(
                encode_utf8(t),
            )
        }),
{
    law_address_marks(trim(input));
}

// ---------- Closing tabs: which tab becomes active ---------------------------------

/// Closing a tab while others remain: the tabs keep their order without it;
/// a tab to the left of the active one moves the active index down by one;
/// otherwise the active index stays, but on the last tab, where it moves to
/// the new last tab. So closing the active tab activates its right-hand
/// neighbour, or its left-hand one when it was the last.
pub proof fn law_close_tab_active_index(s: StateView, j: int, m: Seq<char>, now: Seq<char>)
    requires
        state_wf(s),
        s.tabs.len() >= 2,
        0 <= j < s.tabs.len(),
        spec_parse_chrome_message(m) == CommandView::CloseTab(s.tabs[j].id) || (j == s.active
            && spec_parse_chrome_message(m) == CommandView::CloseActiveTab),
    ensures
        ({
            let s1 = spec_handle_event(s, EventView::ChromeIpc(m), now).0;
            &&& s1.tabs.len() == s.tabs.len() - 1
            &&& forall|k: int|
                0 <= k < s1.tabs.len() ==> #[trigger] s1.tabs[k].id == s.tabs.remove(j)[k].id
            &&& s1.active == (if j < s.active {
                s.active - 1
            } else if s.active < s.tabs.len() - 1 {
                s.active
            } else {
                s.tabs.len() - 2
            })
            &&& j == s.active ==> s1.tabs[s1.active].id == (if j + 1 < s.tabs.len() {
                s.tabs[j + 1].id
            } else {
                s.tabs[j - 1].id
            })
        }),
{
    lemma_find_known_tab(s, j);
    let tabs = s.tabs.remove(j);
    let active = if s.active >= tabs.len() {
        tabs.len() - 1
    } else if j < s.active {
        s.active - 1
    } else {
        s.active
    };
    let s2 = StateView { tabs, active, ..s };
    if j == s.active {
        if j + 1 < s.tabs.len() {
            assert(tabs[active] == s.tabs[j + 1]);
        } else {
            assert(tabs[active] == s.tabs[j - 1]);
        }
    }
    if tabs[active].loaded {
        let s3 = suspend(s2).0;
        assert forall|k: int| 0 <= k < s3.tabs.len() implies #[trigger] s3.tabs[k].id == tabs[k].id by {
            assert(s3.tabs[k] == suspended_tab(tabs[k], k, active));
        }
    }
}

// ---------- The Properties page lists the newest first ------------------------------

/// The rows of the newest `k` downloads, the newest first.
pub open spec fn download_rows_newest(d: Seq<DownloadView>, k: nat) -> Seq<char>
    decreases k,
{
    if k == 0 || d.len() == 0 {
        seq![]
    } else {
        download_row(d.last()) + download_rows_newest(d.drop_last(), (k - 1) as nat)
    }
}

/// The rows of the newest `k` visits, the newest first.
pub open spec fn history_rows_newest(h: Seq<HistoryView>, k: nat) -> Seq<char>
    decreases k,
{
    if k == 0 || h.len() == 0 {
        seq![]
    } else {
        history_row(h.last()) + history_rows_newest(h.drop_last(), (k - 1) as nat)
    }
}

proof fn lemma_download_rows_cons(x: DownloadView, s: Seq<DownloadView>)
    ensures
        download_rows_of(seq![x] + s) == download_row(x) + download_rows_of(s),
    decreases s.len(),
{
    if s.len() == 0 {
        assert((seq![x] + s).drop_last() =~= Seq::<DownloadView>::empty());
        assert(download_rows_of(Seq::<DownloadView>::empty()) == Seq::<char>::empty());
        assert(download_row(x) + Seq::<char>::empty() =~= download_row(x));
    } else {
        assert((seq![x] + s).drop_last() =~= seq![x] + s.drop_last());
        assert((seq![x] + s).last() == s.last());
        lemma_download_rows_cons(x, s.drop_last());
        assert(download_row(x) + download_rows_of(s.drop_last()) + download_row(s.last())
            =~= download_row(x) + (download_rows_of(s.drop_last()) + download_row(s.last())));
    }
}

proof fn lemma_history_rows_cons(x: HistoryView, s: Seq<HistoryView>)
    ensures
        history_rows_of(seq![x] + s) == history_row(x) + history_rows_of(s),
    decreases s.len(),
{
    if s.len() == 0 {
        assert((seq![x] + s).drop_last() =~= Seq::<HistoryView>::empty());
        assert(history_rows_of(Seq::<HistoryView>::empty()) == Seq::<char>::empty());
        assert(history_row(x) + Seq::<char>::empty() =~= history_row(x));
    } else {
        assert((seq![x] + s).drop_last() =~= seq![x] + s.drop_last());
        assert((seq![x] + s).last() == s.last());
        lemma_history_rows_cons(x, s.drop_last());
        assert(history_row(x) + history_rows_of(s.drop_last()) + history_row(s.last())
            =~= history_row(x) + (history_rows_of(s.drop_last()) + history_row(s.last())));
    }
}

proof fn lemma_download_rows_newest(d: Seq<DownloadView>, k: nat)
    ensures
        download_rows_of(newest_first(d, k)) == download_rows_newest(d, k),
    decreases k,
{
    if k == 0 || d.len() == 0 {
        assert(newest_first(d, k) =~= Seq::<DownloadView>::empty());
    } else {
        let dl = d.drop_last();
        assert(newest_first(d, k) =~= seq![d.last()] + newest_first(dl, (k - 1) as nat));
        lemma_download_rows_cons(d.last(), newest_first(dl, (k - 1) as nat));
        lemma_download_rows_newest(dl, (k - 1) as nat);
    }
}

proof fn lemma_history_rows_newest(h: Seq<HistoryView>, k: nat)
    ensures
        history_rows_of(newest_first(h, k)) == history_rows_newest(h, k),
    decreases k,
{
    if k == 0 || h.len() == 0 {
        assert(newest_first(h, k) =~= Seq::<HistoryView>::empty());
    } else {
        let hl = h.drop_last();
        assert(newest_first(h, k) =~= seq![h.last()] + newest_first(hl, (k - 1) as nat));
        lemma_history_rows_cons(h.last(), newest_first(hl, (k - 1) as nat));
        lemma_history_rows_newest(hl, (k - 1) as nat);
    }
}

/// The Properties page lists the newest 120 visits and the newest 120
/// downloads, each table newest first: after the page head and the note on
/// how many entries show come the visit rows `h[len-1], h[len-2], ...`, then
/// the download rows `d[len-1], d[len-2], ...` (or a line saying there are
/// none).
pub proof fn law_properties_newest_first(h: Seq<HistoryView>, d: Seq<DownloadView>)
    ensures
        properties_html(h, d) == page_head() + rows_note(h.len()) + history_table_head() + (if h.len()
            == 0 {
            "<tr><td colspan=\"3\">No history yet.</td></tr>"@
        } else {
            history_rows_newest(h, 120)
        }) + downloads_section_head() + rows_note(d.len()) + downloads_table_head() + (if d.len()
            == 0 {
            "<tr><td colspan=\"4\">No downloads yet.</td></tr>"@
        } else {
            download_rows_newest(d, 120)
        }) + page_tail(),
{
    lemma_history_rows_newest(h, 120);
    lemma_download_rows_newest(d, 120);
}

/// A download added to the session comes first in the Properties page's
/// download table, ahead of the rows that were there (of which the oldest
/// goes once 120 are shown).
pub proof fn law_new_download_listed_first(d: Seq<DownloadView>, x: DownloadView)
    ensures
        download_rows(d.push(x)) == download_row(x) + download_rows_newest(d, 119),
{
    lemma_download_rows_newest(d.push(x), 120);
    assert(d.push(x).drop_last() =~= d);
}

} // verus!
