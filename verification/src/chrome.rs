//! The scripts that keep the chrome page (tab strip, downloads panel, adblock
//! button, popup question) and the tabs' pages in step with the browser state.

use vstd::prelude::*;
use crate::text::{decimal, push_decimal};
use crate::json::{
    json_bool, json_opt_number, json_string, push_json_bool, push_json_opt_number, push_json_string,
};
use crate::browser::{
    DownloadEntry, DownloadView, PopupView, PendingPopup, Tab, TabView, downloads_view, in_progress,
    popup_view, status_label, status_text, tabs_view,
};

verus! {

// ---------- Tabs ----------------------------------------------------------

pub open spec fn tab_json(t: TabView) -> Seq<char> {
    "{\"id\":"@ + decimal(t.id as nat) + ",\"kirEnabled\":"@ + json_bool(t.kir_enabled)
        + ",\"loaded\":"@ + json_bool(t.loaded) + ",\"title\":"@ + json_string(t.title)
        + ",\"url\":"@ + json_string(t.url) + "}"@
}

/// The JSON objects of the first `n` tabs, separated by commas.
pub open spec fn tabs_json_upto(tabs: Seq<TabView>, n: int) -> Seq<char>
    decreases n,
{
    if n <= 0 {
        seq![]
    } else if n == 1 {
        tab_json(tabs[0])
    } else {
        tabs_json_upto(tabs, n - 1) + ","@ + tab_json(tabs[n - 1])
    }
}

pub open spec fn tabs_payload(tabs: Seq<TabView>, active_id: u32) -> Seq<char> {
    "{\"activeId\":"@ + decimal(active_id as nat) + ",\"tabs\":["@ + tabs_json_upto(
        tabs,
        tabs.len() as int,
    ) + "]}"@
}

pub open spec fn spec_tabs_script(tabs: Seq<TabView>, active_id: u32) -> Seq<char> {
    "window.__rustywolfSetTabs && window.__rustywolfSetTabs("@ + tabs_payload(tabs, active_id)
        + ");"@
}

fn push_tab_json(out: &mut String, t: &Tab)
    ensures
        final(out)@ == old(out)@ + tab_json(t@),
{
    out.append("{\"id\":");
    push_decimal(out, t.id as u64);
    out.append(",\"kirEnabled\":");
    push_json_bool(out, t.kir_enabled);
    out.append(",\"loaded\":");
    push_json_bool(out, t.loaded);
    out.append(",\"title\":");
    push_json_string(out, t.title.as_str());
    out.append(",\"url\":");
    push_json_string(out, t.url.as_str());
    out.append("}");
    assert(out@ =~= old(out)@ + tab_json(t@));
}

/// The script that redraws the tab strip.
pub fn tabs_script(tabs: &Vec<Tab>, active_id: u32) -> (r: String)
    ensures
        r@ == spec_tabs_script(tabs_view(tabs@), active_id),
{
    let ghost tv = tabs_view(tabs@);
    let mut out = String::from_str("window.__rustywolfSetTabs && window.__rustywolfSetTabs(");
    out.append("{\"activeId\":");
    push_decimal(&mut out, active_id as u64);
    out.append(",\"tabs\":[");
    let ghost head = out@;
    let mut i: usize = 0;
    while i < tabs.len()
        invariant
            i <= tabs.len(),
            tv == tabs_view(tabs@),
            out@ == head + tabs_json_upto(tv, i as int),
        decreases tabs.len() - i,
    {
        if i > 0 {
            out.append(",");
        }
        push_tab_json(&mut out, &tabs[i]);
        assert(tv[i as int] == tabs[i as int]@);
        assert(out@ =~= head + tabs_json_upto(tv, i + 1));
        i = i + 1;
    }
    out.append("]}");
    out.append(");");
    assert(out@ =~= spec_tabs_script(tv, active_id));
    out
}

// ---------- Downloads -----------------------------------------------------

/// The newest in-progress downloads among the first `n`, newest first, at most `limit`.
pub open spec fn newest_in_progress(ds: Seq<DownloadView>, n: int, limit: nat) -> Seq<DownloadView>
    decreases n,
{
    if n <= 0 || limit == 0 {
        seq![]
    } else if in_progress(ds[n - 1]) {
        seq![ds[n - 1]] + newest_in_progress(ds, n - 1, (limit - 1) as nat)
    } else {
        newest_in_progress(ds, n - 1, limit)
    }
}

/// How many downloads the downloads panel is sent.
pub open spec fn panel_limit() -> nat {
    12
}

pub open spec fn download_json(d: DownloadView) -> Seq<char> {
    "{\"downloadedBytes\":"@ + decimal(d.downloaded_bytes as nat) + ",\"filePath\":"@
        + json_string(d.file_path) + ",\"inProgress\":"@ + json_bool(in_progress(d))
        + ",\"status\":"@ + json_string(status_text(d.status)) + ",\"totalBytes\":"@
        + json_opt_number(d.total_bytes) + ",\"url\":"@ + json_string(d.url) + "}"@
}

pub open spec fn downloads_json_list(ds: Seq<DownloadView>) -> Seq<char>
    decreases ds.len(),
{
    if ds.len() == 0 {
        seq![]
    } else if ds.len() == 1 {
        download_json(ds[0])
    } else {
        downloads_json_list(ds.drop_last()) + ","@ + download_json(ds.last())
    }
}

pub open spec fn downloads_payload(ds: Seq<DownloadView>, panel_open: bool) -> Seq<char> {
    "{\"downloads\":["@ + downloads_json_list(
        newest_in_progress(ds, ds.len() as int, panel_limit()),
    ) + "],\"panelOpen\":"@ + json_bool(panel_open) + "}"@
}

pub open spec fn spec_downloads_script(ds: Seq<DownloadView>, panel_open: bool) -> Seq<char> {
    "window.__rustywolfSetDownloads && window.__rustywolfSetDownloads("@ + downloads_payload(
        ds,
        panel_open,
    ) + ");"@
}

fn push_download_json(out: &mut String, d: &DownloadEntry)
    ensures
        final(out)@ == old(out)@ + download_json(d@),
{
    out.append("{\"downloadedBytes\":");
    push_decimal(out, d.downloaded_bytes);
    out.append(",\"filePath\":");
    push_json_string(out, d.file_path.as_str());
    out.append(",\"inProgress\":");
    push_json_bool(out, d.status == crate::browser::DownloadStatus::InProgress);
    out.append(",\"status\":");
    push_json_string(out, status_label(d.status));
    out.append(",\"totalBytes\":");
    push_json_opt_number(out, d.total_bytes);
    out.append(",\"url\":");
    push_json_string(out, d.url.as_str());
    out.append("}");
    assert(out@ =~= old(out)@ + download_json(d@));
}

/// The script that redraws the downloads panel: whether it is open, and the
/// newest twelve downloads in progress, newest first.
pub fn downloads_script(ds: &Vec<DownloadEntry>, panel_open: bool) -> (r: String)
    ensures
        r@ == spec_downloads_script(downloads_view(ds@), panel_open),
{
    let ghost dv = downloads_view(ds@);
    let mut out = String::from_str(
        "window.__rustywolfSetDownloads && window.__rustywolfSetDownloads(",
    );
    out.append("{\"downloads\":[");
    let ghost head = out@;
    let mut i: usize = ds.len();
    let mut count: usize = 0;
    let ghost mut picked: Seq<DownloadView> = seq![];
    while i > 0 && count < 12
        invariant
            i <= ds.len(),
            dv == downloads_view(ds@),
            count == picked.len(),
            count <= 12,
            newest_in_progress(dv, dv.len() as int, panel_limit()) == picked
                + newest_in_progress(dv, i as int, (12 - count) as nat),
            out@ == head + downloads_json_list(picked),
        decreases i,
    {
        let d = &ds[i - 1];
        assert(dv[i - 1] == d@);
        if d.status == crate::browser::DownloadStatus::InProgress {
            if count > 0 {
                out.append(",");
            }
            push_download_json(&mut out, d);
            proof {
                let old_picked = picked;
                picked = picked.push(d@);
                assert(picked.drop_last() =~= old_picked);
                assert(seq![d@] + newest_in_progress(dv, i - 1, (12 - count - 1) as nat)
                    =~= newest_in_progress(dv, i as int, (12 - count) as nat));
                assert(old_picked + newest_in_progress(dv, i as int, (12 - count) as nat) =~= picked
                    + newest_in_progress(dv, i - 1, (12 - count - 1) as nat));
                if old_picked.len() == 0 {
                    assert(downloads_json_list(picked) =~= download_json(d@));
                }
                assert(out@ =~= head + downloads_json_list(picked));
            }
            count = count + 1;
        }
        i = i - 1;
    }
    assert(newest_in_progress(dv, i as int, (12 - count) as nat) =~= Seq::<DownloadView>::empty());
    assert(picked + Seq::<DownloadView>::empty() =~= picked);
    out.append("],\"panelOpen\":");
    push_json_bool(&mut out, panel_open);
    out.append("}");
    out.append(");");
    assert(out@ =~= spec_downloads_script(dv, panel_open));
    out
}

// ---------- Adblock and the popup question --------------------------------

pub open spec fn spec_adblock_button_script(enabled: bool) -> Seq<char> {
    "window.__rustywolfSetAdblock && window.__rustywolfSetAdblock("@ + json_bool(enabled) + ");"@
}

/// The script that shows the adblock setting on the chrome's button.
pub fn adblock_button_script(enabled: bool) -> (r: String)
    ensures
        r@ == spec_adblock_button_script(enabled),
{
    let mut out = String::from_str("window.__rustywolfSetAdblock && window.__rustywolfSetAdblock(");
    push_json_bool(&mut out, enabled);
    out.append(");");
    out
}

pub open spec fn spec_page_adblock_script(enabled: bool) -> Seq<char> {
    "window.__rustywolfSetAdblockEnabled && window.__rustywolfSetAdblockEnabled("@ + json_bool(
        enabled,
    ) + ");"@
}

/// The script that turns a page's adblocker on or off.
pub fn page_adblock_script(enabled: bool) -> (r: String)
    ensures
        r@ == spec_page_adblock_script(enabled),
{
    let mut out = String::from_str(
        "window.__rustywolfSetAdblockEnabled && window.__rustywolfSetAdblockEnabled(",
    );
    push_json_bool(&mut out, enabled);
    out.append(");");
    out
}

pub open spec fn popup_payload(p: Option<PopupView>) -> Seq<char> {
    match p {
        Some(p) => "{\"host\":"@ + json_string(
            if p.host.len() == 0 {
                "this website"@
            } else {
                p.host
            },
        ) + ",\"visible\":true}"@,
        None => "{\"visible\":false}"@,
    }
}

pub open spec fn spec_popup_script(p: Option<PopupView>) -> Seq<char> {
    "window.__rustywolfSetPopupPrompt && window.__rustywolfSetPopupPrompt("@ + popup_payload(p)
        + ");"@
}

/// The script that shows or hides the question whether a site may open a tab.
pub fn popup_script(p: &Option<PendingPopup>) -> (r: String)
    ensures
        r@ == spec_popup_script(popup_view(*p)),
{
    let mut out = String::from_str(
        "window.__rustywolfSetPopupPrompt && window.__rustywolfSetPopupPrompt(",
    );
    match p {
        Some(pending) => {
            out.append("{\"host\":");
            if pending.host.as_str().is_empty() {
                push_json_string(&mut out, "this website");
            } else {
                push_json_string(&mut out, pending.host.as_str());
            }
            out.append(",\"visible\":true}");
        },
        None => {
            out.append("{\"visible\":false}");
        },
    }
    out.append(");");
    assert(out@ =~= spec_popup_script(popup_view(*p)));
    out
}

} // verus!
