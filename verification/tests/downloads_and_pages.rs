use base64::Engine;
use rustywolf::browser::{DownloadEntry, DownloadStatus, HistoryEntry, PendingPopup, Tab};
use rustywolf::chrome::{
    adblock_button_script, downloads_script, page_adblock_script, popup_script, tabs_script,
};
use rustywolf::downloads::{
    announced_total, candidate_name, default_download_path_for, download_dir_choice,
    download_path_in, ensure_unique_download_path, now_stamp, stamp_of, unique_path_choice,
};
use rustywolf::json::push_json_string;
use rustywolf::properties::{escape_html, properties_data_url, render_properties_html};

#[test]
fn stamps_are_decimal_seconds() {
    assert_eq!(stamp_of(Some(1700000000)), "1700000000");
    assert_eq!(stamp_of(Some(0)), "0");
    assert_eq!(stamp_of(None), "0");
    let now = now_stamp();
    assert!(!now.is_empty() && now.chars().all(|c| c.is_ascii_digit()));
    assert!(now.parse::<u64>().unwrap() > 1_600_000_000);
}

#[test]
fn numbered_names() {
    assert_eq!(candidate_name("report", 3, &Some("pdf".to_string())), "report (3).pdf");
    assert_eq!(candidate_name("archive.tar", 9999, &Some("gz".to_string())), "archive.tar (9999).gz");
    assert_eq!(candidate_name("README", 1, &None), "README (1)");
}

#[test]
fn download_directories() {
    assert_eq!(download_dir_choice(Some("/d".into()), Some("/h".into()), "/tmp"), "/d");
    assert_eq!(download_dir_choice(None, Some("/h".into()), "/tmp"), "/h");
    assert_eq!(download_dir_choice(None, None, "/tmp"), "/tmp");
    assert_eq!(
        download_path_in("/home/wolf/Downloads", "https://example.com/files/report.pdf"),
        "/home/wolf/Downloads/report.pdf"
    );
    assert_eq!(download_path_in("/home/wolf/", "https://example.com/"), "/home/wolf/download.bin");
    let p = default_download_path_for("https://example.com/a/b.zip", "/tmp").0;
    assert!(p.ends_with("/b.zip"));
}

#[test]
fn free_paths_are_kept_and_taken_ones_numbered() {
    let free = "/nonexistent-rustywolf-dir/report.pdf";
    assert_eq!(ensure_unique_download_path(free).0, free);
    let taken = "/tmp".to_string();
    let r = ensure_unique_download_path(&taken).0;
    assert_ne!(r, taken);
    assert!(r.starts_with("/tmp (") && r.ends_with(')'));
}

#[test]
fn chooses_the_first_free_path() {
    let p = "/d/report.pdf";
    assert_eq!(unique_path_choice(p, &vec![false], "9"), "/d/report.pdf");
    assert_eq!(unique_path_choice(p, &vec![true, false], "9"), "/d/report (1).pdf");
    assert_eq!(unique_path_choice(p, &vec![true, true, true, false], "9"), "/d/report (3).pdf");
    assert_eq!(unique_path_choice(p, &vec![true, false, false], "9"), "/d/report (1).pdf");
    assert_eq!(unique_path_choice("/d/README", &vec![true, false], "9"), "/d/README (1)");
    assert_eq!(unique_path_choice("/d/.cfg", &vec![true, false], "9"), "/d/.cfg (1)");
    let mut all = vec![true; 10000];
    assert_eq!(unique_path_choice(p, &all, "1700000000"), "/d/report-1700000000");
    all.push(false);
    assert_eq!(unique_path_choice(p, &all, "1700000000"), "/d/report-1700000000");
    all[9999] = false;
    assert_eq!(unique_path_choice(p, &all, "1"), "/d/report (9999).pdf");
    assert_eq!(unique_path_choice("report", &vec![true, false], "1"), "report (1)");
}

#[test]
fn announced_sizes() {
    assert_eq!(announced_total(Some("1234")), Some(1234));
    assert_eq!(announced_total(Some("+7")), Some(7));
    assert_eq!(announced_total(Some("18446744073709551615")), Some(u64::MAX));
    assert_eq!(announced_total(Some("18446744073709551616")), None);
    assert_eq!(announced_total(Some(" 12")), None);
    assert_eq!(announced_total(Some("")), None);
    assert_eq!(announced_total(None), None);
}

#[test]
fn json_strings_are_quoted_and_escaped() {
    let mut out = String::from("x=");
    push_json_string(&mut out, "a\"b\\c\nd\u{1}é");
    assert_eq!(out, "x=\"a\\\"b\\\\c\\nd\\u0001é\"");
}

#[test]
fn html_escaping() {
    assert_eq!(
        escape_html("<a href=\"x\">Tom & 'Jerry'</a>"),
        "&lt;a href=&quot;x&quot;&gt;Tom &amp; &#39;Jerry&#39;&lt;/a&gt;"
    );
    assert_eq!(escape_html("plain"), "plain");
    let escaped = escape_html("<script>alert('x')</script>");
    assert!(!escaped.contains('<') && !escaped.contains('>') && !escaped.contains('\''));
}

fn tab(id: u32, title: &str, url: &str, kir: bool, loaded: bool) -> Tab {
    Tab { id, title: title.into(), url: url.into(), kir_enabled: kir, loaded }
}

#[test]
fn tab_strip_script() {
    let tabs = vec![tab(1, "New \"Tab\"", "https://duckduckgo.com", false, true), tab(3, "B", "https://b.org", true, false)];
    assert_eq!(
        tabs_script(&tabs, 3),
        "window.__rustywolfSetTabs && window.__rustywolfSetTabs({\"activeId\":3,\"tabs\":[{\"id\":1,\"kirEnabled\":false,\"loaded\":true,\"title\":\"New \\\"Tab\\\"\",\"url\":\"https://duckduckgo.com\"},{\"id\":3,\"kirEnabled\":true,\"loaded\":false,\"title\":\"B\",\"url\":\"https://b.org\"}]});"
    );
}

fn download(url: &str, path: &str, status: DownloadStatus, bytes: u64, total: Option<u64>) -> DownloadEntry {
    DownloadEntry {
        url: url.into(),
        file_path: path.into(),
        status,
        downloaded_bytes: bytes,
        total_bytes: total,
        updated_at: "100".into(),
    }
}

#[test]
fn downloads_panel_script_lists_newest_in_progress_first() {
    let ds = vec![
        download("https://a/1", "/d/1", DownloadStatus::InProgress, 5, Some(10)),
        download("https://a/2", "/d/2", DownloadStatus::Completed, 10, Some(10)),
        download("https://a/3", "/d/3", DownloadStatus::InProgress, 0, None),
    ];
    assert_eq!(
        downloads_script(&ds, true),
        "window.__rustywolfSetDownloads && window.__rustywolfSetDownloads({\"downloads\":[{\"downloadedBytes\":0,\"filePath\":\"/d/3\",\"inProgress\":true,\"status\":\"In progress\",\"totalBytes\":null,\"url\":\"https://a/3\"},{\"downloadedBytes\":5,\"filePath\":\"/d/1\",\"inProgress\":true,\"status\":\"In progress\",\"totalBytes\":10,\"url\":\"https://a/1\"}],\"panelOpen\":true});"
    );
    let many: Vec<DownloadEntry> = (0..20)
        .map(|i| download(&format!("https://a/{i}"), &format!("/d/{i}"), DownloadStatus::InProgress, i, None))
        .collect();
    let script = downloads_script(&many, false);
    assert_eq!(script.matches("\"inProgress\":true").count(), 12);
    assert!(script.contains("\"url\":\"https://a/19\""));
    assert!(script.contains("\"url\":\"https://a/8\""));
    assert!(!script.contains("\"url\":\"https://a/7\""));
}

#[test]
fn setting_scripts() {
    assert_eq!(adblock_button_script(true), "window.__rustywolfSetAdblock && window.__rustywolfSetAdblock(true);");
    assert_eq!(
        page_adblock_script(false),
        "window.__rustywolfSetAdblockEnabled && window.__rustywolfSetAdblockEnabled(false);"
    );
    assert_eq!(
        popup_script(&None),
        "window.__rustywolfSetPopupPrompt && window.__rustywolfSetPopupPrompt({\"visible\":false});"
    );
    assert_eq!(
        popup_script(&Some(PendingPopup { url: "https://x.org/".into(), host: "x.org".into() })),
        "window.__rustywolfSetPopupPrompt && window.__rustywolfSetPopupPrompt({\"host\":\"x.org\",\"visible\":true});"
    );
    assert_eq!(
        popup_script(&Some(PendingPopup { url: "data:,".into(), host: "".into() })),
        "window.__rustywolfSetPopupPrompt && window.__rustywolfSetPopupPrompt({\"host\":\"this website\",\"visible\":true});"
    );
}

#[test]
fn properties_page() {
    let empty = render_properties_html(&vec![], &vec![]);
    assert!(empty.starts_with("<!doctype html><html><head><meta charset=\"utf-8\"><title>RustyWolf Properties</title>"));
    assert!(empty.contains("<tr><td colspan=\"3\">No history yet.</td></tr>"));
    assert!(empty.contains("<tr><td colspan=\"4\">No downloads yet.</td></tr>"));
    assert_eq!(empty.matches("Showing all entries.").count(), 2);
    assert!(empty.ends_with("</body></html>"));

    let history = vec![
        HistoryEntry { title: "Old".into(), url: "https://old.org/".into(), visited_at: "1".into() },
        HistoryEntry { title: "<b>New</b>".into(), url: "https://new.org/?a=1&b=2".into(), visited_at: "2".into() },
    ];
    let downloads = vec![download("https://a.org/f.zip", "/tmp/f.zip", DownloadStatus::Completed, 3, Some(3))];
    let page = render_properties_html(&history, &downloads);
    let newest = "<tr><td>2</td><td><a href=\"https://new.org/?a=1&amp;b=2\">&lt;b&gt;New&lt;/b&gt;</a></td><td>https://new.org/?a=1&amp;b=2</td></tr>";
    let oldest = "<tr><td>1</td><td><a href=\"https://old.org/\">Old</a></td><td>https://old.org/</td></tr>";
    assert!(page.contains(&format!("{newest}{oldest}")));
    assert!(page.contains("<tr><td>100</td><td>Completed</td><td><a href=\"file:///tmp/f.zip\">/tmp/f.zip</a></td><td>https://a.org/f.zip</td></tr>"));

    let long: Vec<HistoryEntry> = (0..130)
        .map(|i| HistoryEntry { title: format!("t{i}"), url: format!("https://h/{i}"), visited_at: format!("{i}") })
        .collect();
    let page = render_properties_html(&long, &vec![]);
    assert!(page.contains("Showing latest 120 entries."));
    assert!(page.contains("https://h/129") && page.contains("https://h/10\"") && !page.contains("https://h/9\""));
}

#[test]
fn properties_data_url_encodes_the_page() {
    let history = vec![HistoryEntry { title: "É".into(), url: "https://x/".into(), visited_at: "5".into() }];
    let url = properties_data_url(&history, &vec![]);
    let prefix = "data:text/html;base64,";
    assert!(url.starts_with(prefix));
    let decoded = base64::engine::general_purpose::STANDARD.decode(&url[prefix.len()..]).unwrap();
    assert_eq!(String::from_utf8(decoded).unwrap(), render_properties_html(&history, &vec![]));
}
