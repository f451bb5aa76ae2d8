use rustywolf::address::{
    filename_from_url, host_of, is_internal_page, looks_like_address, normalize_url,
    path_string_to_file_url, sanitize_filename, should_open_new_tab_url,
};

#[test]
fn keeps_existing_scheme() {
    assert_eq!(normalize_url("https://example.com"), "https://example.com");
}

#[test]
fn adds_https_for_domains() {
    assert_eq!(normalize_url("example.com"), "https://example.com");
}

#[test]
fn keeps_about_blank() {
    assert_eq!(normalize_url("about:blank"), "about:blank");
}

#[test]
fn converts_search_terms_to_duckduckgo_query() {
    assert_eq!(normalize_url("privacy browser"), "https://duckduckgo.com/?q=privacy+browser");
}

#[test]
fn converts_single_token_to_duckduckgo_query() {
    assert_eq!(normalize_url("rust"), "https://duckduckgo.com/?q=rust");
}

#[test]
fn trims_before_search() {
    assert_eq!(normalize_url("   rust webview   "), "https://duckduckgo.com/?q=rust+webview");
}

#[test]
fn blocks_blank_and_about_blank_new_tabs() {
    assert!(!should_open_new_tab_url(""));
    assert!(!should_open_new_tab_url(" about:blank "));
}

#[test]
fn blocks_duckduckgo_internal_popup_paths() {
    assert!(!should_open_new_tab_url("https://duckduckgo.com/post3.html"));
    assert!(!should_open_new_tab_url("https://duckduckgo.com/page3"));
    assert!(!should_open_new_tab_url("https://duckduckgo.com/page3.html"));
}

#[test]
fn allows_regular_https_new_tab_targets() {
    assert!(should_open_new_tab_url("https://example.com/"));
    assert!(should_open_new_tab_url("https://duckduckgo.com/?q=rust"));
}

#[test]
fn sanitizes_windows_unsafe_filename_chars() {
    assert_eq!(sanitize_filename("report:2026?.pdf"), "report_2026_.pdf");
}

#[test]
fn falls_back_when_filename_becomes_empty() {
    assert_eq!(sanitize_filename("..."), "download.bin");
}

#[test]
fn search_encodes_reserved_and_non_ascii_characters() {
    assert_eq!(
        normalize_url("a&b=c d/é"),
        "https://duckduckgo.com/?q=a%26b%3Dc+d%2F%C3%A9"
    );
    assert_eq!(normalize_url("*-_ ~"), "https://duckduckgo.com/?q=*-_+%7E");
}

#[test]
fn addresses_get_https() {
    assert_eq!(normalize_url("localhost"), "https://localhost");
    assert_eq!(normalize_url("127.0.0.1:8080"), "https://127.0.0.1:8080");
    assert_eq!(normalize_url("[::1]"), "https://[::1]");
    assert_eq!(normalize_url("/etc"), "https:///etc");
    assert_eq!(normalize_url("  http://example.com  "), "http://example.com");
}

#[test]
fn empty_input_becomes_an_empty_search() {
    assert_eq!(normalize_url("   "), "https://duckduckgo.com/?q=");
}

#[test]
fn normalizing_twice_changes_nothing() {
    for input in ["rust webview", "example.com", "about:blank", " https://x.org ", "", "a+b c"] {
        let once = normalize_url(input);
        assert_eq!(normalize_url(&once), once);
    }
}

#[test]
fn normalized_addresses_are_web_addresses() {
    for input in ["rust", "example.com", "about:blank", "ftp://files", "\t\n"] {
        let r = normalize_url(input);
        assert!(r == "about:blank" || r.starts_with("http://") || r.starts_with("https://"));
    }
}

#[test]
fn recognises_addresses() {
    assert!(looks_like_address("example.com"));
    assert!(looks_like_address("localhost"));
    assert!(looks_like_address("localhost:3000"));
    assert!(looks_like_address("127.0.0.1"));
    assert!(looks_like_address("[::1]"));
    assert!(looks_like_address("/tmp"));
    assert!(!looks_like_address("rust"));
    assert!(!looks_like_address("privacy browser"));
}

#[test]
fn refuses_non_web_new_tab_targets() {
    assert!(!should_open_new_tab_url("javascript:alert(1)"));
    assert!(!should_open_new_tab_url("file:///etc/passwd"));
    assert!(!should_open_new_tab_url("not a url"));
    assert!(!should_open_new_tab_url("https://www.duckduckgo.com/PAGE3.HTML"));
    assert!(should_open_new_tab_url("http://example.com/page3"));
    assert!(should_open_new_tab_url("  https://example.com/a  "));
}

#[test]
fn finds_hosts() {
    assert_eq!(host_of("https://Example.COM/path"), "example.com");
    assert_eq!(host_of("mailto:someone@example.com"), "");
    assert_eq!(host_of("nonsense"), "");
}

#[test]
fn names_downloads_after_the_last_path_segment() {
    assert_eq!(filename_from_url("https://example.com/files/report.pdf"), "report.pdf");
    assert_eq!(filename_from_url("https://example.com/files/report%202026.pdf"), "report%202026.pdf");
    assert_eq!(filename_from_url("https://example.com/files/"), "download.bin");
    assert_eq!(filename_from_url("https://example.com"), "download.bin");
    assert_eq!(filename_from_url("not a url"), "download.bin");
    assert_eq!(filename_from_url("https://example.com/a/..%3Fname..?x=1"), "%3Fname");
}

#[test]
fn sanitized_names_are_never_empty_and_safe() {
    for raw in ["", " ", "a/b\\c", "\u{1}x\u{7f}", "..a..", "con:|?*\"<>"] {
        let r = sanitize_filename(raw);
        assert!(!r.is_empty());
        assert!(!r.chars().any(|c| "<>:\"/\\|?*".contains(c) || c.is_control()));
    }
    assert_eq!(sanitize_filename("  .hidden.  "), ".hidden.");
    assert_eq!(sanitize_filename(". name ."), "name");
}

#[test]
fn file_urls_for_saved_downloads() {
    assert_eq!(path_string_to_file_url("/tmp/a b.txt"), "file:///tmp/a%20b.txt");
    assert_eq!(path_string_to_file_url("relative.txt"), "file://relative.txt");
}

#[test]
fn internal_pages_are_data_urls() {
    assert!(is_internal_page("data:text/html;base64,PGh0bWw+"));
    assert!(!is_internal_page("data:text/plain;base64,QQ=="));
    assert!(!is_internal_page("https://example.com"));
}
