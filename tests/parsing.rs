use xdg_utils::{default_app_ids, drop_right_whitespace, exec_binary};

fn strings(v: &[&str]) -> Vec<String> {
    v.iter().map(|s| s.to_string()).collect()
}

#[test]
fn ids_in_listed_order() {
    let text = "[Default Applications]\ntext/html=foo-browser.desktop;bar.desktop\n";
    assert_eq!(
        default_app_ids(text, "text/html"),
        Some(strings(&["foo-browser.desktop", "bar.desktop"]))
    );
}

#[test]
fn ids_trimmed_and_empty_pieces_skipped() {
    let text = "[Default Applications]\nimage/png= a.desktop ;; b.desktop;\r\nother=x\n";
    assert_eq!(default_app_ids(text, "image/png"), Some(strings(&["a.desktop", "b.desktop"])));
}

#[test]
fn ids_need_section_header() {
    let text = "[Added Associations]\ntext/html=foo.desktop\n";
    assert_eq!(default_app_ids(text, "text/html"), None);
}

#[test]
fn ids_need_query() {
    let text = "[Default Applications]\ntext/html=foo.desktop\n";
    assert_eq!(default_app_ids(text, "video/mp4"), None);
}

#[test]
fn ids_line_without_equals_is_not_found() {
    let text = "[Default Applications]\ntext/html\nimage/png=a.desktop\n";
    assert_eq!(default_app_ids(text, "text/html"), None);
}

#[test]
fn ids_first_occurrence_of_query_is_used() {
    let text = "[Default Applications]\ntext/html=first.desktop\ntext/html=second.desktop";
    assert_eq!(default_app_ids(text, "text/html"), Some(strings(&["first.desktop"])));
}

#[test]
fn ids_substring_match_is_unanchored() {
    let text = "[Default Applications]\napplication/xhtml+xml=x.desktop\n";
    assert_eq!(default_app_ids(text, "xhtml"), Some(strings(&["x.desktop"])));
}

#[test]
fn ids_entry_with_empty_value() {
    let text = "[Default Applications]\ntext/html=\n";
    assert_eq!(default_app_ids(text, "text/html"), Some(vec![]));
}

#[test]
fn exec_first_token() {
    let text = "[Desktop Entry]\nName=Browser\nExec=/usr/bin/browser --flag %u\n";
    assert_eq!(exec_binary(text), Some("/usr/bin/browser".to_string()));
}

#[test]
fn exec_leading_whitespace_and_tab() {
    assert_eq!(exec_binary("Exec= \tfirefox\t%u"), Some("firefox".to_string()));
}

#[test]
fn exec_first_exec_line_wins() {
    let text = "Exec=one\nExec=two\n";
    assert_eq!(exec_binary(text), Some("one".to_string()));
}

#[test]
fn exec_missing_line() {
    assert_eq!(exec_binary("[Desktop Entry]\nName=x\n"), None);
}

#[test]
fn exec_line_without_equals() {
    assert_eq!(exec_binary("Exec /usr/bin/x\nExec=/usr/bin/y\n"), None);
}

#[test]
fn exec_empty_value() {
    assert_eq!(exec_binary("Exec=   \n"), None);
}

#[test]
fn exec_value_keeps_later_equals() {
    assert_eq!(exec_binary("Exec=/opt/a=b --x\n"), Some("/opt/a=b".to_string()));
}

#[test]
fn exec_prefix_only_must_start_line() {
    assert_eq!(exec_binary("TryExec=nothing\nExecStart=/bin/s\n"), Some("/bin/s".to_string()));
}

#[test]
fn trailing_newlines_dropped() {
    assert_eq!(drop_right_whitespace(b"text/plain\n\n".to_vec()), b"text/plain".to_vec());
}

#[test]
fn trailing_newlines_only_at_end() {
    assert_eq!(drop_right_whitespace(b"a\nb".to_vec()), b"a\nb".to_vec());
    assert_eq!(drop_right_whitespace(b"\n\n".to_vec()), Vec::<u8>::new());
    assert_eq!(drop_right_whitespace(Vec::new()), Vec::<u8>::new());
}
