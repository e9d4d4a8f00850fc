use rumon::plugins::PluginManifest;
use rumon::runtime::detail::{binary_detail, format_duration, location_summary, text_detail};
use rumon::runtime::inspector::{ChangeDetailInspector, extension_allowed, should_ignore};
use rumon::runtime::output::{IpcRequest, exit_code_to_u8, format_watch_change, ipc_line, ipc_request, once_window_ms, startup_message};
use rumon::diff::line::LineChange;
use rumon::shared::{ChangeDetail, ChangeKind, FileChange};

fn change(path: &str, previous: Option<&str>, kind: ChangeKind) -> FileChange {
    FileChange {
        path: path.to_string(),
        previous_path: previous.map(|p| p.to_string()),
        kind,
        is_directory: false,
        detail: None,
    }
}

#[test]
fn manifest_constructor_sets_fields() {
    let manifest = PluginManifest::new("git", "1.0.0");

    assert_eq!(manifest.name, "git");
    assert_eq!(manifest.version, "1.0.0");
}

#[test]
fn formats_modified_path_without_workspace_prefix() {
    let line = format_watch_change(&change("src/al.rs", None, ChangeKind::Modified));

    assert!(line.contains("path modified"));
    assert!(line.contains("src/al.rs"));
}

#[test]
fn formats_rename_pair() {
    let line = format_watch_change(&change("src/new.rs", Some("src/old.rs"), ChangeKind::Renamed));

    assert!(line.contains("src/old.rs"));
    assert!(line.contains("src/new.rs"));
    assert_eq!(
        line,
        "\x1b[95m↻\x1b[0m \x1b[95mpath renamed\x1b[0m  \x1b[90msrc/old.rs\x1b[0m \x1b[90m→\x1b[0m \x1b[97msrc/new.rs\x1b[0m"
    );
}

#[test]
fn enriches_text_changes() {
    let mut inspector = ChangeDetailInspector::new();
    let enriched = inspector.enrich_change(change("notes.txt", None, ChangeKind::Modified), Some(b"hello\n".to_vec()));

    assert!(matches!(enriched.detail, Some(ChangeDetail::Text { .. })));
}

#[test]
fn inspector_diffs_against_the_previous_content() {
    let mut inspector = ChangeDetailInspector::new();
    let _ = inspector.enrich_change(change("a.rs", None, ChangeKind::Created), Some(b"a\nb\n".to_vec()));
    let second = inspector.enrich_change(change("a.rs", None, ChangeKind::Modified), Some(b"a\nc\n".to_vec()));
    let Some(ChangeDetail::Text { location, preview, truncated }) = second.detail else {
        panic!("expected text detail");
    };
    assert_eq!(location, Some("line 2 col 1".to_string()));
    assert_eq!(preview, vec!["- b", "+ c"]);
    assert!(!truncated);
    let renamed = inspector.enrich_change(change("b.rs", Some("a.rs"), ChangeKind::Renamed), Some(b"a\nc\nd\n".to_vec()));
    assert!(matches!(renamed.detail, Some(ChangeDetail::Text { .. })));
    assert!(inspector.snapshot("a.rs").is_none());
    assert_eq!(inspector.snapshot("b.rs"), Some(b"a\nc\nd\n".to_vec()));
    let deleted = inspector.enrich_change(change("b.rs", None, ChangeKind::Deleted), None);
    assert_eq!(deleted.detail, Some(ChangeDetail::Deleted));
    assert!(inspector.snapshot("b.rs").is_none());
    let unreadable = inspector.enrich_change(change("c.rs", None, ChangeKind::Modified), None);
    assert_eq!(unreadable.detail, None);
}

#[test]
fn binary_and_text_details() {
    assert_eq!(
        binary_detail(Some(b"ab"), b"abc"),
        ChangeDetail::Binary { previous_size: Some(2), current_size: Some(3), hash_changed: true }
    );
    assert_eq!(
        text_detail(None, b"one\ntwo\n"),
        ChangeDetail::Text {
            location: Some("line 1".to_string()),
            preview: vec!["+ one".to_string(), "+ two".to_string()],
            truncated: false,
        }
    );
    assert_eq!(location_summary(&LineChange::Removed { old_line: 4, text: "x".to_string() }), Some("line 4".to_string()));
}

#[test]
fn durations_exit_codes_and_messages() {
    assert_eq!(format_duration(61_000), "01:01");
    assert_eq!(format_duration(6_000_000), "100:00");
    assert_eq!(exit_code_to_u8(3), 3);
    assert_eq!(exit_code_to_u8(-1), 1);
    assert_eq!(exit_code_to_u8(256), 1);
    assert_eq!(startup_message(), "Rumon core runtime ready");
    assert_eq!(once_window_ms(10), 250);
    assert_eq!(once_window_ms(500), 1000);
    assert_eq!(once_window_ms(u64::MAX), u64::MAX);
    assert_eq!(ipc_request(Some("recent_events"), None), IpcRequest::RecentEvents { limit: 100 });
    assert_eq!(ipc_request(None, Some(3)), IpcRequest::Unknown);
}

#[test]
fn ignore_and_extension_filters() {
    let ignore = vec!["target".to_string(), "/tmp/x".to_string()];
    assert!(should_ignore("target/debug/a", &ignore));
    assert!(should_ignore("crates/x/target/a.rs", &ignore));
    assert!(!should_ignore("src/main.rs", &ignore));
    assert!(extension_allowed("a.rs", &vec![]));
    assert!(extension_allowed("a.rs", &vec!["rs".to_string()]));
    assert!(!extension_allowed("Makefile", &vec!["rs".to_string()]));
}

#[test]
fn text_details_decode_invalid_bytes_lossily() {
    assert_eq!(
        text_detail(None, b"caf\xff\n"),
        ChangeDetail::Text {
            location: Some("line 1".to_string()),
            preview: vec!["+ caf\u{FFFD}".to_string()],
            truncated: false,
        }
    );
}

#[test]
fn ignore_entries_compare_by_components() {
    let parent = vec!["..".to_string()];
    assert!(should_ignore("../a", &parent));
    assert!(!should_ignore("./../a", &parent));
    let everything = vec![String::new()];
    assert!(should_ignore("/abs/path", &everything));
    let rooted = vec!["/tmp/x".to_string()];
    assert!(should_ignore("/tmp//x/y", &rooted));
}

#[test]
fn ipc_lines_are_read_with_json() {
    assert_eq!(ipc_line("{\"id\": 7, \"method\": \"ping\"}\n"), ("7".to_string(), IpcRequest::Ping));
    assert_eq!(
        ipc_line("{\"id\": \"a\", \"method\": \"recent_events\", \"params\": {\"limit\": 5}}"),
        ("\"a\"".to_string(), IpcRequest::RecentEvents { limit: 5 })
    );
    assert_eq!(
        ipc_line("{\"method\": \"recent_events\", \"params\": {\"limit\": -1}}"),
        ("null".to_string(), IpcRequest::RecentEvents { limit: 100 })
    );
    assert_eq!(ipc_line("not json"), ("null".to_string(), IpcRequest::Unknown));
    assert_eq!(ipc_line("{\"id\": 1, \"method\": 3}"), ("1".to_string(), IpcRequest::Unknown));
}

#[test]
fn snapshots_are_keyed_by_path_components() {
    let mut inspector = ChangeDetailInspector::new();
    assert_eq!(inspector.record("a/b/".to_string(), b"one".to_vec()), None);
    assert_eq!(inspector.snapshot("a//b"), Some(b"one".to_vec()));
    assert_eq!(inspector.record("a/./b".to_string(), b"two".to_vec()), Some(b"one".to_vec()));
    assert_eq!(inspector.snapshot("a/b"), Some(b"two".to_vec()));
    assert_eq!(inspector.snapshot("./a/b"), None);
    assert_eq!(inspector.forget("a/b"), Some(b"two".to_vec()));
    assert_eq!(inspector.snapshot("a/b/"), None);
}
