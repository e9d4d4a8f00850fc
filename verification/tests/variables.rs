use rumon::config::init::{BASIC_CONFIG_TEMPLATE, DEFAULT_CONFIG_FILE, config_file_path, init_outcome};
use rumon::config::merge::merge_toml_subset;
use rumon::config::schema::{Config, WatchConfig};
use rumon::hooks::events::EventType;
use rumon::hooks::lifecycle::HookOutput;
use rumon::hooks::matcher::{EventHookExecution, HookLogKind};
use rumon::hooks::parser::parse_rule;
use rumon::hooks::variables::{RuleContext, VariableValue, metadata_number, mime_hint, size_delta};
use rumon::paths::file_stem;
use rumon::runtime::inspector::{SeedAction, seed_action};
use rumon::runtime::output::{OutputStream, PlainEvent, plain_line};
use rumon::runtime::watch::{EventQuery, LoopAction, LoopEvent, once_status, watch_step};
use rumon::shared::{ChangeDetail, ChangeKind, FileChange};

fn change(path: &str, kind: ChangeKind, detail: Option<ChangeDetail>) -> FileChange {
    FileChange { path: path.to_string(), previous_path: None, kind, is_directory: false, detail }
}

fn text(s: &str) -> VariableValue {
    VariableValue::Text(s.to_string())
}

fn lines(items: &[&str]) -> Vec<String> {
    items.iter().map(|item| item.to_string()).collect()
}

#[test]
fn rule_variables_of_a_text_change() {
    let expr = parse_rule(r#"diff.added_lines + diff.removed_lines >= 2 && file.ext == "rs""#);
    assert!(expr.is_ok());
    let detail = ChangeDetail::Text {
        location: None,
        preview: lines(&["+ a", "- b", "  c", "+++ header"]),
        truncated: false,
    };
    let context = RuleContext::new(change("src/main.rs", ChangeKind::Modified, Some(detail)), EventType::FileModified, 42, true);

    assert_eq!(context.variable("diff.added_lines"), VariableValue::Count(2));
    assert_eq!(context.variable("diff.removed_lines"), VariableValue::Count(1));
    assert_eq!(context.variable("diff.changed_lines"), VariableValue::Count(3));
    assert_eq!(context.variable("diff.total_lines"), VariableValue::Count(4));
    assert_eq!(context.variable("diff.has_inline_changes"), VariableValue::Bool(true));
    assert_eq!(context.variable("file.ext"), text("rs"));
    assert_eq!(context.variable("file.name"), text("main.rs"));
    assert_eq!(context.variable("file.stem"), text("main"));
    assert_eq!(context.variable("file.mime"), text("text/rust"));
    assert_eq!(context.variable("file.size"), VariableValue::Count(42));
    assert_eq!(context.variable("file.exists"), VariableValue::Bool(true));
    assert_eq!(context.variable("file.is_binary"), VariableValue::Bool(false));
    assert_eq!(context.variable("event.kind"), text("file_modified"));
    assert_eq!(context.variable("event.path"), text("src/main.rs"));
    assert_eq!(context.variable("event.new_path"), text("src/main.rs"));
    assert_eq!(context.variable("event.old_path"), text(""));
    assert_eq!(context.variable("event.is_file"), VariableValue::Bool(true));
    assert_eq!(context.variable("event.is_folder"), VariableValue::Bool(false));
    assert_eq!(context.variable("metadata.modified_time_changed"), VariableValue::Bool(true));
    assert_eq!(context.variable("metadata.owner_changed"), VariableValue::Bool(false));
    assert_eq!(context.variable("metadata.size_changed"), VariableValue::Bool(false));
    assert_eq!(context.variable("media.width"), VariableValue::Null);
    assert_eq!(context.variable("no.such.variable"), VariableValue::Null);
}

#[test]
fn rule_variables_of_binary_and_media_changes() {
    let binary = ChangeDetail::Binary { previous_size: Some(10), current_size: Some(4), hash_changed: true };
    let context = RuleContext::new(change("blob.bin", ChangeKind::Modified, Some(binary)), EventType::FileModified, 4, true);
    assert_eq!(context.variable("file.size_delta"), VariableValue::Signed(-6));
    assert_eq!(context.variable("metadata.size_changed"), VariableValue::Bool(true));
    assert_eq!(context.variable("file.is_binary"), VariableValue::Bool(true));
    assert_eq!(context.variable("diff.added_lines"), VariableValue::Count(0));

    let media = ChangeDetail::Media {
        kind: "video".to_string(),
        mime_type: "video/mp4".to_string(),
        size_bytes: 2048,
        metadata: lines(&["Width: 1920 px", "DURATION 12.5s", "bitrate: 1.2.3", "Bitrate: 320 kbps"]),
    };
    let context = RuleContext::new(change("clip.mp4", ChangeKind::Created, Some(media)), EventType::FileCreated, 2048, true);
    assert_eq!(context.variable("media.width"), VariableValue::Decimal("1920".to_string()));
    assert_eq!(context.variable("media.duration"), VariableValue::Decimal("12.5".to_string()));
    assert_eq!(context.variable("media.bitrate"), VariableValue::Decimal("320".to_string()));
    assert_eq!(context.variable("media.height"), VariableValue::Null);
    assert_eq!(context.variable("media.has_audio"), VariableValue::Bool(true));
    assert_eq!(context.variable("media.has_video"), VariableValue::Bool(true));
    assert_eq!(context.variable("file.size_delta"), VariableValue::Signed(2048));
    assert_eq!(context.variable("file.mime"), text("video/mp4"));
    assert_eq!(context.variable("metadata.modified_time_changed"), VariableValue::Bool(false));
}

#[test]
fn size_delta_clamps_and_defaults() {
    let huge = ChangeDetail::Binary { previous_size: Some(0), current_size: Some(u64::MAX), hash_changed: true };
    assert_eq!(size_delta(&change("a", ChangeKind::Modified, Some(huge))), i64::MAX);
    let partial = ChangeDetail::Binary { previous_size: None, current_size: Some(5), hash_changed: true };
    assert_eq!(size_delta(&change("a", ChangeKind::Modified, Some(partial))), 0);
    assert_eq!(size_delta(&change("a", ChangeKind::Deleted, Some(ChangeDetail::Deleted))), 0);
}

#[test]
fn metadata_numbers_need_a_readable_decimal() {
    assert_eq!(metadata_number(&lines(&["height .", "height 7"]), "height"), Some("7".to_string()));
    assert_eq!(metadata_number(&lines(&["Height: none"]), "height"), None);
    assert_eq!(metadata_number(&lines(&["HeIgHt=.5"]), "height"), Some(".5".to_string()));
}

#[test]
fn mime_hints_by_extension() {
    assert_eq!(mime_hint("a/b.jpeg"), "image/jpeg");
    assert_eq!(mime_hint("a/b.jpg"), "image/jpeg");
    assert_eq!(mime_hint("a/b.JPEG"), "");
    assert_eq!(mime_hint("Cargo.toml"), "text/toml");
    assert_eq!(mime_hint("README"), "");
}

#[test]
fn file_stems_follow_std_path() {
    assert_eq!(file_stem("dir/archive.tar.gz"), Some("archive.tar".to_string()));
    assert_eq!(file_stem(".bashrc"), Some(".bashrc".to_string()));
    assert_eq!(file_stem("dir/name."), Some("name".to_string()));
    assert_eq!(file_stem("dir/.."), None);
    assert_eq!(file_stem(""), None);
}

fn run_config(restart: bool) -> rumon::config::schema::RunConfig {
    let mut config = Config::default().run;
    config.restart = restart;
    config.clear_logs_on_restart = true;
    config.restart_delay_ms = 300;
    config
}

#[test]
fn watch_loop_decisions() {
    let restarting = run_config(true);
    let single = run_config(false);
    assert_eq!(watch_step(&restarting, LoopEvent::QuitRequested), LoopAction::StopAndExit);
    assert_eq!(watch_step(&restarting, LoopEvent::ProcessExited(Some(3))), LoopAction::Continue);
    assert_eq!(watch_step(&single, LoopEvent::ProcessExited(Some(3))), LoopAction::Exit(3));
    assert_eq!(watch_step(&single, LoopEvent::ProcessExited(Some(-1))), LoopAction::Exit(1));
    assert_eq!(watch_step(&single, LoopEvent::ProcessExited(None)), LoopAction::Exit(1));
    assert_eq!(
        watch_step(&restarting, LoopEvent::Batch { any_changed: true }),
        LoopAction::Restart { clear_logs: true, delay_ms: 300 }
    );
    assert_eq!(watch_step(&restarting, LoopEvent::Batch { any_changed: false }), LoopAction::Continue);
    assert_eq!(watch_step(&single, LoopEvent::Batch { any_changed: true }), LoopAction::Continue);
    assert_eq!(watch_step(&single, LoopEvent::Idle), LoopAction::Continue);
    assert_eq!(watch_step(&single, LoopEvent::Disconnected), LoopAction::Fail);
    assert_eq!(once_status(0), 0);
    assert_eq!(once_status(300), 1);
}

#[test]
fn filters_recent_events_by_type_and_path() {
    let query = EventQuery {
        limit: Some(10),
        event_type: Some("file_modified".to_string()),
        path: Some("src".to_string()),
    };
    assert_eq!(query.limit_or_default(), 10);
    assert!(query.matches("file_modified", Some("src/a.rs"), None));
    assert!(!query.matches("file_created", Some("assets/a.png"), None));
    assert!(!query.matches("file_modified", Some("assets/a.png"), Some("src/b.rs")));
    assert!(query.matches("file_modified", None, Some("src/b.rs")));
    assert!(!query.matches("file_modified", None, None));
    let open = EventQuery::default();
    assert_eq!(open.limit_or_default(), 100);
    assert!(open.matches("anything", None, None));
}

#[test]
fn plain_output_lines() {
    let changed = PlainEvent::Changed(change("src/al.rs", ChangeKind::Modified, None));
    let (stream, line) = plain_line(&changed, false).expect("line");
    assert_eq!(stream, OutputStream::Stdout);
    assert!(line.contains("path modified") && line.contains("src/al.rs"));
    assert_eq!(plain_line(&changed, true), None);
    assert_eq!(
        plain_line(&PlainEvent::Exited(Some(2)), false),
        Some((OutputStream::Stderr, "\x1b[91m✕\x1b[0m command exited with 2".to_string()))
    );
    assert_eq!(plain_line(&PlainEvent::Exited(Some(0)), false), None);
    assert_eq!(plain_line(&PlainEvent::Exited(None), false), None);
    assert_eq!(plain_line(&PlainEvent::Quiet, false), None);
    assert_eq!(
        plain_line(&PlainEvent::Stdout("hello".to_string()), false),
        Some((OutputStream::Stdout, "\x1b[96m›\x1b[0m hello".to_string()))
    );
    assert_eq!(
        plain_line(&PlainEvent::Error("boom".to_string()), false),
        Some((OutputStream::Stderr, "\x1b[91m✕ rumon\x1b[0m boom".to_string()))
    );
    assert_eq!(
        plain_line(&PlainEvent::Failed("no such command".to_string()), false),
        Some((OutputStream::Stderr, "\x1b[91m✕\x1b[0m process failed: no such command".to_string()))
    );
}

#[test]
fn hook_execution_log_lines() {
    let execution = EventHookExecution {
        name: "check".to_string(),
        event_type: EventType::FileModified,
        output: HookOutput {
            command: "cargo check".to_string(),
            exit_code: Some(101),
            stdout: "one\r\ntwo\n".to_string(),
            stderr: "bad".to_string(),
            timed_out: false,
            elapsed_ms: 5,
        },
    };
    assert_eq!(
        execution.log_lines(),
        vec![
            (HookLogKind::Stdout, "[hook:check] one".to_string()),
            (HookLogKind::Stdout, "[hook:check] two".to_string()),
            (HookLogKind::Stderr, "[hook:check] bad".to_string()),
            (HookLogKind::System, "event hook 'check' exited with Some(101)".to_string()),
        ]
    );
    let quiet = EventHookExecution {
        output: HookOutput { exit_code: Some(0), stdout: String::new(), stderr: String::new(), ..execution.output.clone() },
        ..execution
    };
    assert_eq!(quiet.log_lines(), vec![]);
}

#[test]
fn seeding_decisions() {
    let mut watch: WatchConfig = Config::default().watch;
    watch.paths = lines(&["src"]);
    watch.ignore = lines(&["target"]);
    watch.extensions = lines(&["rs"]);
    watch.recursive = false;
    assert_eq!(seed_action("src", true, false, &watch), SeedAction::Descend);
    assert_eq!(seed_action("src/nested", true, false, &watch), SeedAction::Skip);
    assert_eq!(seed_action("src/main.rs", false, true, &watch), SeedAction::Record);
    assert_eq!(seed_action("src/notes.md", false, true, &watch), SeedAction::Skip);
    assert_eq!(seed_action("target/debug.rs", false, true, &watch), SeedAction::Skip);
    watch.recursive = true;
    assert_eq!(seed_action("src/nested", true, false, &watch), SeedAction::Descend);
}

#[test]
fn init_reports_path_and_creation() {
    assert_eq!(config_file_path("project"), "project/rumon.toml");
    assert_eq!(config_file_path("project/"), "project/rumon.toml");
    assert_eq!(config_file_path(""), DEFAULT_CONFIG_FILE);
    let fresh = init_outcome("dir", false);
    assert!(fresh.created);
    assert_eq!(fresh.path, "dir/rumon.toml");
    assert!(!init_outcome("dir", true).created);
}

#[test]
fn starter_template_reads_back_as_the_defaults_it_states() {
    let mut config = Config::default();
    assert!(merge_toml_subset(&mut config, BASIC_CONFIG_TEMPLATE).is_ok());
    assert_eq!(config.watch.paths, lines(&["."]));
    assert_eq!(config.watch.ignore, lines(&[".git", "target", "node_modules", "dist"]));
    assert_eq!(config.run.cmd, "cargo run");
    assert_eq!(config.run.restart_delay_ms, 300);
    assert_eq!(config.api.port, 3717);
    assert_eq!(config.tui.max_log_lines, 5000);
    assert_eq!(config.ipc.name, "rumon");
    assert!(config.event_hooks.is_empty());
}

#[test]
fn formats_sse_event_name() {
    let name = EventType::parse("file_modified").map(EventType::as_str);
    assert_eq!(name, Some("file_modified"));
}

#[test]
fn watched_roots_compare_by_components() {
    let mut watch: WatchConfig = Config::default().watch;
    watch.paths = lines(&["./src", "/srv//data/"]);
    watch.ignore = Vec::new();
    watch.recursive = false;
    assert_eq!(seed_action("./src/", true, false, &watch), SeedAction::Descend);
    assert_eq!(seed_action("src", true, false, &watch), SeedAction::Skip);
    assert_eq!(seed_action("/srv/data", true, false, &watch), SeedAction::Descend);
    assert_eq!(seed_action("srv/data", true, false, &watch), SeedAction::Skip);
}
