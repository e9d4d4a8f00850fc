use rumon::config::schema::EventHookConfig;
use rumon::hooks::events::EventType;
use rumon::hooks::lexer::{Token, lex};
use rumon::hooks::lifecycle::{
    Hook, HookContext, HookOutput, HookPoint, HookSet, PollAction, poll_step, run_before_restart, run_on_failure,
};
use rumon::hooks::matcher::{EventHookMatcher, EventHookRunner, diff_stats, environment, normalize_glob};
use rumon::hooks::parser::{BinaryOp, Expr, parse_rule};
use rumon::hooks::variables::{RuleContext, VariableValue};
use rumon::shared::{ChangeDetail, ChangeKind, FileChange};

fn change(path: &str, previous: Option<&str>, kind: ChangeKind, detail: Option<ChangeDetail>) -> FileChange {
    FileChange {
        path: path.to_string(),
        previous_path: previous.map(|p| p.to_string()),
        kind,
        is_directory: false,
        detail,
    }
}

fn hook(name: &str, events: &[&str], paths: &[&str], when: &str, cmd: &str) -> EventHookConfig {
    EventHookConfig {
        name: name.to_string(),
        events: events.iter().map(|e| e.to_string()).collect(),
        paths: paths.iter().map(|p| p.to_string()).collect(),
        when: when.to_string(),
        cmd: cmd.to_string(),
    }
}

#[test]
fn parses_config_event_names() {
    assert_eq!(EventType::parse("file_modified"), Some(EventType::FileModified));
    assert_eq!(EventType::parse("nope"), None);
}

#[test]
fn hook_keeps_command() {
    let hook = Hook { point: HookPoint::BeforeRestart, command: "cargo fmt".to_string(), timeout_ms: 30_000 };

    assert_eq!(hook.command, "cargo fmt");
}

#[test]
fn hook_point_has_config_key() {
    assert_eq!(HookPoint::AfterRestart.as_str(), "after_restart");
}

#[test]
fn context_exports_event_name() {
    let context = HookContext::new(HookPoint::BeforeRestart, 0);
    let environment = context.environment();

    let event = environment.iter().find(|(name, _)| name == "RUMON_EVENT").map(|(_, value)| value.clone());
    assert_eq!(event, Some("before_restart".to_string()));
}

#[test]
fn event_names_round_trip() {
    for event in [
        EventType::FileCreated,
        EventType::FileModified,
        EventType::FileDeleted,
        EventType::FileRenamed,
        EventType::FolderCreated,
        EventType::FolderDeleted,
        EventType::FolderRenamed,
        EventType::MetadataChanged,
        EventType::ContentChanged,
        EventType::PermissionChanged,
    ] {
        assert_eq!(EventType::parse(event.as_str()), Some(event));
    }
}

#[test]
fn matching_types_follow_the_detail() {
    let text = change(
        "a.rs",
        None,
        ChangeKind::Modified,
        Some(ChangeDetail::Text { location: None, preview: vec![], truncated: false }),
    );
    assert_eq!(EventType::matching_types(&text), vec![EventType::FileModified, EventType::ContentChanged]);
    let binary = change(
        "a.bin",
        None,
        ChangeKind::Modified,
        Some(ChangeDetail::Binary { previous_size: None, current_size: Some(1), hash_changed: false }),
    );
    assert_eq!(EventType::matching_types(&binary), vec![EventType::FileModified, EventType::MetadataChanged]);
    let mut folder = change("dir", None, ChangeKind::Renamed, None);
    folder.is_directory = true;
    assert_eq!(EventType::from_change(&folder), EventType::FolderRenamed);
}

#[test]
fn lifecycle_hooks_are_selected_when_enabled() {
    let mut hooks = HookSet::empty();
    hooks.before_restart = Some(Hook::new(HookPoint::OnSuccess, "cargo fmt".to_string()));
    hooks.on_failure = Some(Hook::new(HookPoint::OnFailure, "   ".to_string()));
    let context = HookContext::new(HookPoint::OnSuccess, 7);
    let (selected, ctx) = run_before_restart(&hooks, context.clone()).expect("hook selected");
    assert_eq!(selected.command, "cargo fmt");
    assert_eq!(selected.timeout_ms, 30_000);
    assert_eq!(ctx.event, HookPoint::BeforeRestart);
    assert!(run_on_failure(&hooks, context).is_none());
}

#[test]
fn hook_output_log_lines() {
    let output = HookOutput {
        command: "make".to_string(),
        exit_code: Some(-2),
        stdout: " done \n".to_string(),
        stderr: String::new(),
        timed_out: false,
        elapsed_ms: 5,
    };
    assert!(!output.succeeded());
    assert_eq!(output.log_lines(), vec!["hook: make", "stdout: done", "exit code: Some(-2)"]);
    let timed = HookOutput { timed_out: true, exit_code: Some(0), ..output.clone() };
    assert!(!timed.succeeded());
    assert_eq!(timed.log_lines().last().map(|s| s.as_str()), Some("hook timed out"));
    let ok = HookOutput { exit_code: Some(0), ..output };
    assert!(ok.succeeded());
}

#[test]
fn context_environment_is_sorted_and_complete() {
    let mut context = HookContext::new(HookPoint::OnFailure, 1_700_000_000);
    context.exit_code = Some(-1);
    context.process_pid = Some(42);
    context.file = Some("src/main.rs".to_string());
    let env = context.environment();
    let names: Vec<&str> = env.iter().map(|(n, _)| n.as_str()).collect();
    assert_eq!(names, vec!["RUMON_EVENT", "RUMON_EXIT_CODE", "RUMON_FILE", "RUMON_PROCESS_PID", "RUMON_TIMESTAMP"]);
    assert_eq!(env[1].1, "-1");
    assert_eq!(env[3].1, "42");
    assert_eq!(env[4].1, "1700000000");
}

#[test]
fn poll_steps() {
    assert_eq!(poll_step(true, 0, 10), PollAction::Collect);
    assert_eq!(poll_step(false, 10, 10), PollAction::KillAndCollect);
    assert_eq!(poll_step(false, 9, 10), PollAction::Sleep);
}

#[test]
fn lexer_reads_numbers_units_and_operators() {
    let tokens = lex("size >= 10kb && !x").expect("lexes");
    assert_eq!(
        tokens,
        vec![
            Token::Ident("size".to_string()),
            Token::Symbol(">=".to_string()),
            Token::Number { digits: "10".to_string(), unit: "kb".to_string() },
            Token::Symbol("&&".to_string()),
            Token::Symbol("!".to_string()),
            Token::Ident("x".to_string()),
            Token::Eof,
        ]
    );
    assert_eq!(lex("1.2.3").unwrap_err().message, "invalid number '1.2.3'");
    assert_eq!(lex("5 parsecs").map(|t| t.len()).ok(), Some(3));
    assert_eq!(lex("5pc").unwrap_err().message, "unsupported unit 'pc'");
    assert_eq!(lex("\"open").unwrap_err().message, "unterminated string literal");
    assert_eq!(lex("a = b").unwrap_err().message, "invalid operator '='");
    assert_eq!(lex("a # b").unwrap_err().message, "unexpected character '#'");
    assert_eq!(lex("\"a\\\"b\"").expect("lexes")[0], Token::Str("a\"b".to_string()));
}

#[test]
fn parses_arithmetic_and_boolean_expression() {
    let expr = parse_rule(r#"diff.added_lines + diff.removed_lines >= 30 && file.ext == "rs""#);

    assert!(expr.is_ok());
}

#[test]
fn rejects_bad_syntax() {
    assert!(parse_rule("file.ext ==").is_err());
}

#[test]
fn parser_respects_precedence_and_reports_errors() {
    let expr = parse_rule("a || b && c").expect("parses");
    let Expr::Binary { op, right, .. } = expr else {
        panic!("expected binary");
    };
    assert_eq!(op, BinaryOp::Or);
    assert!(matches!(*right, Expr::Binary { op: BinaryOp::And, .. }));
    assert_eq!(parse_rule("file.ext ==").unwrap_err().message, "expected expression, got Eof");
    assert_eq!(parse_rule("(a").unwrap_err().message, "expected ')'");
    assert_eq!(parse_rule("[a b]").unwrap_err().message, "expected ','");
    assert_eq!(parse_rule("a b").unwrap_err().message, "unexpected trailing tokens");
    assert_eq!(parse_rule(")").unwrap_err().message, "expected expression, got Symbol(\")\")");
    assert!(matches!(parse_rule("[]").expect("parses"), Expr::Array(items) if items.is_empty()));
    assert!(matches!(parse_rule("file.ext in [\"rs\", \"toml\"]").expect("parses"), Expr::Binary { op: BinaryOp::In, .. }));
}

#[test]
fn matches_hook_by_event_and_glob() {
    let matcher = EventHookMatcher::new(&[hook("rust", &["file_modified"], &["src/**/*.rs"], "", "cargo check")]);
    let c = change("src/bin/main.rs", None, ChangeKind::Modified, None);

    assert_eq!(matcher.matches(&c, &vec![true]).len(), 1);
}

#[test]
fn double_star_matches_files_directly_under_root() {
    let matcher = EventHookMatcher::new(&[hook("rust", &["file_modified"], &["src/**/*.rs"], "", "cargo check")]);
    let c = change("src/main.rs", None, ChangeKind::Modified, None);

    assert_eq!(matcher.matches(&c, &vec![true]).len(), 1);
}

#[test]
fn rename_matches_old_or_new_path() {
    let matcher = EventHookMatcher::new(&[hook("rename", &["file_renamed"], &["old/**/*.rs"], "", "echo renamed")]);
    let c = change("new/main.rs", Some("old/main.rs"), ChangeKind::Renamed, None);

    assert_eq!(matcher.matches(&c, &vec![true]).len(), 1);
}

#[test]
fn invalid_when_expression_becomes_diagnostic() {
    let matcher = EventHookMatcher::new(&[hook("bad", &["file_modified"], &["src/**/*.rs"], "file.ext ==", "cargo test")]);

    assert_eq!(matcher.matches(&change("src/main.rs", None, ChangeKind::Modified, None), &vec![]).len(), 0);
    assert_eq!(matcher.diagnostics().len(), 1);
    assert_eq!(matcher.diagnostics()[0].message, "invalid when expression: expected expression, got Eof");
}

#[test]
fn invalid_glob_becomes_diagnostic() {
    let matcher = EventHookMatcher::new(&[hook("bad", &["file_modified"], &["src/[a"], "", "x")]);
    assert_eq!(matcher.diagnostics().len(), 1);
    assert!(matcher.diagnostics()[0].message.starts_with("invalid glob 'src/[a': "));
}

#[test]
fn decisions_give_the_first_failing_reason() {
    let matcher = EventHookMatcher::new(&[
        hook("a", &["file_created"], &["**/*.rs"], "", "x"),
        hook("b", &["file_modified"], &["docs/**"], "", "x"),
        hook("c", &["file_modified"], &["**/*.rs"], "file.ext == \"md\"", "x"),
        hook("d", &["file_modified", "content_changed"], &["**/*.rs"], "", "x"),
    ]);
    let c = change("src/lib.rs", None, ChangeKind::Modified, None);
    let reasons: Vec<String> = matcher.decisions(&c, &vec![true, true, false, true]).into_iter().map(|d| d.reason).collect();
    assert_eq!(reasons, vec!["event did not match", "path did not match", "when evaluated false", "matched"]);
}

#[test]
fn when_expression_filters_matches() {
    let matcher = EventHookMatcher::new(&[hook(
        "large",
        &["file_modified"],
        &["src/**/*.rs"],
        r#"file.ext == "rs" && diff.added_lines >= 2"#,
        "cargo test",
    )]);
    let c = change(
        "src/main.rs",
        None,
        ChangeKind::Modified,
        Some(ChangeDetail::Text { location: None, preview: vec!["+ one".to_string(), "+ two".to_string()], truncated: false }),
    );
    let context = RuleContext::new(c.clone(), EventType::from_change(&c), 0, true);
    assert_eq!(context.variable("file.ext"), VariableValue::Text("rs".to_string()));
    assert_eq!(context.variable("diff.added_lines"), VariableValue::Count(2));
    assert_eq!(matcher.matches(&c, &vec![true]).len(), 1);
    assert_eq!(matcher.matches(&c, &vec![false]).len(), 0);
}

#[test]
fn environment_exports_rename_paths() {
    let c = change("src/new.rs", Some("src/old.rs"), ChangeKind::Renamed, None);
    let env = environment(&c, EventType::FileRenamed, "rename", Some("rust"));
    let get = |name: &str| env.iter().find(|(n, _)| n == name).map(|(_, v)| v.clone());

    assert_eq!(get("RUMON_EVENT_TYPE"), Some("file_renamed".to_string()));
    assert_eq!(get("RUMON_OLD_PATH"), Some("src/old.rs".to_string()));
    assert_eq!(get("RUMON_NEW_PATH"), Some("src/new.rs".to_string()));
    assert_eq!(get("RUMON_PROFILE"), Some("rust".to_string()));
}

#[test]
fn skips_empty_commands() {
    let runner = EventHookRunner::new(&[hook("skip", &["file_modified"], &["**/*"], "", "")], None);
    let c = change(
        "src/main.rs",
        None,
        ChangeKind::Modified,
        Some(ChangeDetail::Text {
            location: None,
            preview: vec!["+ added".to_string(), "- removed".to_string()],
            truncated: false,
        }),
    );

    let outputs = runner.run_matching(&c, &vec![true]);

    assert!(outputs.is_empty());
}

#[test]
fn diff_stats_skip_file_headers() {
    let c = change(
        "a.rs",
        None,
        ChangeKind::Modified,
        Some(ChangeDetail::Text {
            location: None,
            preview: vec!["+++ a".to_string(), "+ x".to_string(), "--- b".to_string(), "- y".to_string(), "- z".to_string()],
            truncated: false,
        }),
    );
    assert_eq!(diff_stats(&c), (1, 2));
    assert_eq!(normalize_glob("src\\**\\*.rs"), "src/**/*.rs");
}

#[test]
fn long_literal_glob_is_matched_without_failing() {
    let long = "a".repeat(400_000);
    let matcher = EventHookMatcher::new(&[hook("long", &["file_modified"], &[long.as_str()], "", "x")]);
    assert_eq!(matcher.diagnostics().len(), 0);
    assert_eq!(matcher.matches(&change("src/main.rs", None, ChangeKind::Modified, None), &vec![true]).len(), 0);
    assert_eq!(matcher.matches(&change(long.as_str(), None, ChangeKind::Modified, None), &vec![true]).len(), 1);
}

#[test]
fn compiled_when_rule_is_the_parsed_configuration() {
    let when = "diff.added_lines > 2 && file.ext == \"rs\"";
    let matcher = EventHookMatcher::new(&[
        hook("with", &["file_modified"], &["**/*.rs"], when, "x"),
        hook("without", &["file_modified"], &["**/*.rs"], "   ", "x"),
    ]);
    let rules = matcher.rules();
    assert_eq!(format!("{:?}", rules[0].when), format!("{:?}", Some(parse_rule(when).expect("parses"))));
    assert!(rules[1].when.is_none());
}
