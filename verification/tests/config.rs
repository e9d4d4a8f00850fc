use rumon::config::loader::{ConfigSources, ProfileSource, load, load_defaults, merge_env};
use rumon::config::merge::{merge_cli, merge_toml_subset};
use rumon::config::schema::{CliOverrides, Config, EventHookConfig};
use rumon::config::validation::{is_supported_event_type, validate};

fn strings(items: &[&str]) -> Vec<String> {
    items.iter().map(|item| item.to_string()).collect()
}

#[test]
fn defaults_match_rust_project() {
    let config = load_defaults();

    assert_eq!(config.run.cmd, "cargo run");
    assert_eq!(config.watch.paths, strings(&["src", "crates", "rumon.toml"]));
}

#[test]
fn cli_overrides_are_default_constructible() {
    let overrides = CliOverrides::default();

    assert!(overrides.command.is_none());
    assert!(overrides.watch_paths.is_empty());
}

#[test]
fn toml_subset_overrides_nested_values() {
    let mut config = Config::default();

    merge_toml_subset(
        &mut config,
        r#"
            profile = "node"

            [run]
            cmd = "npm run dev"

            [watch]
            paths = ["app", "public"]
            extensions = ["ts", "tsx"]
            debounce_ms = 750
            "#,
    )
    .expect("TOML subset should parse");

    assert_eq!(config.profile, Some("node".to_string()));
    assert_eq!(config.run.cmd, "npm run dev");
    assert_eq!(config.watch.paths, strings(&["app", "public"]));
    assert_eq!(config.watch.extensions, vec!["ts", "tsx"]);
    assert_eq!(config.watch.debounce_ms, 750);
}

#[test]
fn toml_subset_parses_multiline_arrays() {
    let mut config = Config::default();

    merge_toml_subset(
        &mut config,
        r#"
            [watch]
            extensions = [
              "js",
              "ts",
              "tsx"
            ]
            "#,
    )
    .expect("TOML subset should parse");

    assert_eq!(config.watch.extensions, vec!["js", "ts", "tsx"]);
}

#[test]
fn toml_subset_parses_event_hooks_in_order() {
    let mut config = Config::default();

    merge_toml_subset(
        &mut config,
        r#"
            [[event_hooks]]
            name = "rust"
            events = [
              "file_created",
              "file_modified"
            ]
            paths = ["src/**/*.rs"]
            when = '''
            diff.added_lines > 0 &&
            file.ext == "rs"
            '''
            cmd = "cargo check"

            [[event_hooks]]
            name = "config"
            events = ["file_modified"]
            paths = ["rumon.toml"]
            cmd = ""
            "#,
    )
    .expect("TOML subset should parse event hooks");

    assert_eq!(config.event_hooks.len(), 2);
    assert_eq!(config.event_hooks[0].name, "rust");
    assert!(config.event_hooks[0].when.contains("diff.added_lines"));
    assert_eq!(config.event_hooks[0].events, vec!["file_created", "file_modified"]);
    assert_eq!(config.event_hooks[1].cmd, "");
}

#[test]
fn validation_rejects_empty_commands() {
    let mut config = Config::default();
    config.run.cmd.clear();

    assert!(validate(&config, &strings(&["src", "crates", "rumon.toml"])).is_err());
}

#[test]
fn validation_rejects_unknown_event_hook_types() {
    let mut config = Config::default();
    config.event_hooks.push(EventHookConfig {
        name: "bad".to_string(),
        events: vec!["nope".to_string()],
        paths: vec!["**/*".to_string()],
        when: String::new(),
        cmd: "echo nope".to_string(),
    });

    assert!(validate(&config, &strings(&["src", "crates", "rumon.toml"])).is_err());
}

#[test]
fn validation_messages_follow_check_order() {
    let existing = strings(&["src", "crates", "rumon.toml"]);
    let config = Config::default();
    assert!(validate(&config, &existing).is_ok());
    assert_eq!(
        validate(&config, &strings(&["src"])).unwrap_err().message(),
        "watch path does not exist: crates"
    );
    let mut once = Config::default();
    once.once = true;
    assert!(validate(&once, &Vec::new()).is_ok());
    let mut c = Config::default();
    c.tui.left_panel_width = 100;
    assert_eq!(validate(&c, &existing).unwrap_err().message(), "tui.left_panel_width must be between 1 and 99");
    let mut c = Config::default();
    c.run.kill_signal = "hup".to_string();
    assert_eq!(validate(&c, &existing).unwrap_err().message(), "run.kill_signal must be term, kill, or interrupt");
    let mut c = Config::default();
    c.watch.debounce_ms = 0;
    assert_eq!(validate(&c, &existing).unwrap_err().message(), "watch.debounce_ms must be positive");
    let mut c = Config::default();
    c.event_hooks.push(EventHookConfig {
        name: "bad".to_string(),
        events: vec!["nope".to_string()],
        paths: vec!["**/*".to_string()],
        when: String::new(),
        cmd: String::new(),
    });
    assert_eq!(validate(&c, &existing).unwrap_err().message(), "unsupported event hook event type: nope");
    c.event_hooks[0].paths.clear();
    assert_eq!(validate(&c, &existing).unwrap_err().message(), "event hook 'bad' must include at least one path glob");
    assert!(is_supported_event_type("permission_changed"));
    assert!(!is_supported_event_type("nope"));
}

#[test]
fn toml_subset_reports_bad_values_and_keeps_earlier_lines() {
    let mut config = Config::default();
    let error = merge_toml_subset(&mut config, "[run]\ncmd = \"make\"\nrestart = maybe\ncwd = \"x\"\n").unwrap_err();
    assert_eq!(error.message(), "restart must be a boolean");
    assert_eq!(config.run.cmd, "make");
    assert_eq!(config.run.cwd, ".");
    let error = merge_toml_subset(&mut config, "[tui]\nleft_panel_width = 70000\n").unwrap_err();
    assert_eq!(error.message(), "left_panel_width must be a number");
    let mut config = Config::default();
    merge_toml_subset(&mut config, "").expect("empty text");
    assert_eq!(config, Config::default());
}

#[test]
fn toml_subset_comments_and_unknown_sections() {
    let mut config = Config::default();
    merge_toml_subset(&mut config, "# comment\nversion = 3 # trailing\n[other]\nversion = 9\n[tui]\nenabled = false\n")
        .expect("parses");
    assert_eq!(config.version, 3);
    assert!(config.tui.enabled);
}

#[test]
fn merge_cli_applies_overrides() {
    let mut config = Config::default();
    let mut overrides = CliOverrides::default();
    overrides.extensions = vec!["..rs".to_string(), "toml".to_string()];
    overrides.command = Some("make".to_string());
    overrides.no_tui = true;
    overrides.debounce_ms = Some(10);
    merge_cli(&mut config, overrides);
    assert_eq!(config.watch.extensions, vec!["rs", "toml"]);
    assert_eq!(config.run.cmd, "make");
    assert!(!config.tui.enabled);
    assert_eq!(config.watch.debounce_ms, 10);
    let before = config.clone();
    merge_cli(&mut config, CliOverrides::default());
    assert_eq!(config, before);
}

#[test]
fn merge_env_reads_numbers() {
    let mut config = Config::default();
    let sources = ConfigSources {
        file: None,
        profile: None,
        env_run_cmd: Some("just run".to_string()),
        env_debounce_ms: Some("42".to_string()),
        env_max_log_lines: Some("x".to_string()),
    };
    let error = merge_env(&mut config, &sources).unwrap_err();
    assert_eq!(error.message(), "RUMON_TUI_MAX_LOG_LINES must be a number");
    assert_eq!(config.run.cmd, "just run");
    assert_eq!(config.watch.debounce_ms, 42);
}

#[test]
fn load_merges_profile_file_and_cli() {
    let sources = ConfigSources {
        file: Some("profile = \"rust\"\n[run]\ncmd = \"cargo test\"\n".to_string()),
        profile: Some(ProfileSource {
            name: "rust".to_string(),
            content: "[watch]\nextensions = [\"rs\", \"toml\"]\n".to_string(),
        }),
        env_run_cmd: None,
        env_debounce_ms: None,
        env_max_log_lines: None,
    };
    let mut overrides = CliOverrides::default();
    overrides.command = Some("cargo check".to_string());
    let config = load(&sources, overrides, &strings(&["src", "crates", "rumon.toml"])).expect("config should load");
    assert_eq!(config.profile, Some("rust".to_string()));
    assert_eq!(config.run.cmd, "cargo check");
    assert_eq!(config.watch.extensions, vec!["rs", "toml"]);
}

#[test]
fn validation_accepts_exactly_the_stated_conditions() {
    let mut config = Config::default();
    config.once = true;
    assert!(validate(&config, &Vec::new()).is_ok());
    config.tui.left_panel_width = 100;
    assert!(validate(&config, &Vec::new()).is_err());
    config.tui.left_panel_width = 99;
    config.run.kill_signal = "hup".to_string();
    assert!(validate(&config, &Vec::new()).is_err());
}
