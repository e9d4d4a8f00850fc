use rumon::cli::args::parse_args;
use rumon::cli::commands::{CliCommand, RemoteCommand, WatchOutput};

fn args(items: &[&str]) -> Vec<String> {
    items.iter().map(|item| item.to_string()).collect()
}

#[test]
fn parses_command_after_separator() {
    let command = parse_args(args(&["-w", "src", "--", "cargo", "run"])).expect("arguments should parse");

    let CliCommand::Run(overrides) = command else {
        panic!("expected run command");
    };

    assert_eq!(overrides.watch_paths, vec!["src".to_string()]);
    assert_eq!(overrides.command, Some("cargo run".to_string()));
}

#[test]
fn parses_help() {
    assert_eq!(parse_args(args(&["--help"])).expect("help should parse"), CliCommand::Help);
}

#[test]
fn parses_init() {
    assert_eq!(parse_args(args(&["init"])).expect("init should parse"), CliCommand::Init);
}

#[test]
fn rejects_init_arguments() {
    assert!(parse_args(args(&["init", "--force"])).is_err());
}

#[test]
fn parses_remote_connect() {
    let command = parse_args(args(&["remote", "connect", "--addr", "127.0.0.1:5050", "--token", "secret"]))
        .expect("remote command should parse");

    assert_eq!(
        command,
        CliCommand::Remote(RemoteCommand::Connect {
            address: "127.0.0.1:5050".to_string(),
            node: "local".to_string(),
            token: "secret".to_string(),
        })
    );
}

#[test]
fn parses_watch_ndjson() {
    let command = parse_args(args(&["watch", "--ndjson"])).expect("watch should parse");
    let CliCommand::Watch { format, .. } = command else {
        panic!("expected watch command");
    };
    assert_eq!(format, WatchOutput::Ndjson);
}

#[test]
fn parses_server_port() {
    let command = parse_args(args(&["server", "--port", "3717"])).expect("server should parse");
    let CliCommand::Server { port, .. } = command else {
        panic!("expected server command");
    };
    assert_eq!(port, Some(3717));
}

#[test]
fn cli_reports_missing_values_and_unknown_options() {
    assert_eq!(parse_args(args(&["--cmd"])).unwrap_err().message(), "missing value for --cmd");
    assert_eq!(parse_args(args(&["--bogus"])).unwrap_err().message(), "unknown option: --bogus");
    assert_eq!(parse_args(args(&["run"])).unwrap_err().message(), "unexpected argument before --: run");
    assert_eq!(parse_args(args(&["--"])).unwrap_err().message(), "expected command after --");
    assert_eq!(parse_args(args(&["--debounce", "x"])).unwrap_err().message(), "--debounce must be a number");
    assert_eq!(parse_args(args(&["server", "--port", "70000"])).unwrap_err().message(), "--port must be a number");
    assert_eq!(parse_args(args(&["tui", "--x"])).unwrap_err().message(), "unknown tui option: --x");
    assert_eq!(parse_args(args(&["remote"])).unwrap_err().message(), "expected remote subcommand: agent or connect");
    assert_eq!(parse_args(args(&["remote", "agent"])).unwrap_err().message(), "remote --token is required");
    assert_eq!(
        parse_args(args(&["remote", "other", "--token", "t"])).unwrap_err().message(),
        "expected remote subcommand: agent or connect"
    );
}

#[test]
fn cli_collects_overrides() {
    let command = parse_args(args(&[
        "-c", "r.toml", "-w", "a", "-w", "b", "-i", "target", "-e", ".rs", "--cwd", "x", "--debounce", "+25",
        "--no-tui", "--clear", "--once", "--no-restart", "-v", "-q",
    ]))
    .expect("arguments should parse");
    let CliCommand::Run(o) = command else {
        panic!("expected run command");
    };
    assert_eq!(o.config_path, Some("r.toml".to_string()));
    assert_eq!(o.watch_paths, vec!["a".to_string(), "b".to_string()]);
    assert_eq!(o.ignore_paths, vec!["target".to_string()]);
    assert_eq!(o.extensions, vec![".rs".to_string()]);
    assert_eq!(o.cwd, Some("x".to_string()));
    assert_eq!(o.debounce_ms, Some(25));
    assert!(o.no_tui && o.clear_logs && o.once && o.no_restart && o.verbose && o.quiet);
}

#[test]
fn cli_help_wins_over_later_arguments() {
    assert_eq!(parse_args(args(&["-V", "--bogus"])).expect("version"), CliCommand::Version);
    assert_eq!(parse_args(args(&["-w", "src", "-h", "--bogus"])).expect("help"), CliCommand::Help);
}

#[test]
fn cli_daemon_and_watch_defaults() {
    assert_eq!(
        parse_args(args(&["daemon", "--ipc"])).expect("daemon"),
        CliCommand::Daemon { overrides: rumon::config::schema::CliOverrides::default(), ipc: true }
    );
    let CliCommand::Watch { format, overrides } = parse_args(args(&["watch", "--json", "--once"])).expect("watch") else {
        panic!("expected watch command");
    };
    assert_eq!(format, WatchOutput::Json);
    assert!(overrides.once);
    let CliCommand::Watch { format, .. } = parse_args(args(&["watch"])).expect("watch") else {
        panic!("expected watch command");
    };
    assert_eq!(format, WatchOutput::Ndjson);
}
