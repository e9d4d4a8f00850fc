//! Configuration schema.

use vstd::prelude::*;

use crate::diff::preview::strings_view;
use crate::text::owned;

verus! {

/// Configuration error.
#[derive(Clone, Debug, PartialEq, Eq)]
pub struct ConfigError {
    message: String,
}

impl ConfigError {
    /// Creates a configuration error.
    pub fn new(message: String) -> (e: Self)
        ensures
            e@ == message@,
    {
        ConfigError { message }
    }

    /// The error message.
    pub fn message(&self) -> (m: String)
        ensures
            m@ == self@,
    {
        self.message.clone()
    }
}

impl View for ConfigError {
    type V = Seq<char>;

    closed spec fn view(&self) -> Seq<char> {
        self.message@
    }
}

/// Rule that runs a command when a filesystem event and path glob match.
#[derive(Clone, Debug, PartialEq, Eq)]
pub struct EventHookConfig {
    /// Human-readable hook name.
    pub name: String,
    /// Supported event type strings.
    pub events: Vec<String>,
    /// Glob paths matched against the changed path.
    pub paths: Vec<String>,
    /// Optional rule expression evaluated after event and path matching.
    pub when: String,
    /// Shell command executed when the rule matches.
    pub cmd: String,
}

/// Watcher configuration.
#[derive(Clone, Debug, PartialEq, Eq)]
pub struct WatchConfig {
    /// Paths watched for filesystem changes.
    pub paths: Vec<String>,
    /// Paths ignored by the watcher.
    pub ignore: Vec<String>,
    /// Extension allow-list without leading dots.
    pub extensions: Vec<String>,
    /// Debounce window in milliseconds.
    pub debounce_ms: u64,
    /// Whether subdirectories are watched recursively.
    pub recursive: bool,
    /// Whether symlinks are followed.
    pub follow_symlink: bool,
}

/// Runner configuration.
#[derive(Clone, Debug, PartialEq, Eq)]
pub struct RunConfig {
    /// Command executed by the runner.
    pub cmd: String,
    /// Working directory for the command.
    pub cwd: String,
    /// Whether file changes restart the command.
    pub restart: bool,
    /// Delay before restarting the command.
    pub restart_delay_ms: u64,
    /// Termination strategy.
    pub kill_signal: String,
    /// Whether logs clear on restart.
    pub clear_logs_on_restart: bool,
}

/// TUI configuration.
#[derive(Clone, Debug, PartialEq, Eq)]
pub struct TuiConfig {
    /// Whether the TUI is enabled.
    pub enabled: bool,
    /// Left panel width percentage.
    pub left_panel_width: u16,
    /// Whether timestamps are shown.
    pub show_timestamp: bool,
    /// Whether file icons are shown.
    pub show_file_icons: bool,
    /// Whether logs auto-scroll.
    pub auto_scroll_logs: bool,
    /// Maximum log lines retained.
    pub max_log_lines: usize,
}

/// HTTP/API server configuration.
#[derive(Clone, Debug, PartialEq, Eq)]
pub struct ApiConfig {
    /// Whether API server is enabled from config.
    pub enabled: bool,
    /// Host address to bind.
    pub host: String,
    /// TCP port to bind.
    pub port: u16,
    /// Enabled transports.
    pub transport: Vec<String>,
    /// Event format name.
    pub event_format: String,
    /// Maximum buffered events.
    pub max_event_buffer: usize,
}

/// Local IPC daemon configuration.
#[derive(Clone, Debug, PartialEq, Eq)]
pub struct IpcConfig {
    /// Whether IPC daemon is enabled from config.
    pub enabled: bool,
    /// IPC endpoint name.
    pub name: String,
    /// Optional IPC path.
    pub path: String,
}

/// Complete Rumon configuration.
#[derive(Clone, Debug, PartialEq, Eq)]
pub struct Config {
    /// Configuration version.
    pub version: u32,
    /// Optional active profile name.
    pub profile: Option<String>,
    /// Watcher settings.
    pub watch: WatchConfig,
    /// Runner settings.
    pub run: RunConfig,
    /// TUI settings.
    pub tui: TuiConfig,
    /// HTTP/API server settings.
    pub api: ApiConfig,
    /// Local IPC settings.
    pub ipc: IpcConfig,
    /// Rule-based commands executed for matching filesystem events.
    pub event_hooks: Vec<EventHookConfig>,
    /// Run once and exit without starting the watcher.
    pub once: bool,
    /// Enable verbose runtime logs.
    pub verbose: bool,
    /// Suppress non-critical runtime logs.
    pub quiet: bool,
}

/// CLI-supplied configuration overrides.
#[derive(Clone, Debug, PartialEq, Eq)]
pub struct CliOverrides {
    /// Optional config path.
    pub config_path: Option<String>,
    /// Additional watch paths.
    pub watch_paths: Vec<String>,
    /// Additional ignore paths.
    pub ignore_paths: Vec<String>,
    /// Additional extension filters.
    pub extensions: Vec<String>,
    /// Command override.
    pub command: Option<String>,
    /// Working directory override.
    pub cwd: Option<String>,
    /// Debounce override.
    pub debounce_ms: Option<u64>,
    /// Disable TUI.
    pub no_tui: bool,
    /// Clear logs on restart.
    pub clear_logs: bool,
    /// Run once and exit.
    pub once: bool,
    /// Disable automatic restart.
    pub no_restart: bool,
    /// Verbose output.
    pub verbose: bool,
    /// Quiet output.
    pub quiet: bool,
}

pub struct EventHookView {
    pub name: Seq<char>,
    pub events: Seq<Seq<char>>,
    pub paths: Seq<Seq<char>>,
    pub when: Seq<char>,
    pub cmd: Seq<char>,
}

pub struct WatchView {
    pub paths: Seq<Seq<char>>,
    pub ignore: Seq<Seq<char>>,
    pub extensions: Seq<Seq<char>>,
    pub debounce_ms: u64,
    pub recursive: bool,
    pub follow_symlink: bool,
}

pub struct RunView {
    pub cmd: Seq<char>,
    pub cwd: Seq<char>,
    pub restart: bool,
    pub restart_delay_ms: u64,
    pub kill_signal: Seq<char>,
    pub clear_logs_on_restart: bool,
}

pub struct ApiView {
    pub enabled: bool,
    pub host: Seq<char>,
    pub port: u16,
    pub transport: Seq<Seq<char>>,
    pub event_format: Seq<char>,
    pub max_event_buffer: usize,
}

pub struct IpcView {
    pub enabled: bool,
    pub name: Seq<char>,
    pub path: Seq<char>,
}

/// The mathematical content of a configuration.
pub struct ConfigView {
    pub version: u32,
    pub profile: Option<Seq<char>>,
    pub watch: WatchView,
    pub run: RunView,
    pub tui: TuiConfig,
    pub api: ApiView,
    pub ipc: IpcView,
    pub event_hooks: Seq<EventHookView>,
    pub once: bool,
    pub verbose: bool,
    pub quiet: bool,
}

pub struct CliOverridesView {
    pub config_path: Option<Seq<char>>,
    pub watch_paths: Seq<Seq<char>>,
    pub ignore_paths: Seq<Seq<char>>,
    pub extensions: Seq<Seq<char>>,
    pub command: Option<Seq<char>>,
    pub cwd: Option<Seq<char>>,
    pub debounce_ms: Option<u64>,
    pub no_tui: bool,
    pub clear_logs: bool,
    pub once: bool,
    pub no_restart: bool,
    pub verbose: bool,
    pub quiet: bool,
}

/// The view of an optional string.
pub open spec fn opt_view(o: Option<String>) -> Option<Seq<char>> {
    match o {
        Some(s) => Some(s@),
        None => None,
    }
}

impl View for EventHookConfig {
    type V = EventHookView;

    open spec fn view(&self) -> EventHookView {
        EventHookView {
            name: self.name@,
            events: strings_view(self.events@),
            paths: strings_view(self.paths@),
            when: self.when@,
            cmd: self.cmd@,
        }
    }
}

/// Views of a sequence of event hooks.
pub open spec fn hooks_view(h: Seq<EventHookConfig>) -> Seq<EventHookView> {
    h.map_values(|x: EventHookConfig| x@)
}

impl View for WatchConfig {
    type V = WatchView;

    open spec fn view(&self) -> WatchView {
        WatchView {
            paths: strings_view(self.paths@),
            ignore: strings_view(self.ignore@),
            extensions: strings_view(self.extensions@),
            debounce_ms: self.debounce_ms,
            recursive: self.recursive,
            follow_symlink: self.follow_symlink,
        }
    }
}

impl View for RunConfig {
    type V = RunView;

    open spec fn view(&self) -> RunView {
        RunView {
            cmd: self.cmd@,
            cwd: self.cwd@,
            restart: self.restart,
            restart_delay_ms: self.restart_delay_ms,
            kill_signal: self.kill_signal@,
            clear_logs_on_restart: self.clear_logs_on_restart,
        }
    }
}

impl View for ApiConfig {
    type V = ApiView;

    open spec fn view(&self) -> ApiView {
        ApiView {
            enabled: self.enabled,
            host: self.host@,
            port: self.port,
            transport: strings_view(self.transport@),
            event_format: self.event_format@,
            max_event_buffer: self.max_event_buffer,
        }
    }
}

impl View for IpcConfig {
    type V = IpcView;

    open spec fn view(&self) -> IpcView {
        IpcView { enabled: self.enabled, name: self.name@, path: self.path@ }
    }
}

impl View for Config {
    type V = ConfigView;

    open spec fn view(&self) -> ConfigView {
        ConfigView {
            version: self.version,
            profile: opt_view(self.profile),
            watch: self.watch@,
            run: self.run@,
            tui: self.tui,
            api: self.api@,
            ipc: self.ipc@,
            event_hooks: hooks_view(self.event_hooks@),
            once: self.once,
            verbose: self.verbose,
            quiet: self.quiet,
        }
    }
}

impl View for CliOverrides {
    type V = CliOverridesView;

    open spec fn view(&self) -> CliOverridesView {
        CliOverridesView {
            config_path: opt_view(self.config_path),
            watch_paths: strings_view(self.watch_paths@),
            ignore_paths: strings_view(self.ignore_paths@),
            extensions: strings_view(self.extensions@),
            command: opt_view(self.command),
            cwd: opt_view(self.cwd),
            debounce_ms: self.debounce_ms,
            no_tui: self.no_tui,
            clear_logs: self.clear_logs,
            once: self.once,
            no_restart: self.no_restart,
            verbose: self.verbose,
            quiet: self.quiet,
        }
    }
}

/// The default configuration, which suits a Rust project.
pub open spec fn default_config() -> ConfigView {
    ConfigView {
        version: 1,
        profile: None,
        watch: WatchView {
            paths: seq!["src"@, "crates"@, "rumon.toml"@],
            ignore: seq![".git"@, "target"@, "node_modules"@, "dist"@],
            extensions: Seq::empty(),
            debounce_ms: 500,
            recursive: true,
            follow_symlink: false,
        },
        run: RunView {
            cmd: "cargo run"@,
            cwd: "."@,
            restart: true,
            restart_delay_ms: 300,
            kill_signal: "term"@,
            clear_logs_on_restart: false,
        },
        tui: TuiConfig {
            enabled: true,
            left_panel_width: 50,
            show_timestamp: true,
            show_file_icons: true,
            auto_scroll_logs: true,
            max_log_lines: 5000,
        },
        api: ApiView {
            enabled: false,
            host: "127.0.0.1"@,
            port: 3717,
            transport: seq!["http"@, "sse"@, "ws"@, "ipc"@],
            event_format: "json"@,
            max_event_buffer: 1000,
        },
        ipc: IpcView { enabled: false, name: "rumon"@, path: Seq::empty() },
        event_hooks: Seq::empty(),
        once: false,
        verbose: false,
        quiet: false,
    }
}

/// The overrides that change nothing.
pub open spec fn no_overrides() -> CliOverridesView {
    CliOverridesView {
        config_path: None,
        watch_paths: Seq::empty(),
        ignore_paths: Seq::empty(),
        extensions: Seq::empty(),
        command: None,
        cwd: None,
        debounce_ms: None,
        no_tui: false,
        clear_logs: false,
        once: false,
        no_restart: false,
        verbose: false,
        quiet: false,
    }
}

/// The event hook that a `[[event_hooks]]` header starts: every field empty.
pub open spec fn empty_hook() -> EventHookView {
    EventHookView {
        name: Seq::empty(),
        events: Seq::empty(),
        paths: Seq::empty(),
        when: Seq::empty(),
        cmd: Seq::empty(),
    }
}

impl EventHookConfig {
    /// An event hook with every field empty.
    pub fn empty() -> (h: Self)
        ensures
            h@ == empty_hook(),
    {
        let h = EventHookConfig {
            name: String::new(),
            events: Vec::new(),
            paths: Vec::new(),
            when: String::new(),
            cmd: String::new(),
        };
        assert(h@.events =~= Seq::<Seq<char>>::empty());
        assert(h@.paths =~= Seq::<Seq<char>>::empty());
        h
    }
}

fn strings_of(items: &[&str]) -> (v: Vec<String>)
    ensures
        strings_view(v@) == items@.map_values(|s: &str| s@),
{
    let mut v: Vec<String> = Vec::new();
    let mut i: usize = 0;
    while i < items.len()
        invariant
            i <= items.len(),
            strings_view(v@) == items@.take(i as int).map_values(|s: &str| s@),
        decreases items.len() - i,
    {
        let ghost prev = v@;
        let item = owned(items[i]);
        v.push(item);
        proof {
            crate::diff::preview::lemma_strings_view_push(prev, item);
            assert(items@.take(i + 1) == items@.take(i as int).push(items@[i as int]));
        }
        i = i + 1;
        assert(strings_view(v@) =~= items@.take(i as int).map_values(|s: &str| s@));
    }
    assert(items@.take(items.len() as int) == items@);
    v
}

impl Default for Config {
    fn default() -> (c: Self)
        ensures
            c@ == default_config(),
    {
        let paths = strings_of(&["src", "crates", "rumon.toml"]);
        let ignore = strings_of(&[".git", "target", "node_modules", "dist"]);
        let transport = strings_of(&["http", "sse", "ws", "ipc"]);
        let c = Config {
            version: 1,
            profile: None,
            watch: WatchConfig {
                paths,
                ignore,
                extensions: Vec::new(),
                debounce_ms: 500,
                recursive: true,
                follow_symlink: false,
            },
            run: RunConfig {
                cmd: owned("cargo run"),
                cwd: owned("."),
                restart: true,
                restart_delay_ms: 300,
                kill_signal: owned("term"),
                clear_logs_on_restart: false,
            },
            tui: TuiConfig {
                enabled: true,
                left_panel_width: 50,
                show_timestamp: true,
                show_file_icons: true,
                auto_scroll_logs: true,
                max_log_lines: 5000,
            },
            api: ApiConfig {
                enabled: false,
                host: owned("127.0.0.1"),
                port: 3717,
                transport,
                event_format: owned("json"),
                max_event_buffer: 1000,
            },
            ipc: IpcConfig { enabled: false, name: owned("rumon"), path: String::new() },
            event_hooks: Vec::new(),
            once: false,
            verbose: false,
            quiet: false,
        };
        assert(c@.watch.paths =~= seq!["src"@, "crates"@, "rumon.toml"@]);
        assert(c@.watch.ignore =~= seq![".git"@, "target"@, "node_modules"@, "dist"@]);
        assert(c@.watch.extensions =~= Seq::<Seq<char>>::empty());
        assert(c@.api.transport =~= seq!["http"@, "sse"@, "ws"@, "ipc"@]);
        assert(c@.event_hooks =~= Seq::<EventHookView>::empty());
        c
    }
}

impl Default for CliOverrides {
    fn default() -> (o: Self)
        ensures
            o@ == no_overrides(),
    {
        let o = CliOverrides {
            config_path: None,
            watch_paths: Vec::new(),
            ignore_paths: Vec::new(),
            extensions: Vec::new(),
            command: None,
            cwd: None,
            debounce_ms: None,
            no_tui: false,
            clear_logs: false,
            once: false,
            no_restart: false,
            verbose: false,
            quiet: false,
        };
        assert(o@.watch_paths =~= Seq::<Seq<char>>::empty());
        assert(o@.ignore_paths =~= Seq::<Seq<char>>::empty());
        assert(o@.extensions =~= Seq::<Seq<char>>::empty());
        o
    }
}

} // verus!
