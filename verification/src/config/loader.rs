//! Configuration loading pipeline: defaults, the selected profile, the configuration file,
//! environment variables and CLI overrides, then validation.

use vstd::prelude::*;

use crate::config::merge::{merge_cli, merge_cli_spec, merge_toml_spec, merge_toml_subset};
use crate::config::schema::{CliOverrides, CliOverridesView, Config, ConfigError, ConfigView, RunView, TuiConfig, WatchView, default_config, opt_view};
use crate::config::validation::{validate, validation_error};
use crate::diff::preview::strings_view;
use crate::text::{chars_of, owned, parse_unsigned, parse_unsigned_spec};

verus! {

/// A profile selected by the configuration file: its name and its TOML content.
#[derive(Clone, Debug, PartialEq, Eq)]
pub struct ProfileSource {
    /// Profile name.
    pub name: String,
    /// TOML content of the profile.
    pub content: String,
}

/// What the loader reads from outside: the configuration file, the profile it selects, and
/// the environment variables it honours.
#[derive(Clone, Debug, PartialEq, Eq)]
pub struct ConfigSources {
    /// Content of the configuration file, when one is used.
    pub file: Option<String>,
    /// The profile that the configuration file selects, loaded.
    pub profile: Option<ProfileSource>,
    /// `RUMON_RUN_CMD`.
    pub env_run_cmd: Option<String>,
    /// `RUMON_WATCH_DEBOUNCE_MS`.
    pub env_debounce_ms: Option<String>,
    /// `RUMON_TUI_MAX_LOG_LINES`.
    pub env_max_log_lines: Option<String>,
}

pub struct ConfigSourcesView {
    pub file: Option<Seq<char>>,
    pub profile: Option<(Seq<char>, Seq<char>)>,
    pub env_run_cmd: Option<Seq<char>>,
    pub env_debounce_ms: Option<Seq<char>>,
    pub env_max_log_lines: Option<Seq<char>>,
}

impl View for ConfigSources {
    type V = ConfigSourcesView;

    open spec fn view(&self) -> ConfigSourcesView {
        ConfigSourcesView {
            file: opt_view(self.file),
            profile: match self.profile {
                Some(p) => Some((p.name@, p.content@)),
                None => None,
            },
            env_run_cmd: opt_view(self.env_run_cmd),
            env_debounce_ms: opt_view(self.env_debounce_ms),
            env_max_log_lines: opt_view(self.env_max_log_lines),
        }
    }
}

/// Result of creating an initial configuration file.
#[derive(Clone, Debug, PartialEq, Eq)]
pub struct InitConfigResult {
    /// Path to the config file.
    pub path: String,
    /// Whether a new file was written.
    pub created: bool,
}

/// A merge outcome as a result.
pub open spec fn merged(r: (ConfigView, Option<Seq<char>>)) -> Result<ConfigView, Seq<char>> {
    match r.1 {
        Some(m) => Err(m),
        None => Ok(r.0),
    }
}

/// The environment overrides: the command replaces the configured one; the debounce window
/// and the log limit must be numbers that fit their types.
pub open spec fn merge_env_spec(c: ConfigView, s: ConfigSourcesView) -> Result<ConfigView, Seq<char>> {
    let c1 = match s.env_run_cmd {
        Some(cmd) => ConfigView { run: RunView { cmd: cmd, ..c.run }, ..c },
        None => c,
    };
    let r2 = match s.env_debounce_ms {
        Some(v) => match parse_unsigned_spec(v, u64::MAX as nat) {
            Some(n) => Ok(ConfigView { watch: WatchView { debounce_ms: n as u64, ..c1.watch }, ..c1 }),
            None => Err("RUMON_WATCH_DEBOUNCE_MS must be a number"@),
        },
        None => Ok(c1),
    };
    match r2 {
        Err(m) => Err(m),
        Ok(c2) => match s.env_max_log_lines {
            Some(v) => match parse_unsigned_spec(v, usize::MAX as nat) {
                Some(n) => Ok(ConfigView { tui: TuiConfig { max_log_lines: n as usize, ..c2.tui }, ..c2 }),
                None => Err("RUMON_TUI_MAX_LOG_LINES must be a number"@),
            },
            None => Ok(c2),
        },
    }
}

/// The configuration after the file stage: when a file is used, the profile it selects is
/// merged into the defaults first (and names the active profile), then the file itself.
pub open spec fn file_stage(s: ConfigSourcesView) -> Result<ConfigView, Seq<char>> {
    match s.file {
        None => Ok(default_config()),
        Some(content) => {
            let r1 = match s.profile {
                None => Ok(default_config()),
                Some(p) => match merged(merge_toml_spec(default_config(), p.1)) {
                    Ok(c) => Ok(ConfigView { profile: Some(p.0), ..c }),
                    Err(m) => Err(m),
                },
            };
            match r1 {
                Ok(c) => merged(merge_toml_spec(c, content)),
                Err(m) => Err(m),
            }
        },
    }
}

/// The loaded configuration, or the first error of the pipeline. `existing` lists the watch
/// paths that exist.
pub open spec fn load_spec(s: ConfigSourcesView, o: CliOverridesView, existing: Seq<Seq<char>>) -> Result<ConfigView, Seq<char>> {
    match file_stage(s) {
        Err(m) => Err(m),
        Ok(c) => match merge_env_spec(c, s) {
            Err(m) => Err(m),
            Ok(c2) => {
                let c3 = merge_cli_spec(c2, o);
                match validation_error(c3, existing) {
                    Some(m) => Err(m),
                    None => Ok(c3),
                }
            },
        },
    }
}

fn env_debounce(config: &mut Config, value: &String) -> (r: Result<(), ConfigError>)
    ensures
        match parse_unsigned_spec(value@, u64::MAX as nat) {
            Some(n) => r is Ok && final(config)@ == (ConfigView {
                watch: WatchView { debounce_ms: n as u64, ..old(config)@.watch },
                ..old(config)@
            }),
            None => r matches Err(e) && e@ == "RUMON_WATCH_DEBOUNCE_MS must be a number"@,
        },
{
    match parse_unsigned(&chars_of(value.as_str()), 0xffff_ffff_ffff_ffff) {
        Some(n) => {
            config.watch.debounce_ms = n;
            Ok(())
        },
        None => Err(ConfigError::new(owned("RUMON_WATCH_DEBOUNCE_MS must be a number"))),
    }
}

fn env_max_log_lines(config: &mut Config, value: &String) -> (r: Result<(), ConfigError>)
    ensures
        match parse_unsigned_spec(value@, usize::MAX as nat) {
            Some(n) => r is Ok && final(config)@ == (ConfigView {
                tui: TuiConfig { max_log_lines: n as usize, ..old(config)@.tui },
                ..old(config)@
            }),
            None => r matches Err(e) && e@ == "RUMON_TUI_MAX_LOG_LINES must be a number"@,
        },
{
    match parse_unsigned(&chars_of(value.as_str()), usize::MAX as u64) {
        Some(n) => {
            config.tui.max_log_lines = n as usize;
            Ok(())
        },
        None => Err(ConfigError::new(owned("RUMON_TUI_MAX_LOG_LINES must be a number"))),
    }
}

/// Applies the environment overrides.
pub fn merge_env(config: &mut Config, sources: &ConfigSources) -> (r: Result<(), ConfigError>)
    ensures
        match merge_env_spec(old(config)@, sources@) {
            Ok(c) => r is Ok && final(config)@ == c,
            Err(m) => r matches Err(e) && e@ == m,
        },
{
    if let Some(command) = &sources.env_run_cmd {
        config.run.cmd = command.clone();
    }
    if let Some(debounce) = &sources.env_debounce_ms {
        env_debounce(config, debounce)?;
    }
    if let Some(max_log_lines) = &sources.env_max_log_lines {
        env_max_log_lines(config, max_log_lines)?;
    }
    Ok(())
}

fn file_stage_config(sources: &ConfigSources) -> (r: Result<Config, ConfigError>)
    ensures
        match file_stage(sources@) {
            Ok(c) => r matches Ok(x) && x@ == c,
            Err(m) => r matches Err(e) && e@ == m,
        },
{
    let mut config = Config::default();
    if let Some(content) = &sources.file {
        if let Some(profile) = &sources.profile {
            merge_toml_subset(&mut config, profile.content.as_str())?;
            config.profile = Some(profile.name.clone());
        }
        merge_toml_subset(&mut config, content.as_str())?;
    }
    Ok(config)
}

/// The merged configuration before validation, or the first error of the merge stages.
pub open spec fn resolve_spec(s: ConfigSourcesView, o: CliOverridesView) -> Result<ConfigView, Seq<char>> {
    match file_stage(s) {
        Err(m) => Err(m),
        Ok(c) => match merge_env_spec(c, s) {
            Err(m) => Err(m),
            Ok(c2) => Ok(merge_cli_spec(c2, o)),
        },
    }
}

/// Merges defaults, the optional configuration file and its profile, environment variables
/// and CLI overrides, without validating the outcome.
pub fn resolve(sources: &ConfigSources, overrides: CliOverrides) -> (r: Result<Config, ConfigError>)
    ensures
        match resolve_spec(sources@, overrides@) {
            Ok(c) => r matches Ok(x) && x@ == c,
            Err(m) => r matches Err(e) && e@ == m,
        },
{
    let mut config = file_stage_config(sources)?;
    merge_env(&mut config, sources)?;
    merge_cli(&mut config, overrides);
    Ok(config)
}

/// Loads configuration using defaults, the optional configuration file and its profile,
/// environment variables, and CLI overrides, then validates it; `existing_paths` lists the
/// watch paths that exist.
pub fn load(sources: &ConfigSources, overrides: CliOverrides, existing_paths: &Vec<String>) -> (r: Result<Config, ConfigError>)
    ensures
        match load_spec(sources@, overrides@, strings_view(existing_paths@)) {
            Ok(c) => r matches Ok(x) && x@ == c,
            Err(m) => r matches Err(e) && e@ == m,
        },
{
    let config = resolve(sources, overrides)?;
    validate(&config, existing_paths)?;
    Ok(config)
}

/// Loads default configuration without external sources.
pub fn load_defaults() -> (c: Config)
    ensures
        c@ == default_config(),
{
    Config::default()
}

/// A loaded configuration passes validation, and the CLI command, when given, is the command
/// it runs (the CLI is applied after the file and the environment); an environment debounce
/// window that is not a number makes loading fail.
pub proof fn law_load(s: ConfigSourcesView, o: CliOverridesView, existing: Seq<Seq<char>>)
    ensures
        load_spec(s, o, existing) matches Ok(c) ==> validation_error(c, existing) is None && (o.command matches Some(
            x,
        ) ==> c.run.cmd == x),
        (file_stage(s) is Ok && (s.env_debounce_ms matches Some(v) && parse_unsigned_spec(v, u64::MAX as nat) is None))
            ==> load_spec(s, o, existing) == Err::<ConfigView, Seq<char>>("RUMON_WATCH_DEBOUNCE_MS must be a number"@),
        resolve_spec(s, o) matches Ok(c) ==> (o.command matches Some(x) ==> c.run.cmd == x),
{
}

} // verus!
