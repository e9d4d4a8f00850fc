//! Configuration merging: CLI overrides and the supported TOML subset.

use vstd::prelude::*;

use crate::config::schema::{
    ApiView, CliOverrides, CliOverridesView, Config, ConfigError, ConfigView, EventHookView, IpcView,
    EventHookConfig, RunConfig, RunView, TuiConfig, WatchConfig, WatchView, empty_hook, hooks_view, no_overrides,
    opt_view,
};
use crate::diff::preview::{lemma_strings_view_push, strings_view};
use crate::text::{
    append_chars, chars_end_with, chars_eq_str, chars_of, chars_start_with, copy_chars, ends_with,
    find_char, index_of, index_of_from, is_space, lines_of, lines_spec, parse_unsigned, parse_unsigned_spec, pieces_view, push_str,
    trim_end_spec, trim_end_ws, trim_start_spec, split_chars, split_spec, starts_with, string_from_chars, trim_char, trim_chars,
    trim_end_char, trim_end_chars, trim_spec, trim_start_char, trim_start_chars,
};

verus! {

// ---------------------------------------------------------------------------------------
// CLI overrides
// ---------------------------------------------------------------------------------------

/// An extension without its leading dots.
pub open spec fn strip_leading_dots(e: Seq<char>) -> Seq<char> {
    trim_start_char(e, '.')
}

/// A configuration with CLI overrides applied: every override that is given replaces the
/// configured value, and flags only ever switch their setting on (or, for `no_tui` and
/// `no_restart`, off).
pub open spec fn merge_cli_spec(c: ConfigView, o: CliOverridesView) -> ConfigView {
    ConfigView {
        watch: WatchView {
            paths: if o.watch_paths.len() > 0 { o.watch_paths } else { c.watch.paths },
            ignore: if o.ignore_paths.len() > 0 { o.ignore_paths } else { c.watch.ignore },
            extensions: if o.extensions.len() > 0 {
                o.extensions.map_values(|e: Seq<char>| strip_leading_dots(e))
            } else {
                c.watch.extensions
            },
            debounce_ms: match o.debounce_ms {
                Some(d) => d,
                None => c.watch.debounce_ms,
            },
            ..c.watch
        },
        run: RunView {
            cmd: match o.command {
                Some(cmd) => cmd,
                None => c.run.cmd,
            },
            cwd: match o.cwd {
                Some(cwd) => cwd,
                None => c.run.cwd,
            },
            restart: if o.no_restart { false } else { c.run.restart },
            clear_logs_on_restart: if o.clear_logs { true } else { c.run.clear_logs_on_restart },
            ..c.run
        },
        tui: TuiConfig { enabled: if o.no_tui { false } else { c.tui.enabled }, ..c.tui },
        once: c.once || o.once,
        verbose: c.verbose || o.verbose,
        quiet: c.quiet || o.quiet,
        ..c
    }
}

/// Each extension without its leading dots.
fn strip_extensions(extensions: &Vec<String>) -> (trimmed: Vec<String>)
    ensures
        strings_view(trimmed@) == strings_view(extensions@).map_values(
            |e: Seq<char>| strip_leading_dots(e),
        ),
{
    let ghost o = strings_view(extensions@);
    let mut trimmed: Vec<String> = Vec::new();
    let mut i: usize = 0;
    while i < extensions.len()
        invariant
            i <= extensions.len(),
            o == strings_view(extensions@),
            strings_view(trimmed@) == o.take(i as int).map_values(
                |e: Seq<char>| strip_leading_dots(e),
            ),
        decreases extensions.len() - i,
    {
        let chars = chars_of(extensions[i].as_str());
        let t = trim_start_chars(&chars, '.');
        let item = string_from_chars(t.as_slice());
        let ghost prev = trimmed@;
        trimmed.push(item);
        proof {
            lemma_strings_view_push(prev, item);
            assert(o.take(i + 1) == o.take(i as int).push(o[i as int]));
        }
        i = i + 1;
        assert(strings_view(trimmed@) =~= o.take(i as int).map_values(
            |e: Seq<char>| strip_leading_dots(e),
        ));
    }
    assert(o.take(extensions.len() as int) == o);
    trimmed
}

/// Applies CLI overrides to a resolved configuration.
fn merge_watch_overrides(
    watch: &mut WatchConfig,
    watch_paths: Vec<String>,
    ignore_paths: Vec<String>,
    extensions: Vec<String>,
    debounce_ms: Option<u64>,
)
    ensures
        final(watch)@ == (WatchView {
            paths: if watch_paths@.len() > 0 { strings_view(watch_paths@) } else { old(watch)@.paths },
            ignore: if ignore_paths@.len() > 0 { strings_view(ignore_paths@) } else { old(watch)@.ignore },
            extensions: if extensions@.len() > 0 {
                strings_view(extensions@).map_values(|e: Seq<char>| strip_leading_dots(e))
            } else {
                old(watch)@.extensions
            },
            debounce_ms: match debounce_ms {
                Some(d) => d,
                None => old(watch)@.debounce_ms,
            },
            ..old(watch)@
        }),
{
    if watch_paths.len() > 0 {
        watch.paths = watch_paths;
    }
    if ignore_paths.len() > 0 {
        watch.ignore = ignore_paths;
    }
    if extensions.len() > 0 {
        watch.extensions = strip_extensions(&extensions);
    }
    if let Some(d) = debounce_ms {
        watch.debounce_ms = d;
    }
}

fn merge_run_overrides(
    run: &mut RunConfig,
    command: Option<String>,
    cwd: Option<String>,
    clear_logs: bool,
    no_restart: bool,
)
    ensures
        final(run)@ == (RunView {
            cmd: match opt_view(command) {
                Some(c) => c,
                None => old(run)@.cmd,
            },
            cwd: match opt_view(cwd) {
                Some(c) => c,
                None => old(run)@.cwd,
            },
            restart: if no_restart { false } else { old(run)@.restart },
            clear_logs_on_restart: if clear_logs { true } else { old(run)@.clear_logs_on_restart },
            ..old(run)@
        }),
{
    if let Some(command) = command {
        run.cmd = command;
    }
    if let Some(cwd) = cwd {
        run.cwd = cwd;
    }
    if clear_logs {
        run.clear_logs_on_restart = true;
    }
    if no_restart {
        run.restart = false;
    }
}

/// Applies CLI overrides to a resolved configuration.
pub fn merge_cli(config: &mut Config, overrides: CliOverrides)
    ensures
        final(config)@ == merge_cli_spec(old(config)@, overrides@),
{
    let ghost expected = merge_cli_spec(config@, overrides@);
    let CliOverrides {
        config_path: _,
        watch_paths,
        ignore_paths,
        extensions,
        command,
        cwd,
        debounce_ms,
        no_tui,
        clear_logs,
        once,
        no_restart,
        verbose,
        quiet,
    } = overrides;
    merge_watch_overrides(&mut config.watch, watch_paths, ignore_paths, extensions, debounce_ms);
    merge_run_overrides(&mut config.run, command, cwd, clear_logs, no_restart);
    if no_tui {
        config.tui.enabled = false;
    }
    if once {
        config.once = true;
    }
    if verbose {
        config.verbose = true;
    }
    if quiet {
        config.quiet = true;
    }
    assert(config@.watch == expected.watch);
    assert(config@.run == expected.run);
    assert(config@.tui == expected.tui);
}

/// Overrides that give nothing leave the configuration as it was.
pub proof fn law_merge_cli_no_overrides(c: ConfigView)
    ensures
        merge_cli_spec(c, no_overrides()) == c,
{
}

/// Applying the same CLI overrides twice gives what applying them once gives.
pub proof fn law_merge_cli_idempotent(c: ConfigView, o: CliOverridesView)
    ensures
        merge_cli_spec(merge_cli_spec(c, o), o) == merge_cli_spec(c, o),
{
    let once = merge_cli_spec(c, o);
    let twice = merge_cli_spec(once, o);
    if o.extensions.len() > 0 {
        let f = |e: Seq<char>| strip_leading_dots(e);
        assert forall|i: int| 0 <= i < o.extensions.len() implies #[trigger] o.extensions.map_values(f)[i]
            == once.watch.extensions[i] by {}
        assert(twice.watch.extensions =~= once.watch.extensions);
    }
    assert(twice.watch == once.watch);
    assert(twice.run == once.run);
    assert(twice.tui == once.tui);
}

// ---------------------------------------------------------------------------------------
// TOML-subset values
// ---------------------------------------------------------------------------------------

/// The delimiter of multi-line literal strings: three single quotes.
pub open spec fn triple_quote() -> Seq<char> {
    seq!['\'', '\'', '\'']
}

/// A string value: a literal between triple single quotes loses its delimiters and
/// surrounding white space; any other value loses surrounding white space and double quotes.
pub open spec fn parse_string_spec(v: Seq<char>) -> Seq<char> {
    let t = trim_spec(v);
    if starts_with(t, triple_quote()) && ends_with(t.skip(3), triple_quote()) {
        trim_spec(t.subrange(3, t.len() - 3))
    } else {
        trim_char(t, '"')
    }
}

/// The non-empty strings among `items`, in order.
pub open spec fn non_empty(items: Seq<Seq<char>>) -> Seq<Seq<char>>
    decreases items.len(),
{
    if items.len() == 0 {
        Seq::empty()
    } else {
        let rest = non_empty(items.drop_last());
        if items.last().len() > 0 {
            rest.push(items.last())
        } else {
            rest
        }
    }
}

/// A string array value: the brackets are dropped, the items split at commas, each parsed
/// as a string, and empty items left out.
pub open spec fn parse_string_array_spec(v: Seq<char>) -> Seq<Seq<char>> {
    let inner = trim_end_char(trim_start_char(trim_spec(v), '['), ']');
    non_empty(split_spec(inner, ',').map_values(|p: Seq<char>| parse_string_spec(p)))
}

/// A boolean value (`bool::from_str`): exactly `true` or `false`.
pub open spec fn parse_bool_spec(v: Seq<char>) -> Option<bool> {
    if v == "true"@ {
        Some(true)
    } else if v == "false"@ {
        Some(false)
    } else {
        None
    }
}

/// Whether `v` starts with three single quotes.
fn starts_with_triple(v: &Vec<char>) -> (b: bool)
    ensures
        b == starts_with(v@, triple_quote()),
{
    let b = v.len() >= 3 && v[0] == '\'' && v[1] == '\'' && v[2] == '\'';
    assert(b == starts_with(v@, triple_quote())) by {
        if v.len() >= 3 {
            assert(v@.take(3) =~= seq![v@[0], v@[1], v@[2]]);
        }
    }
    b
}

/// Whether `v` ends with three single quotes.
fn ends_with_triple(v: &Vec<char>) -> (b: bool)
    ensures
        b == ends_with(v@, triple_quote()),
{
    let n = v.len();
    let b = n >= 3 && v[n - 3] == '\'' && v[n - 2] == '\'' && v[n - 1] == '\'';
    assert(b == ends_with(v@, triple_quote())) by {
        if n >= 3 {
            assert(v@.skip(n - 3) =~= seq![v@[n - 3], v@[n - 2], v@[n - 1]]);
        }
    }
    b
}

/// Parses a string value.
pub fn parse_string(value: &Vec<char>) -> (s: String)
    ensures
        s@ == parse_string_spec(value@),
{
    let t = trim_chars(value);
    if starts_with_triple(&t) {
        let rest = copy_chars(&t, 3, t.len());
        assert(rest@ == t@.skip(3));
        if ends_with_triple(&rest) {
            let inner = copy_chars(&t, 3, t.len() - 3);
            let trimmed = trim_chars(&inner);
            return string_from_chars(trimmed.as_slice());
        }
    }
    let a = trim_start_chars(&t, '"');
    let b = trim_end_chars(&a, '"');
    string_from_chars(b.as_slice())
}

/// Parses a string array value.
pub fn parse_string_array(value: &Vec<char>) -> (items: Vec<String>)
    ensures
        strings_view(items@) == parse_string_array_spec(value@),
{
    let t = trim_chars(value);
    let a = trim_start_chars(&t, '[');
    let inner = trim_end_chars(&a, ']');
    let pieces = split_chars(&inner, ',');
    let ghost parsed = pieces_view(pieces@).map_values(|p: Seq<char>| parse_string_spec(p));
    let mut items: Vec<String> = Vec::new();
    let mut i: usize = 0;
    while i < pieces.len()
        invariant
            i <= pieces.len(),
            parsed == pieces_view(pieces@).map_values(|p: Seq<char>| parse_string_spec(p)),
            strings_view(items@) == non_empty(parsed.take(i as int)),
        decreases pieces.len() - i,
    {
        let item = parse_string(&pieces[i]);
        assert(parsed.take(i + 1).drop_last() == parsed.take(i as int));
        assert(item@ == parsed[i as int]);
        if item.as_str().is_empty() {
        } else {
            let ghost prev = items@;
            items.push(item);
            proof {
                lemma_strings_view_push(prev, item);
            }
        }
        i = i + 1;
    }
    assert(parsed.take(pieces.len() as int) == parsed);
    items
}

/// Parses a boolean value.
pub fn parse_bool(value: &Vec<char>) -> (b: Option<bool>)
    ensures
        b == parse_bool_spec(value@),
{
    if chars_eq_str(value, "true") {
        Some(true)
    } else if chars_eq_str(value, "false") {
        Some(false)
    } else {
        None
    }
}

// ---------------------------------------------------------------------------------------
// Applying one `key = value` pair
// ---------------------------------------------------------------------------------------

/// The error for a value that should be a number.
pub open spec fn number_error(key: Seq<char>) -> Seq<char> {
    key + " must be a number"@
}

/// The error for a value that should be a boolean.
pub open spec fn bool_error(key: Seq<char>) -> Seq<char> {
    key + " must be a boolean"@
}

/// The last event hook of a configuration changed by `f`, if there is one.
pub open spec fn update_last_hook(c: ConfigView, f: spec_fn(EventHookView) -> EventHookView) -> ConfigView {
    if c.event_hooks.len() > 0 {
        ConfigView {
            event_hooks: c.event_hooks.update(
                c.event_hooks.len() - 1,
                f(c.event_hooks[c.event_hooks.len() - 1]),
            ),
            ..c
        }
    } else {
        c
    }
}

/// A top-level key.
pub open spec fn apply_top_spec(c: ConfigView, key: Seq<char>, value: Seq<char>) -> Result<ConfigView, Seq<char>> {
    if key == "version"@ {
        match parse_unsigned_spec(value, u32::MAX as nat) {
            Some(n) => Ok(ConfigView { version: n as u32, ..c }),
            None => Err(number_error(key)),
        }
    } else if key == "profile"@ {
        Ok(ConfigView { profile: Some(parse_string_spec(value)), ..c })
    } else {
        Ok(c)
    }
}

/// A key of the `[watch]` section.
pub open spec fn apply_watch_spec(c: ConfigView, key: Seq<char>, value: Seq<char>) -> Result<ConfigView, Seq<char>> {
    if key == "paths"@ {
        Ok(ConfigView { watch: WatchView { paths: parse_string_array_spec(value), ..c.watch }, ..c })
    } else if key == "ignore"@ {
        Ok(ConfigView { watch: WatchView { ignore: parse_string_array_spec(value), ..c.watch }, ..c })
    } else if key == "extensions"@ {
        Ok(ConfigView { watch: WatchView { extensions: parse_string_array_spec(value), ..c.watch }, ..c })
    } else if key == "debounce_ms"@ {
        match parse_unsigned_spec(value, u64::MAX as nat) {
            Some(n) => Ok(ConfigView { watch: WatchView { debounce_ms: n as u64, ..c.watch }, ..c }),
            None => Err(number_error(key)),
        }
    } else if key == "recursive"@ {
        match parse_bool_spec(value) {
            Some(b) => Ok(ConfigView { watch: WatchView { recursive: b, ..c.watch }, ..c }),
            None => Err(bool_error(key)),
        }
    } else if key == "follow_symlink"@ {
        match parse_bool_spec(value) {
            Some(b) => Ok(ConfigView { watch: WatchView { follow_symlink: b, ..c.watch }, ..c }),
            None => Err(bool_error(key)),
        }
    } else {
        Ok(c)
    }
}

/// A key of the `[run]` section.
pub open spec fn apply_run_spec(c: ConfigView, key: Seq<char>, value: Seq<char>) -> Result<ConfigView, Seq<char>> {
    if key == "cmd"@ {
        Ok(ConfigView { run: RunView { cmd: parse_string_spec(value), ..c.run }, ..c })
    } else if key == "cwd"@ {
        Ok(ConfigView { run: RunView { cwd: parse_string_spec(value), ..c.run }, ..c })
    } else if key == "restart"@ {
        match parse_bool_spec(value) {
            Some(b) => Ok(ConfigView { run: RunView { restart: b, ..c.run }, ..c }),
            None => Err(bool_error(key)),
        }
    } else if key == "restart_delay_ms"@ {
        match parse_unsigned_spec(value, u64::MAX as nat) {
            Some(n) => Ok(ConfigView { run: RunView { restart_delay_ms: n as u64, ..c.run }, ..c }),
            None => Err(number_error(key)),
        }
    } else if key == "kill_signal"@ {
        Ok(ConfigView { run: RunView { kill_signal: parse_string_spec(value), ..c.run }, ..c })
    } else if key == "clear_logs_on_restart"@ {
        match parse_bool_spec(value) {
            Some(b) => Ok(ConfigView { run: RunView { clear_logs_on_restart: b, ..c.run }, ..c }),
            None => Err(bool_error(key)),
        }
    } else {
        Ok(c)
    }
}

/// A key of the `[tui]` section.
pub open spec fn apply_tui_spec(c: ConfigView, key: Seq<char>, value: Seq<char>) -> Result<ConfigView, Seq<char>> {
    if key == "left_panel_width"@ {
        match parse_unsigned_spec(value, u16::MAX as nat) {
            Some(n) => Ok(ConfigView { tui: TuiConfig { left_panel_width: n as u16, ..c.tui }, ..c }),
            None => Err(number_error(key)),
        }
    } else if key == "show_timestamp"@ {
        match parse_bool_spec(value) {
            Some(b) => Ok(ConfigView { tui: TuiConfig { show_timestamp: b, ..c.tui }, ..c }),
            None => Err(bool_error(key)),
        }
    } else if key == "show_file_icons"@ {
        match parse_bool_spec(value) {
            Some(b) => Ok(ConfigView { tui: TuiConfig { show_file_icons: b, ..c.tui }, ..c }),
            None => Err(bool_error(key)),
        }
    } else if key == "auto_scroll_logs"@ {
        match parse_bool_spec(value) {
            Some(b) => Ok(ConfigView { tui: TuiConfig { auto_scroll_logs: b, ..c.tui }, ..c }),
            None => Err(bool_error(key)),
        }
    } else if key == "max_log_lines"@ {
        match parse_unsigned_spec(value, usize::MAX as nat) {
            Some(n) => Ok(ConfigView { tui: TuiConfig { max_log_lines: n as usize, ..c.tui }, ..c }),
            None => Err(number_error(key)),
        }
    } else {
        Ok(c)
    }
}

/// A key of the `[api]` section.
pub open spec fn apply_api_spec(c: ConfigView, key: Seq<char>, value: Seq<char>) -> Result<ConfigView, Seq<char>> {
    if key == "enabled"@ {
        match parse_bool_spec(value) {
            Some(b) => Ok(ConfigView { api: ApiView { enabled: b, ..c.api }, ..c }),
            None => Err(bool_error(key)),
        }
    } else if key == "host"@ {
        Ok(ConfigView { api: ApiView { host: parse_string_spec(value), ..c.api }, ..c })
    } else if key == "port"@ {
        match parse_unsigned_spec(value, u16::MAX as nat) {
            Some(n) => Ok(ConfigView { api: ApiView { port: n as u16, ..c.api }, ..c }),
            None => Err(number_error(key)),
        }
    } else if key == "transport"@ {
        Ok(ConfigView { api: ApiView { transport: parse_string_array_spec(value), ..c.api }, ..c })
    } else if key == "event_format"@ {
        Ok(ConfigView { api: ApiView { event_format: parse_string_spec(value), ..c.api }, ..c })
    } else if key == "max_event_buffer"@ {
        match parse_unsigned_spec(value, usize::MAX as nat) {
            Some(n) => Ok(ConfigView { api: ApiView { max_event_buffer: n as usize, ..c.api }, ..c }),
            None => Err(number_error(key)),
        }
    } else {
        Ok(c)
    }
}

/// A key of the `[ipc]` section.
pub open spec fn apply_ipc_spec(c: ConfigView, key: Seq<char>, value: Seq<char>) -> Result<ConfigView, Seq<char>> {
    if key == "enabled"@ {
        match parse_bool_spec(value) {
            Some(b) => Ok(ConfigView { ipc: IpcView { enabled: b, ..c.ipc }, ..c }),
            None => Err(bool_error(key)),
        }
    } else if key == "name"@ {
        Ok(ConfigView { ipc: IpcView { name: parse_string_spec(value), ..c.ipc }, ..c })
    } else if key == "path"@ {
        Ok(ConfigView { ipc: IpcView { path: parse_string_spec(value), ..c.ipc }, ..c })
    } else {
        Ok(c)
    }
}

/// A key of an `[[event_hooks]]` table: it sets a field of the last hook, if there is one.
pub open spec fn apply_hook_spec(c: ConfigView, key: Seq<char>, value: Seq<char>) -> ConfigView {
    if key == "name"@ {
        update_last_hook(c, |h: EventHookView| EventHookView { name: parse_string_spec(value), ..h })
    } else if key == "events"@ {
        update_last_hook(c, |h: EventHookView| EventHookView { events: parse_string_array_spec(value), ..h })
    } else if key == "paths"@ {
        update_last_hook(c, |h: EventHookView| EventHookView { paths: parse_string_array_spec(value), ..h })
    } else if key == "when"@ {
        update_last_hook(c, |h: EventHookView| EventHookView { when: parse_string_spec(value), ..h })
    } else if key == "cmd"@ {
        update_last_hook(c, |h: EventHookView| EventHookView { cmd: parse_string_spec(value), ..h })
    } else {
        c
    }
}

/// Applies one `key = value` pair of a section; unknown sections and keys change nothing.
pub open spec fn apply_value_spec(c: ConfigView, section: Seq<char>, key: Seq<char>, value: Seq<char>) -> Result<ConfigView, Seq<char>> {
    if section.len() == 0 {
        apply_top_spec(c, key, value)
    } else if section == "watch"@ {
        apply_watch_spec(c, key, value)
    } else if section == "run"@ {
        apply_run_spec(c, key, value)
    } else if section == "tui"@ {
        apply_tui_spec(c, key, value)
    } else if section == "api"@ {
        apply_api_spec(c, key, value)
    } else if section == "ipc"@ {
        apply_ipc_spec(c, key, value)
    } else if section == "event_hooks"@ {
        Ok(apply_hook_spec(c, key, value))
    } else {
        Ok(c)
    }
}

fn error_with(key: &Vec<char>, suffix: &str) -> (e: ConfigError)
    ensures
        e@ == key@ + suffix@,
{
    let mut m = string_from_chars(key.as_slice());
    push_str(&mut m, suffix);
    ConfigError::new(m)
}

fn number_err(key: &Vec<char>) -> (e: ConfigError)
    ensures
        e@ == number_error(key@),
{
    error_with(key, " must be a number")
}

fn bool_err(key: &Vec<char>) -> (e: ConfigError)
    ensures
        e@ == bool_error(key@),
{
    error_with(key, " must be a boolean")
}

/// Whether the exec result matches the spec result, the config unchanged on error.
pub open spec fn applied(
    before: ConfigView,
    after: ConfigView,
    r: Result<(), ConfigError>,
    expected: Result<ConfigView, Seq<char>>,
) -> bool {
    match expected {
        Ok(c2) => r is Ok && after == c2,
        Err(m) => r matches Err(e) && e@ == m && after == before,
    }
}

fn apply_top(config: &mut Config, key: &Vec<char>, value: &Vec<char>) -> (r: Result<(), ConfigError>)
    ensures
        applied(old(config)@, final(config)@, r, apply_top_spec(old(config)@, key@, value@)),
{
    if chars_eq_str(key, "version") {
        match parse_unsigned(value, 0xffff_ffff) {
            Some(n) => {
                config.version = n as u32;
            },
            None => {
                return Err(number_err(key));
            },
        }
    } else if chars_eq_str(key, "profile") {
        config.profile = Some(parse_string(value));
    }
    Ok(())
}

fn apply_watch(config: &mut Config, key: &Vec<char>, value: &Vec<char>) -> (r: Result<(), ConfigError>)
    ensures
        applied(old(config)@, final(config)@, r, apply_watch_spec(old(config)@, key@, value@)),
{
    if chars_eq_str(key, "paths") {
        config.watch.paths = parse_string_array(value);
    } else if chars_eq_str(key, "ignore") {
        config.watch.ignore = parse_string_array(value);
    } else if chars_eq_str(key, "extensions") {
        config.watch.extensions = parse_string_array(value);
    } else if chars_eq_str(key, "debounce_ms") {
        match parse_unsigned(value, 0xffff_ffff_ffff_ffff) {
            Some(n) => {
                config.watch.debounce_ms = n;
            },
            None => {
                return Err(number_err(key));
            },
        }
    } else if chars_eq_str(key, "recursive") {
        match parse_bool(value) {
            Some(b) => {
                config.watch.recursive = b;
            },
            None => {
                return Err(bool_err(key));
            },
        }
    } else if chars_eq_str(key, "follow_symlink") {
        match parse_bool(value) {
            Some(b) => {
                config.watch.follow_symlink = b;
            },
            None => {
                return Err(bool_err(key));
            },
        }
    }
    Ok(())
}

fn apply_run(config: &mut Config, key: &Vec<char>, value: &Vec<char>) -> (r: Result<(), ConfigError>)
    ensures
        applied(old(config)@, final(config)@, r, apply_run_spec(old(config)@, key@, value@)),
{
    if chars_eq_str(key, "cmd") {
        config.run.cmd = parse_string(value);
    } else if chars_eq_str(key, "cwd") {
        config.run.cwd = parse_string(value);
    } else if chars_eq_str(key, "restart") {
        match parse_bool(value) {
            Some(b) => {
                config.run.restart = b;
            },
            None => {
                return Err(bool_err(key));
            },
        }
    } else if chars_eq_str(key, "restart_delay_ms") {
        match parse_unsigned(value, 0xffff_ffff_ffff_ffff) {
            Some(n) => {
                config.run.restart_delay_ms = n;
            },
            None => {
                return Err(number_err(key));
            },
        }
    } else if chars_eq_str(key, "kill_signal") {
        config.run.kill_signal = parse_string(value);
    } else if chars_eq_str(key, "clear_logs_on_restart") {
        match parse_bool(value) {
            Some(b) => {
                config.run.clear_logs_on_restart = b;
            },
            None => {
                return Err(bool_err(key));
            },
        }
    }
    Ok(())
}

fn apply_tui(config: &mut Config, key: &Vec<char>, value: &Vec<char>) -> (r: Result<(), ConfigError>)
    ensures
        applied(old(config)@, final(config)@, r, apply_tui_spec(old(config)@, key@, value@)),
{
    if chars_eq_str(key, "left_panel_width") {
        match parse_unsigned(value, 0xffff) {
            Some(n) => {
                config.tui.left_panel_width = n as u16;
            },
            None => {
                return Err(number_err(key));
            },
        }
    } else if chars_eq_str(key, "show_timestamp") {
        match parse_bool(value) {
            Some(b) => {
                config.tui.show_timestamp = b;
            },
            None => {
                return Err(bool_err(key));
            },
        }
    } else if chars_eq_str(key, "show_file_icons") {
        match parse_bool(value) {
            Some(b) => {
                config.tui.show_file_icons = b;
            },
            None => {
                return Err(bool_err(key));
            },
        }
    } else if chars_eq_str(key, "auto_scroll_logs") {
        match parse_bool(value) {
            Some(b) => {
                config.tui.auto_scroll_logs = b;
            },
            None => {
                return Err(bool_err(key));
            },
        }
    } else if chars_eq_str(key, "max_log_lines") {
        match parse_unsigned(value, usize::MAX as u64) {
            Some(n) => {
                config.tui.max_log_lines = n as usize;
            },
            None => {
                return Err(number_err(key));
            },
        }
    }
    Ok(())
}

fn apply_api(config: &mut Config, key: &Vec<char>, value: &Vec<char>) -> (r: Result<(), ConfigError>)
    ensures
        applied(old(config)@, final(config)@, r, apply_api_spec(old(config)@, key@, value@)),
{
    if chars_eq_str(key, "enabled") {
        match parse_bool(value) {
            Some(b) => {
                config.api.enabled = b;
            },
            None => {
                return Err(bool_err(key));
            },
        }
    } else if chars_eq_str(key, "host") {
        config.api.host = parse_string(value);
    } else if chars_eq_str(key, "port") {
        match parse_unsigned(value, 0xffff) {
            Some(n) => {
                config.api.port = n as u16;
            },
            None => {
                return Err(number_err(key));
            },
        }
    } else if chars_eq_str(key, "transport") {
        config.api.transport = parse_string_array(value);
    } else if chars_eq_str(key, "event_format") {
        config.api.event_format = parse_string(value);
    } else if chars_eq_str(key, "max_event_buffer") {
        match parse_unsigned(value, usize::MAX as u64) {
            Some(n) => {
                config.api.max_event_buffer = n as usize;
            },
            None => {
                return Err(number_err(key));
            },
        }
    }
    Ok(())
}

fn apply_ipc(config: &mut Config, key: &Vec<char>, value: &Vec<char>) -> (r: Result<(), ConfigError>)
    ensures
        applied(old(config)@, final(config)@, r, apply_ipc_spec(old(config)@, key@, value@)),
{
    if chars_eq_str(key, "enabled") {
        match parse_bool(value) {
            Some(b) => {
                config.ipc.enabled = b;
            },
            None => {
                return Err(bool_err(key));
            },
        }
    } else if chars_eq_str(key, "name") {
        config.ipc.name = parse_string(value);
    } else if chars_eq_str(key, "path") {
        config.ipc.path = parse_string(value);
    }
    Ok(())
}

fn apply_hook(config: &mut Config, key: &Vec<char>, value: &Vec<char>)
    ensures
        final(config)@ == apply_hook_spec(old(config)@, key@, value@),
{
    let n = config.event_hooks.len();
    if n == 0 {
        return;
    }
    let known = chars_eq_str(key, "name") || chars_eq_str(key, "events") || chars_eq_str(key, "paths")
        || chars_eq_str(key, "when") || chars_eq_str(key, "cmd");
    if !known {
        return;
    }
    let ghost hooks = config.event_hooks@;
    let mut hook = match config.event_hooks.pop() {
        Some(h) => h,
        None => {
            return;
        },
    };
    assert(hooks == config.event_hooks@.push(hook));
    if chars_eq_str(key, "name") {
        hook.name = parse_string(value);
    } else if chars_eq_str(key, "events") {
        hook.events = parse_string_array(value);
    } else if chars_eq_str(key, "paths") {
        hook.paths = parse_string_array(value);
    } else if chars_eq_str(key, "when") {
        hook.when = parse_string(value);
    } else {
        hook.cmd = parse_string(value);
    }
    let ghost rest = config.event_hooks@;
    config.event_hooks.push(hook);
    assert(hooks_view(config.event_hooks@) =~= hooks_view(hooks).update(n - 1, hook@)) by {
        assert(config.event_hooks@ == rest.push(hook));
        assert forall|i: int| 0 <= i < n - 1 implies hooks_view(config.event_hooks@)[i] == hooks_view(hooks)[i] by {
            assert(config.event_hooks@[i] == hooks[i]);
        }
    }
}

// ---------------------------------------------------------------------------------------
// The line-level reader of the TOML subset
// ---------------------------------------------------------------------------------------

/// The part of a line before its first `#`.
pub open spec fn before_hash(l: Seq<char>) -> Seq<char> {
    match index_of(l, '#') {
        Some(k) => l.take(k as int),
        None => l,
    }
}

/// A line without its comment and surrounding white space.
pub open spec fn content_of(l: Seq<char>) -> Seq<char> {
    trim_spec(before_hash(l))
}

/// The name of an array-of-tables header `[[name]]`, trimmed.
pub open spec fn array_header(line: Seq<char>) -> Option<Seq<char>> {
    if starts_with(line, "[["@) && ends_with(line.skip(2), "]]"@) {
        Some(trim_spec(line.subrange(2, line.len() - 2)))
    } else {
        None
    }
}

/// The name of a table header `[name]`, trimmed.
pub open spec fn table_header(line: Seq<char>) -> Option<Seq<char>> {
    if starts_with(line, "["@) && ends_with(line.skip(1), "]"@) {
        Some(trim_spec(line.subrange(1, line.len() - 1)))
    } else {
        None
    }
}

/// Whether a (trimmed) value opens a literal string that goes on over the next lines.
pub open spec fn opens_multiline(v: Seq<char>) -> bool {
    starts_with(v, triple_quote()) && (v == triple_quote() || !ends_with(v, triple_quote()))
}

/// Whether a (trimmed) value opens an array that goes on over the next lines.
pub open spec fn opens_array(v: Seq<char>) -> bool {
    starts_with(v, "["@) && !ends_with(v, "]"@)
}

/// A multi-line literal string: each following line is added after a line break, up to and
/// including the first whose trimmed end closes the string. Gives the text and the index of
/// the first line not consumed.
pub open spec fn collect_string(acc: Seq<char>, ls: Seq<Seq<char>>, j: nat) -> (Seq<char>, nat)
    decreases ls.len() - j,
{
    if j >= ls.len() {
        (acc, j)
    } else {
        let next = acc + seq!['\n'] + ls[j as int];
        if ends_with(trim_end_spec(ls[j as int]), triple_quote()) {
            (next, j + 1)
        } else {
            collect_string(next, ls, j + 1)
        }
    }
}

/// A multi-line array: the content of each following line that is not blank is added after a
/// space, up to and including the first line whose content ends with `]`.
pub open spec fn collect_array(acc: Seq<char>, ls: Seq<Seq<char>>, j: nat) -> (Seq<char>, nat)
    decreases ls.len() - j,
{
    if j >= ls.len() {
        (acc, j)
    } else {
        let line = content_of(ls[j as int]);
        let next = if line.len() > 0 { acc + seq![' '] + line } else { acc };
        if ends_with(line, "]"@) {
            (next, j + 1)
        } else {
            collect_array(next, ls, j + 1)
        }
    }
}

/// The whole text of a value that starts on the line before `j`.
pub open spec fn collect_value_spec(v: Seq<char>, ls: Seq<Seq<char>>, j: nat) -> (Seq<char>, nat) {
    if opens_multiline(v) {
        collect_string(v, ls, j)
    } else if opens_array(v) {
        collect_array(v, ls, j)
    } else {
        (v, j)
    }
}

pub proof fn lemma_collect_string_bounds(acc: Seq<char>, ls: Seq<Seq<char>>, j: nat)
    requires
        j <= ls.len(),
    ensures
        j <= collect_string(acc, ls, j).1 <= ls.len(),
    decreases ls.len() - j,
{
    if j < ls.len() {
        lemma_collect_string_bounds(acc + seq!['\n'] + ls[j as int], ls, j + 1);
    }
}

pub proof fn lemma_collect_array_bounds(acc: Seq<char>, ls: Seq<Seq<char>>, j: nat)
    requires
        j <= ls.len(),
    ensures
        j <= collect_array(acc, ls, j).1 <= ls.len(),
    decreases ls.len() - j,
{
    if j < ls.len() {
        let line = content_of(ls[j as int]);
        let next = if line.len() > 0 { acc + seq![' '] + line } else { acc };
        lemma_collect_array_bounds(next, ls, j + 1);
    }
}

pub proof fn lemma_collect_bounds(v: Seq<char>, ls: Seq<Seq<char>>, j: nat)
    requires
        j <= ls.len(),
    ensures
        j <= collect_value_spec(v, ls, j).1 <= ls.len(),
{
    lemma_collect_string_bounds(v, ls, j);
    lemma_collect_array_bounds(v, ls, j);
}

/// Reads the lines from `i` on into configuration `c`, in section `section`: blank lines and
/// comments are skipped, headers change the section (`[[event_hooks]]` also starts a new
/// hook), and each `key = value` line is applied. Gives the configuration reached and the
/// error that stopped the reading, if any; lines without `=` are ignored.
pub open spec fn merge_lines(c: ConfigView, section: Seq<char>, ls: Seq<Seq<char>>, i: nat) -> (ConfigView, Option<Seq<char>>)
    decreases ls.len() - i,
{
    if i >= ls.len() {
        (c, None)
    } else {
        let line = content_of(ls[i as int]);
        if line.len() == 0 {
            merge_lines(c, section, ls, i + 1)
        } else if array_header(line) is Some {
            let name = array_header(line)->0;
            let c2 = if name == "event_hooks"@ {
                ConfigView { event_hooks: c.event_hooks.push(empty_hook()), ..c }
            } else {
                c
            };
            merge_lines(c2, name, ls, i + 1)
        } else if table_header(line) is Some {
            merge_lines(c, table_header(line)->0, ls, i + 1)
        } else if index_of(line, '=') is Some {
            let k = index_of(line, '=')->0;
            let key = trim_spec(line.take(k as int));
            let (value, next) = collect_value_spec(trim_spec(line.skip((k + 1) as int)), ls, i + 1);
            proof {
                lemma_collect_bounds(trim_spec(line.skip((k + 1) as int)), ls, i + 1);
            }
            match apply_value_spec(c, section, key, value) {
                Ok(c2) => merge_lines(c2, section, ls, next),
                Err(m) => (c, Some(m)),
            }
        } else {
            merge_lines(c, section, ls, i + 1)
        }
    }
}

/// What merging `content` into `c` gives: the configuration reached and the error that
/// stopped it, if any.
pub open spec fn merge_toml_spec(c: ConfigView, content: Seq<char>) -> (ConfigView, Option<Seq<char>>) {
    merge_lines(c, Seq::empty(), lines_spec(content), 0)
}

/// Merging an empty text changes nothing and fails nowhere.
pub proof fn law_merge_toml_empty(c: ConfigView)
    ensures
        merge_toml_spec(c, Seq::empty()) == (c, Option::<Seq<char>>::None),
{
    assert(lines_spec(Seq::empty()) =~= Seq::<Seq<char>>::empty());
}

/// Whether applying `key = v` in `section` succeeds with `x`, a configuration that differs
/// from `c` in that section only.
pub open spec fn sets_in(c: ConfigView, section: Seq<char>, key: Seq<char>, v: Seq<char>, x: ConfigView) -> bool {
    &&& apply_value_spec(c, section, key, v) == Ok::<ConfigView, Seq<char>>(x)
    &&& x.version == c.version && x.profile == c.profile && x.event_hooks == c.event_hooks
    &&& x.once == c.once && x.verbose == c.verbose && x.quiet == c.quiet
    &&& (section != "watch"@ ==> x.watch == c.watch)
    &&& (section != "run"@ ==> x.run == c.run)
    &&& (section != "tui"@ ==> x.tui == c.tui)
    &&& (section != "api"@ ==> x.api == c.api)
    &&& (section != "ipc"@ ==> x.ipc == c.ipc)
}

/// Whether applying `key = v` in `section` fails with the message that `key` must be `what`.
pub open spec fn refuses(c: ConfigView, section: Seq<char>, key: Seq<char>, v: Seq<char>, what: Seq<char>) -> bool {
    apply_value_spec(c, section, key, v) == Err::<ConfigView, Seq<char>>(key + (" must be "@ + what))
}

/// Each key of the `[watch]` section (`paths`, `ignore`, `extensions`, `debounce_ms`, `recursive`, `follow_symlink`) sets its own field to the value it reads
/// and leaves the rest of the configuration as it was; a number or boolean that does not read
/// is an error naming the key.
pub proof fn law_watch_keys(c: ConfigView, v: Seq<char>)
    ensures
        sets_in(c, "watch"@, "paths"@, v, (ConfigView { watch: (WatchView { paths: parse_string_array_spec(v), ..c.watch }), ..c })),
        sets_in(c, "watch"@, "ignore"@, v, (ConfigView { watch: (WatchView { ignore: parse_string_array_spec(v), ..c.watch }), ..c })),
        sets_in(c, "watch"@, "extensions"@, v, (ConfigView { watch: (WatchView { extensions: parse_string_array_spec(v), ..c.watch }), ..c })),
        parse_unsigned_spec(v, u64::MAX as nat) matches Some(n) ==> sets_in(c, "watch"@, "debounce_ms"@, v, (ConfigView { watch: (WatchView { debounce_ms: n as u64, ..c.watch }), ..c })),
        parse_unsigned_spec(v, u64::MAX as nat) is None ==> refuses(c, "watch"@, "debounce_ms"@, v, "a number"@),
        parse_bool_spec(v) matches Some(b) ==> sets_in(c, "watch"@, "recursive"@, v, (ConfigView { watch: (WatchView { recursive: b, ..c.watch }), ..c })),
        parse_bool_spec(v) is None ==> refuses(c, "watch"@, "recursive"@, v, "a boolean"@),
        parse_bool_spec(v) matches Some(b) ==> sets_in(c, "watch"@, "follow_symlink"@, v, (ConfigView { watch: (WatchView { follow_symlink: b, ..c.watch }), ..c })),
        parse_bool_spec(v) is None ==> refuses(c, "watch"@, "follow_symlink"@, v, "a boolean"@),
{
    reveal_strlit("watch");
    reveal_strlit("run");
    reveal_strlit("tui");
    reveal_strlit("api");
    reveal_strlit("ipc");
    reveal_strlit("event_hooks");
    reveal_strlit("paths");
    reveal_strlit("ignore");
    reveal_strlit("extensions");
    reveal_strlit("debounce_ms");
    reveal_strlit("recursive");
    reveal_strlit("follow_symlink");
    reveal_strlit(" must be a number");
    reveal_strlit(" must be a boolean");
    reveal_strlit(" must be ");
    reveal_strlit("a number");
    reveal_strlit("a boolean");
    assert("watch"@.len() == 5 && "watch"@[0] == 'w' && "watch"@[1] == 'a');
    assert("run"@.len() == 3 && "run"@[0] == 'r' && "run"@[1] == 'u');
    assert("tui"@.len() == 3 && "tui"@[0] == 't' && "tui"@[1] == 'u');
    assert("api"@.len() == 3 && "api"@[0] == 'a' && "api"@[1] == 'p');
    assert("ipc"@.len() == 3 && "ipc"@[0] == 'i' && "ipc"@[1] == 'p');
    assert("event_hooks"@.len() == 11 && "event_hooks"@[0] == 'e' && "event_hooks"@[1] == 'v');
    assert("paths"@.len() == 5 && "paths"@[0] == 'p' && "paths"@[1] == 'a');
    assert("ignore"@.len() == 6 && "ignore"@[0] == 'i' && "ignore"@[1] == 'g');
    assert("extensions"@.len() == 10 && "extensions"@[0] == 'e' && "extensions"@[1] == 'x');
    assert("debounce_ms"@.len() == 11 && "debounce_ms"@[0] == 'd' && "debounce_ms"@[1] == 'e');
    assert("recursive"@.len() == 9 && "recursive"@[0] == 'r' && "recursive"@[1] == 'e');
    assert("follow_symlink"@.len() == 14 && "follow_symlink"@[0] == 'f' && "follow_symlink"@[1] == 'o');
    assert(" must be "@ + "a number"@ =~= " must be a number"@);
    assert(" must be "@ + "a boolean"@ =~= " must be a boolean"@);
}

/// Each key of the `[run]` section (`cmd`, `cwd`, `restart`, `restart_delay_ms`, `kill_signal`, `clear_logs_on_restart`) sets its own field to the value it reads
/// and leaves the rest of the configuration as it was; a number or boolean that does not read
/// is an error naming the key.
pub proof fn law_run_keys(c: ConfigView, v: Seq<char>)
    ensures
        sets_in(c, "run"@, "cmd"@, v, (ConfigView { run: (RunView { cmd: parse_string_spec(v), ..c.run }), ..c })),
        sets_in(c, "run"@, "cwd"@, v, (ConfigView { run: (RunView { cwd: parse_string_spec(v), ..c.run }), ..c })),
        parse_bool_spec(v) matches Some(b) ==> sets_in(c, "run"@, "restart"@, v, (ConfigView { run: (RunView { restart: b, ..c.run }), ..c })),
        parse_bool_spec(v) is None ==> refuses(c, "run"@, "restart"@, v, "a boolean"@),
        parse_unsigned_spec(v, u64::MAX as nat) matches Some(n) ==> sets_in(c, "run"@, "restart_delay_ms"@, v, (ConfigView { run: (RunView { restart_delay_ms: n as u64, ..c.run }), ..c })),
        parse_unsigned_spec(v, u64::MAX as nat) is None ==> refuses(c, "run"@, "restart_delay_ms"@, v, "a number"@),
        sets_in(c, "run"@, "kill_signal"@, v, (ConfigView { run: (RunView { kill_signal: parse_string_spec(v), ..c.run }), ..c })),
        parse_bool_spec(v) matches Some(b) ==> sets_in(c, "run"@, "clear_logs_on_restart"@, v, (ConfigView { run: (RunView { clear_logs_on_restart: b, ..c.run }), ..c })),
        parse_bool_spec(v) is None ==> refuses(c, "run"@, "clear_logs_on_restart"@, v, "a boolean"@),
{
    reveal_strlit("watch");
    reveal_strlit("run");
    reveal_strlit("tui");
    reveal_strlit("api");
    reveal_strlit("ipc");
    reveal_strlit("event_hooks");
    reveal_strlit("cmd");
    reveal_strlit("cwd");
    reveal_strlit("restart");
    reveal_strlit("restart_delay_ms");
    reveal_strlit("kill_signal");
    reveal_strlit("clear_logs_on_restart");
    reveal_strlit(" must be a number");
    reveal_strlit(" must be a boolean");
    reveal_strlit(" must be ");
    reveal_strlit("a number");
    reveal_strlit("a boolean");
    assert("watch"@.len() == 5 && "watch"@[0] == 'w' && "watch"@[1] == 'a');
    assert("run"@.len() == 3 && "run"@[0] == 'r' && "run"@[1] == 'u');
    assert("tui"@.len() == 3 && "tui"@[0] == 't' && "tui"@[1] == 'u');
    assert("api"@.len() == 3 && "api"@[0] == 'a' && "api"@[1] == 'p');
    assert("ipc"@.len() == 3 && "ipc"@[0] == 'i' && "ipc"@[1] == 'p');
    assert("event_hooks"@.len() == 11 && "event_hooks"@[0] == 'e' && "event_hooks"@[1] == 'v');
    assert("cmd"@.len() == 3 && "cmd"@[0] == 'c' && "cmd"@[1] == 'm');
    assert("cwd"@.len() == 3 && "cwd"@[0] == 'c' && "cwd"@[1] == 'w');
    assert("restart"@.len() == 7 && "restart"@[0] == 'r' && "restart"@[1] == 'e');
    assert("restart_delay_ms"@.len() == 16 && "restart_delay_ms"@[0] == 'r' && "restart_delay_ms"@[1] == 'e');
    assert("kill_signal"@.len() == 11 && "kill_signal"@[0] == 'k' && "kill_signal"@[1] == 'i');
    assert("clear_logs_on_restart"@.len() == 21 && "clear_logs_on_restart"@[0] == 'c' && "clear_logs_on_restart"@[1] == 'l');
    assert(" must be "@ + "a number"@ =~= " must be a number"@);
    assert(" must be "@ + "a boolean"@ =~= " must be a boolean"@);
}

/// Each key of the `[tui]` section (`left_panel_width`, `show_timestamp`, `show_file_icons`, `auto_scroll_logs`, `max_log_lines`) sets its own field to the value it reads
/// and leaves the rest of the configuration as it was; a number or boolean that does not read
/// is an error naming the key.
pub proof fn law_tui_keys(c: ConfigView, v: Seq<char>)
    ensures
        parse_unsigned_spec(v, u16::MAX as nat) matches Some(n) ==> sets_in(c, "tui"@, "left_panel_width"@, v, (ConfigView { tui: (TuiConfig { left_panel_width: n as u16, ..c.tui }), ..c })),
        parse_unsigned_spec(v, u16::MAX as nat) is None ==> refuses(c, "tui"@, "left_panel_width"@, v, "a number"@),
        parse_bool_spec(v) matches Some(b) ==> sets_in(c, "tui"@, "show_timestamp"@, v, (ConfigView { tui: (TuiConfig { show_timestamp: b, ..c.tui }), ..c })),
        parse_bool_spec(v) is None ==> refuses(c, "tui"@, "show_timestamp"@, v, "a boolean"@),
        parse_bool_spec(v) matches Some(b) ==> sets_in(c, "tui"@, "show_file_icons"@, v, (ConfigView { tui: (TuiConfig { show_file_icons: b, ..c.tui }), ..c })),
        parse_bool_spec(v) is None ==> refuses(c, "tui"@, "show_file_icons"@, v, "a boolean"@),
        parse_bool_spec(v) matches Some(b) ==> sets_in(c, "tui"@, "auto_scroll_logs"@, v, (ConfigView { tui: (TuiConfig { auto_scroll_logs: b, ..c.tui }), ..c })),
        parse_bool_spec(v) is None ==> refuses(c, "tui"@, "auto_scroll_logs"@, v, "a boolean"@),
        parse_unsigned_spec(v, usize::MAX as nat) matches Some(n) ==> sets_in(c, "tui"@, "max_log_lines"@, v, (ConfigView { tui: (TuiConfig { max_log_lines: n as usize, ..c.tui }), ..c })),
        parse_unsigned_spec(v, usize::MAX as nat) is None ==> refuses(c, "tui"@, "max_log_lines"@, v, "a number"@),
{
    reveal_strlit("watch");
    reveal_strlit("run");
    reveal_strlit("tui");
    reveal_strlit("api");
    reveal_strlit("ipc");
    reveal_strlit("event_hooks");
    reveal_strlit("left_panel_width");
    reveal_strlit("show_timestamp");
    reveal_strlit("show_file_icons");
    reveal_strlit("auto_scroll_logs");
    reveal_strlit("max_log_lines");
    reveal_strlit(" must be a number");
    reveal_strlit(" must be a boolean");
    reveal_strlit(" must be ");
    reveal_strlit("a number");
    reveal_strlit("a boolean");
    assert("watch"@.len() == 5 && "watch"@[0] == 'w' && "watch"@[1] == 'a');
    assert("run"@.len() == 3 && "run"@[0] == 'r' && "run"@[1] == 'u');
    assert("tui"@.len() == 3 && "tui"@[0] == 't' && "tui"@[1] == 'u');
    assert("api"@.len() == 3 && "api"@[0] == 'a' && "api"@[1] == 'p');
    assert("ipc"@.len() == 3 && "ipc"@[0] == 'i' && "ipc"@[1] == 'p');
    assert("event_hooks"@.len() == 11 && "event_hooks"@[0] == 'e' && "event_hooks"@[1] == 'v');
    assert("left_panel_width"@.len() == 16 && "left_panel_width"@[0] == 'l' && "left_panel_width"@[1] == 'e');
    assert("show_timestamp"@.len() == 14 && "show_timestamp"@[0] == 's' && "show_timestamp"@[1] == 'h');
    assert("show_file_icons"@.len() == 15 && "show_file_icons"@[0] == 's' && "show_file_icons"@[1] == 'h');
    assert("auto_scroll_logs"@.len() == 16 && "auto_scroll_logs"@[0] == 'a' && "auto_scroll_logs"@[1] == 'u');
    assert("max_log_lines"@.len() == 13 && "max_log_lines"@[0] == 'm' && "max_log_lines"@[1] == 'a');
    assert(" must be "@ + "a number"@ =~= " must be a number"@);
    assert(" must be "@ + "a boolean"@ =~= " must be a boolean"@);
}

/// Each key of the `[api]` section (`enabled`, `host`, `port`, `transport`, `event_format`, `max_event_buffer`) sets its own field to the value it reads
/// and leaves the rest of the configuration as it was; a number or boolean that does not read
/// is an error naming the key.
pub proof fn law_api_keys(c: ConfigView, v: Seq<char>)
    ensures
        parse_bool_spec(v) matches Some(b) ==> sets_in(c, "api"@, "enabled"@, v, (ConfigView { api: (ApiView { enabled: b, ..c.api }), ..c })),
        parse_bool_spec(v) is None ==> refuses(c, "api"@, "enabled"@, v, "a boolean"@),
        sets_in(c, "api"@, "host"@, v, (ConfigView { api: (ApiView { host: parse_string_spec(v), ..c.api }), ..c })),
        parse_unsigned_spec(v, u16::MAX as nat) matches Some(n) ==> sets_in(c, "api"@, "port"@, v, (ConfigView { api: (ApiView { port: n as u16, ..c.api }), ..c })),
        parse_unsigned_spec(v, u16::MAX as nat) is None ==> refuses(c, "api"@, "port"@, v, "a number"@),
        sets_in(c, "api"@, "transport"@, v, (ConfigView { api: (ApiView { transport: parse_string_array_spec(v), ..c.api }), ..c })),
        sets_in(c, "api"@, "event_format"@, v, (ConfigView { api: (ApiView { event_format: parse_string_spec(v), ..c.api }), ..c })),
        parse_unsigned_spec(v, usize::MAX as nat) matches Some(n) ==> sets_in(c, "api"@, "max_event_buffer"@, v, (ConfigView { api: (ApiView { max_event_buffer: n as usize, ..c.api }), ..c })),
        parse_unsigned_spec(v, usize::MAX as nat) is None ==> refuses(c, "api"@, "max_event_buffer"@, v, "a number"@),
{
    reveal_strlit("watch");
    reveal_strlit("run");
    reveal_strlit("tui");
    reveal_strlit("api");
    reveal_strlit("ipc");
    reveal_strlit("event_hooks");
    reveal_strlit("enabled");
    reveal_strlit("host");
    reveal_strlit("port");
    reveal_strlit("transport");
    reveal_strlit("event_format");
    reveal_strlit("max_event_buffer");
    reveal_strlit(" must be a number");
    reveal_strlit(" must be a boolean");
    reveal_strlit(" must be ");
    reveal_strlit("a number");
    reveal_strlit("a boolean");
    assert("watch"@.len() == 5 && "watch"@[0] == 'w' && "watch"@[1] == 'a');
    assert("run"@.len() == 3 && "run"@[0] == 'r' && "run"@[1] == 'u');
    assert("tui"@.len() == 3 && "tui"@[0] == 't' && "tui"@[1] == 'u');
    assert("api"@.len() == 3 && "api"@[0] == 'a' && "api"@[1] == 'p');
    assert("ipc"@.len() == 3 && "ipc"@[0] == 'i' && "ipc"@[1] == 'p');
    assert("event_hooks"@.len() == 11 && "event_hooks"@[0] == 'e' && "event_hooks"@[1] == 'v');
    assert("enabled"@.len() == 7 && "enabled"@[0] == 'e' && "enabled"@[1] == 'n');
    assert("host"@.len() == 4 && "host"@[0] == 'h' && "host"@[1] == 'o');
    assert("port"@.len() == 4 && "port"@[0] == 'p' && "port"@[1] == 'o');
    assert("transport"@.len() == 9 && "transport"@[0] == 't' && "transport"@[1] == 'r');
    assert("event_format"@.len() == 12 && "event_format"@[0] == 'e' && "event_format"@[1] == 'v');
    assert("max_event_buffer"@.len() == 16 && "max_event_buffer"@[0] == 'm' && "max_event_buffer"@[1] == 'a');
    assert(" must be "@ + "a number"@ =~= " must be a number"@);
    assert(" must be "@ + "a boolean"@ =~= " must be a boolean"@);
}

/// Each key of the `[ipc]` section (`enabled`, `name`, `path`) sets its own field to the value it reads
/// and leaves the rest of the configuration as it was; a number or boolean that does not read
/// is an error naming the key.
pub proof fn law_ipc_keys(c: ConfigView, v: Seq<char>)
    ensures
        parse_bool_spec(v) matches Some(b) ==> sets_in(c, "ipc"@, "enabled"@, v, (ConfigView { ipc: (IpcView { enabled: b, ..c.ipc }), ..c })),
        parse_bool_spec(v) is None ==> refuses(c, "ipc"@, "enabled"@, v, "a boolean"@),
        sets_in(c, "ipc"@, "name"@, v, (ConfigView { ipc: (IpcView { name: parse_string_spec(v), ..c.ipc }), ..c })),
        sets_in(c, "ipc"@, "path"@, v, (ConfigView { ipc: (IpcView { path: parse_string_spec(v), ..c.ipc }), ..c })),
{
    reveal_strlit("watch");
    reveal_strlit("run");
    reveal_strlit("tui");
    reveal_strlit("api");
    reveal_strlit("ipc");
    reveal_strlit("event_hooks");
    reveal_strlit("enabled");
    reveal_strlit("name");
    reveal_strlit("path");
    reveal_strlit(" must be a number");
    reveal_strlit(" must be a boolean");
    reveal_strlit(" must be ");
    reveal_strlit("a number");
    reveal_strlit("a boolean");
    assert("watch"@.len() == 5 && "watch"@[0] == 'w' && "watch"@[1] == 'a');
    assert("run"@.len() == 3 && "run"@[0] == 'r' && "run"@[1] == 'u');
    assert("tui"@.len() == 3 && "tui"@[0] == 't' && "tui"@[1] == 'u');
    assert("api"@.len() == 3 && "api"@[0] == 'a' && "api"@[1] == 'p');
    assert("ipc"@.len() == 3 && "ipc"@[0] == 'i' && "ipc"@[1] == 'p');
    assert("event_hooks"@.len() == 11 && "event_hooks"@[0] == 'e' && "event_hooks"@[1] == 'v');
    assert("enabled"@.len() == 7 && "enabled"@[0] == 'e' && "enabled"@[1] == 'n');
    assert("name"@.len() == 4 && "name"@[0] == 'n' && "name"@[1] == 'a');
    assert("path"@.len() == 4 && "path"@[0] == 'p' && "path"@[1] == 'a');
    assert(" must be "@ + "a number"@ =~= " must be a number"@);
    assert(" must be "@ + "a boolean"@ =~= " must be a boolean"@);
}

/// Splitting `p + b` where `b` holds no separator adds `b` to the last piece of `p`.
proof fn lemma_split_tail(p: Seq<char>, b: Seq<char>, sep: char)
    requires
        forall|k: int| 0 <= k < b.len() ==> b[k] != sep,
    ensures
        split_spec(p + b, sep) == split_spec(p, sep).update(
            split_spec(p, sep).len() - 1,
            split_spec(p, sep).last() + b,
        ),
    decreases b.len(),
{
    crate::text::lemma_split_nonempty(p, sep);
    let r = split_spec(p, sep);
    if b.len() == 0 {
        assert(p + b =~= p);
        assert(r.last() + b =~= r.last());
        assert(r.update(r.len() - 1, r.last()) =~= r);
    } else {
        let b0 = b.drop_last();
        lemma_split_tail(p, b0, sep);
        assert((p + b).drop_last() =~= p + b0);
        assert((p + b).last() == b.last());
        assert((r.last() + b0).push(b.last()) =~= r.last() + b);
        assert(r.update(r.len() - 1, r.last() + b0).update(r.len() - 1, r.last() + b) =~= r.update(
            r.len() - 1,
            r.last() + b,
        ));
    }
}

/// No occurrence of `c` in `s` from `i` on.
proof fn lemma_index_of_absent(s: Seq<char>, c: char, i: nat)
    requires
        forall|k: int| i <= k < s.len() ==> s[k] != c,
    ensures
        index_of_from(s, c, i) is None,
    decreases s.len() - i,
{
    if i < s.len() {
        lemma_index_of_absent(s, c, i + 1);
    }
}

/// A value written on one line: no line break or comment in it, no white space at its ends,
/// and neither a multi-line string nor an array left open.
pub open spec fn one_line_value(v: Seq<char>) -> bool {
    &&& v.len() > 0
    &&& !is_space(v[0]) && !is_space(v.last())
    &&& forall|k: int| 0 <= k < v.len() ==> v[k] != '\n' && v[k] != '#'
    &&& !opens_multiline(v) && !opens_array(v)
}

/// Merging a `[watch]` section that sets `ignore` sets the ignore list to the strings of the
/// value and changes nothing else; the merge fails nowhere.
pub proof fn law_merge_watch_ignore(c: ConfigView, v: Seq<char>)
    requires
        one_line_value(v),
    ensures
        merge_toml_spec(c, "[watch]\nignore = "@ + v) == (
            ConfigView { watch: (WatchView { ignore: parse_string_array_spec(v), ..c.watch }), ..c },
            Option::<Seq<char>>::None,
        ),
{
    reveal_strlit("[watch]\nignore = ");
    reveal_strlit("[watch]");
    reveal_strlit("ignore = ");
    reveal_strlit("ignore");
    reveal_strlit("watch");
    reveal_strlit("[[");
    reveal_strlit("[");
    reveal_strlit("]");
    reveal_strlit("event_hooks");
    let h = "[watch]"@;
    let l = "ignore = "@ + v;
    let content = "[watch]\nignore = "@ + v;
    assert(content =~= (h + seq!['\n']) + l);
    assert forall|k: int| 0 <= k < l.len() implies l[k] != '\n' && l[k] != '#' by {
        if k >= 9 {
            assert(l[k] == v[k - 9]);
        }
    }
    // The two lines of the text.
    assert forall|k: int| 0 <= k < h.len() implies h[k] != '\n' by {}
    lemma_split_tail(Seq::empty(), h, '\n');
    assert(Seq::<char>::empty() + h =~= h);
    assert(split_spec(Seq::empty(), '\n') =~= seq![Seq::<char>::empty()]);
    assert(Seq::<char>::empty() + h =~= h);
    assert(split_spec(h, '\n') =~= seq![h]);
    assert((h + seq!['\n']).drop_last() =~= h);
    assert(split_spec(h + seq!['\n'], '\n') =~= seq![h, Seq::<char>::empty()]);
    lemma_split_tail(h + seq!['\n'], l, '\n');
    assert(Seq::<char>::empty() + l =~= l);
    assert(split_spec(content, '\n') =~= seq![h, l]);
    let ls = lines_spec(content);
    assert(ls =~= seq![h, l]);
    // The header line.
    lemma_index_of_absent(h, '#', 0);
    assert(trim_start_spec(h) == h);
    assert(trim_spec(h) == h);
    assert(content_of(h) == h);
    assert(array_header(h) is None) by {
        assert(h.take(2)[1] != "[["@[1]);
    }
    assert(h.take(1) =~= "["@);
    assert(h.skip(1).skip(h.skip(1).len() - 1) =~= "]"@);
    assert(h.subrange(1, h.len() - 1) =~= "watch"@);
    assert(trim_start_spec("watch"@) == "watch"@);
    assert(table_header(h) == Some("watch"@));
    // The `ignore = v` line.
    lemma_index_of_absent(l, '#', 0);
    assert(before_hash(l) == l);
    assert(trim_start_spec(l) == l);
    assert(l.last() == v.last());
    assert(content_of(l) == l);
    assert(array_header(l) is None) by {
        assert(l.take(2)[0] != "[["@[0]);
    }
    assert(table_header(l) is None) by {
        assert(l.take(1)[0] != "["@[0]);
    }
    assert(index_of(l, '=') == Some(7nat)) by {
        reveal_with_fuel(index_of_from, 9);
    }
    let kpart = l.take(7);
    assert(trim_start_spec(kpart) == kpart);
    assert(kpart.drop_last() =~= "ignore"@);
    assert(trim_end_spec("ignore"@) == "ignore"@);
    assert(trim_end_spec(kpart) == "ignore"@);
    assert(trim_spec(kpart) == "ignore"@);
    let vpart = l.skip(8);
    assert(vpart.drop_first() =~= v);
    assert(trim_start_spec(v) == v);
    assert(trim_start_spec(vpart) == v);
    assert(trim_end_spec(v) == v);
    assert(trim_spec(vpart) == v);
    assert(collect_value_spec(v, ls, 2) == (v, 2nat));
    law_watch_keys(c, v);
    let c2 = ConfigView { watch: (WatchView { ignore: parse_string_array_spec(v), ..c.watch }), ..c };
    assert(merge_lines(c2, "watch"@, ls, 2) == (c2, Option::<Seq<char>>::None));
    assert(merge_lines(c, "watch"@, ls, 1) == (c2, Option::<Seq<char>>::None));
    assert(merge_lines(c, Seq::empty(), ls, 0) == (c2, Option::<Seq<char>>::None));
}

fn apply_value(config: &mut Config, section: &Vec<char>, key: &Vec<char>, value: &Vec<char>) -> (r: Result<(), ConfigError>)
    ensures
        applied(old(config)@, final(config)@, r, apply_value_spec(old(config)@, section@, key@, value@)),
{
    if section.len() == 0 {
        apply_top(config, key, value)
    } else if chars_eq_str(section, "watch") {
        apply_watch(config, key, value)
    } else if chars_eq_str(section, "run") {
        apply_run(config, key, value)
    } else if chars_eq_str(section, "tui") {
        apply_tui(config, key, value)
    } else if chars_eq_str(section, "api") {
        apply_api(config, key, value)
    } else if chars_eq_str(section, "ipc") {
        apply_ipc(config, key, value)
    } else if chars_eq_str(section, "event_hooks") {
        apply_hook(config, key, value);
        Ok(())
    } else {
        Ok(())
    }
}

fn content_line(line: &Vec<char>) -> (out: Vec<char>)
    ensures
        out@ == content_of(line@),
{
    match find_char(line, '#') {
        Some(k) => {
            let head = copy_chars(line, 0, k);
            assert(head@ == line@.take(k as int));
            trim_chars(&head)
        },
        None => trim_chars(line),
    }
}

fn array_header_of(line: &Vec<char>) -> (r: Option<Vec<char>>)
    ensures
        match r {
            Some(n) => array_header(line@) == Some(n@),
            None => array_header(line@) is None,
        },
{
    proof {
        reveal_strlit("[[");
        reveal_strlit("]]");
    }
    if chars_start_with(line, "[[") {
        let rest = copy_chars(line, 2, line.len());
        assert(rest@ == line@.skip(2));
        if chars_end_with(&rest, "]]") {
            let inner = copy_chars(line, 2, line.len() - 2);
            return Some(trim_chars(&inner));
        }
    }
    None
}

fn table_header_of(line: &Vec<char>) -> (r: Option<Vec<char>>)
    ensures
        match r {
            Some(n) => table_header(line@) == Some(n@),
            None => table_header(line@) is None,
        },
{
    proof {
        reveal_strlit("[");
        reveal_strlit("]");
    }
    if chars_start_with(line, "[") {
        let rest = copy_chars(line, 1, line.len());
        assert(rest@ == line@.skip(1));
        if chars_end_with(&rest, "]") {
            let inner = copy_chars(line, 1, line.len() - 1);
            return Some(trim_chars(&inner));
        }
    }
    None
}

fn collect_string_lines(value: Vec<char>, lines: &Vec<Vec<char>>, start: usize) -> (r: (Vec<char>, usize))
    requires
        start <= lines.len(),
    ensures
        (r.0@, r.1 as nat) == collect_string(value@, pieces_view(lines@), start as nat),
{
    let ghost ls = pieces_view(lines@);
    let mut acc = value;
    let mut j = start;
    while j < lines.len()
        invariant
            start <= j <= lines.len(),
            ls == pieces_view(lines@),
            collect_string(acc@, ls, j as nat) == collect_string(value@, ls, start as nat),
        decreases lines.len() - j,
    {
        let ghost prev = acc@;
        acc.push('\n');
        append_chars(&mut acc, &lines[j]);
        assert(ls[j as int] == lines@[j as int]@);
        assert(acc@ == prev + seq!['\n'] + ls[j as int]);
        let t = trim_end_ws(&lines[j]);
        if ends_with_triple(&t) {
            return (acc, j + 1);
        }
        j = j + 1;
    }
    (acc, j)
}

fn collect_array_lines(value: Vec<char>, lines: &Vec<Vec<char>>, start: usize) -> (r: (Vec<char>, usize))
    requires
        start <= lines.len(),
    ensures
        (r.0@, r.1 as nat) == collect_array(value@, pieces_view(lines@), start as nat),
{
    let ghost ls = pieces_view(lines@);
    let mut acc = value;
    let mut j = start;
    while j < lines.len()
        invariant
            start <= j <= lines.len(),
            ls == pieces_view(lines@),
            collect_array(acc@, ls, j as nat) == collect_array(value@, ls, start as nat),
        decreases lines.len() - j,
    {
        assert(ls[j as int] == lines@[j as int]@);
        let line = content_line(&lines[j]);
        let ghost prev = acc@;
        if line.len() > 0 {
            acc.push(' ');
            append_chars(&mut acc, &line);
            assert(acc@ == prev + seq![' '] + line@);
        }
        if chars_end_with(&line, "]") {
            return (acc, j + 1);
        }
        j = j + 1;
    }
    (acc, j)
}

fn collect_value(value: Vec<char>, lines: &Vec<Vec<char>>, start: usize) -> (r: (Vec<char>, usize))
    requires
        start <= lines.len(),
    ensures
        (r.0@, r.1 as nat) == collect_value_spec(value@, pieces_view(lines@), start as nat),
{
    let multiline = starts_with_triple(&value) && (value.len() == 3 || !ends_with_triple(&value));
    assert(multiline == opens_multiline(value@)) by {
        if value.len() == 3 && starts_with(value@, triple_quote()) {
            assert(value@ == value@.take(3));
        }
    }
    if multiline {
        collect_string_lines(value, lines, start)
    } else if chars_start_with(&value, "[") && !chars_end_with(&value, "]") {
        collect_array_lines(value, lines, start)
    } else {
        (value, start)
    }
}

/// Merges the supported TOML subset into a configuration. Lines are read in order; reading
/// stops at the first value that does not parse, and the lines before it stay applied.
pub fn merge_toml_subset(config: &mut Config, content: &str) -> (r: Result<(), ConfigError>)
    ensures
        final(config)@ == merge_toml_spec(old(config)@, content@).0,
        r is Ok <==> merge_toml_spec(old(config)@, content@).1 is None,
        r matches Err(e) ==> merge_toml_spec(old(config)@, content@).1 == Some(e@),
{
    let lines = lines_of(content);
    let ghost ls = pieces_view(lines@);
    let ghost start = config@;
    let mut section: Vec<char> = Vec::new();
    let mut i: usize = 0;
    while i < lines.len()
        invariant
            i <= lines.len(),
            ls == pieces_view(lines@),
            ls == lines_spec(content@),
            start == old(config)@,
            merge_lines(config@, section@, ls, i as nat) == merge_lines(start, Seq::empty(), ls, 0),
        decreases lines.len() - i,
    {
        assert(ls[i as int] == lines@[i as int]@);
        let line = content_line(&lines[i]);
        if line.len() == 0 {
            i = i + 1;
        } else if let Some(name) = array_header_of(&line) {
            proof {
                reveal_strlit("event_hooks");
            }
            if chars_eq_str(&name, "event_hooks") {
                let ghost before = config@;
                config.event_hooks.push(EventHookConfig::empty());
                assert(config@.event_hooks =~= before.event_hooks.push(empty_hook()));
            }
            section = name;
            i = i + 1;
        } else if let Some(name) = table_header_of(&line) {
            section = name;
            i = i + 1;
        } else if let Some(k) = find_char(&line, '=') {
            let head = copy_chars(&line, 0, k);
            let key = trim_chars(&head);
            let tail = copy_chars(&line, k + 1, line.len());
            let v = trim_chars(&tail);
            assert(head@ == line@.take(k as int));
            assert(tail@ == line@.skip(k + 1));
            let (value, next) = collect_value(v, &lines, i + 1);
            let ghost before = config@;
            proof {
                lemma_collect_bounds(v@, ls, (i + 1) as nat);
            }
            match apply_value(config, &section, &key, &value) {
                Ok(()) => {},
                Err(e) => {
                    assert(config@ == before);
                    assert(merge_lines(before, section@, ls, i as nat) == (before, Some(e@)));
                    return Err(e);
                },
            }
            i = next;
        } else {
            i = i + 1;
        }
    }
    Ok(())
}

} // verus!
