//! CLI argument parsing.

use vstd::prelude::*;

use crate::cli::commands::{CliCommand, CliCommandView, CliError, RemoteCommand, RemoteCommandView, WatchOutput};
use crate::config::schema::{CliOverrides, CliOverridesView, no_overrides};
use crate::diff::preview::{lemma_strings_view_push, strings_view};
use crate::text::{chars_of, eq_str, owned, parse_unsigned, parse_unsigned_spec, push_str};

verus! {

/// The items joined with `sep` between neighbours (`[String]::join`).
pub open spec fn join_spec(items: Seq<Seq<char>>, sep: Seq<char>) -> Seq<char>
    decreases items.len(),
{
    if items.len() == 0 {
        Seq::empty()
    } else if items.len() == 1 {
        items[0]
    } else {
        join_spec(items.drop_last(), sep) + sep + items.last()
    }
}

/// The error for an option given without its value.
pub open spec fn missing_value(option: Seq<char>) -> Seq<char> {
    "missing value for "@ + option
}

/// `--config` or `-c`.
pub open spec fn is_config_flag(a: Seq<char>) -> bool {
    a == "--config"@ || a == "-c"@
}

/// The `tui` subcommand from argument `i` on: only `--config` is known.
pub open spec fn parse_tui_spec(args: Seq<Seq<char>>, i: nat, o: CliOverridesView) -> Result<CliCommandView, Seq<char>>
    decreases args.len() - i,
{
    if i >= args.len() {
        Ok(CliCommandView::Tui(o))
    } else if is_config_flag(args[i as int]) {
        if i + 1 >= args.len() {
            Err(missing_value(args[i as int]))
        } else {
            parse_tui_spec(args, i + 2, CliOverridesView { config_path: Some(args[(i + 1) as int]), ..o })
        }
    } else {
        Err("unknown tui option: "@ + args[i as int])
    }
}

/// The `watch` subcommand from argument `i` on; the output format is NDJSON unless chosen.
pub open spec fn parse_watch_spec(
    args: Seq<Seq<char>>,
    i: nat,
    o: CliOverridesView,
    format: Option<WatchOutput>,
) -> Result<CliCommandView, Seq<char>>
    decreases args.len() - i,
{
    if i >= args.len() {
        Ok(
            CliCommandView::Watch {
                overrides: o,
                format: match format {
                    Some(f) => f,
                    None => WatchOutput::Ndjson,
                },
            },
        )
    } else {
        let a = args[i as int];
        if is_config_flag(a) {
            if i + 1 >= args.len() {
                Err(missing_value(a))
            } else {
                parse_watch_spec(args, i + 2, CliOverridesView { config_path: Some(args[(i + 1) as int]), ..o }, format)
            }
        } else if a == "--json"@ {
            parse_watch_spec(args, i + 1, o, Some(WatchOutput::Json))
        } else if a == "--ndjson"@ {
            parse_watch_spec(args, i + 1, o, Some(WatchOutput::Ndjson))
        } else if a == "--once"@ {
            parse_watch_spec(args, i + 1, CliOverridesView { once: true, ..o }, format)
        } else {
            Err("unknown watch option: "@ + a)
        }
    }
}

/// The `server` subcommand from argument `i` on.
pub open spec fn parse_server_spec(
    args: Seq<Seq<char>>,
    i: nat,
    o: CliOverridesView,
    host: Option<Seq<char>>,
    port: Option<u16>,
) -> Result<CliCommandView, Seq<char>>
    decreases args.len() - i,
{
    if i >= args.len() {
        Ok(CliCommandView::Server { overrides: o, host: host, port: port })
    } else {
        let a = args[i as int];
        if is_config_flag(a) || a == "--host"@ || a == "--port"@ {
            if i + 1 >= args.len() {
                Err(missing_value(a))
            } else {
                let v = args[(i + 1) as int];
                if is_config_flag(a) {
                    parse_server_spec(args, i + 2, CliOverridesView { config_path: Some(v), ..o }, host, port)
                } else if a == "--host"@ {
                    parse_server_spec(args, i + 2, o, Some(v), port)
                } else {
                    match parse_unsigned_spec(v, u16::MAX as nat) {
                        Some(n) => parse_server_spec(args, i + 2, o, host, Some(n as u16)),
                        None => Err("--port must be a number"@),
                    }
                }
            }
        } else {
            Err("unknown server option: "@ + a)
        }
    }
}

/// The `daemon` subcommand from argument `i` on.
pub open spec fn parse_daemon_spec(args: Seq<Seq<char>>, i: nat, o: CliOverridesView, ipc: bool) -> Result<CliCommandView, Seq<char>>
    decreases args.len() - i,
{
    if i >= args.len() {
        Ok(CliCommandView::Daemon { overrides: o, ipc: ipc })
    } else {
        let a = args[i as int];
        if is_config_flag(a) {
            if i + 1 >= args.len() {
                Err(missing_value(a))
            } else {
                parse_daemon_spec(args, i + 2, CliOverridesView { config_path: Some(args[(i + 1) as int]), ..o }, ipc)
            }
        } else if a == "--ipc"@ {
            parse_daemon_spec(args, i + 1, o, true)
        } else {
            Err("unknown daemon option: "@ + a)
        }
    }
}

/// The `init` subcommand: it takes no arguments.
pub open spec fn parse_init_spec(args: Seq<Seq<char>>, i: nat) -> Result<CliCommandView, Seq<char>> {
    if i < args.len() {
        Err("unexpected init argument: "@ + args[i as int])
    } else {
        Ok(CliCommandView::Init)
    }
}

/// The error for a missing or unknown remote subcommand.
pub open spec fn remote_subcommand_error() -> Seq<char> {
    "expected remote subcommand: agent or connect"@
}

/// The options of the `remote` subcommand `sub`, from argument `i` on. The token is
/// required; the subcommand is checked last.
pub open spec fn parse_remote_options(
    args: Seq<Seq<char>>,
    sub: Seq<char>,
    i: nat,
    address: Seq<char>,
    node: Seq<char>,
    token: Seq<char>,
) -> Result<CliCommandView, Seq<char>>
    decreases args.len() - i,
{
    if i >= args.len() {
        if token.len() == 0 {
            Err("remote --token is required"@)
        } else if sub == "agent"@ {
            Ok(CliCommandView::Remote(RemoteCommandView::Agent { address, node, token }))
        } else if sub == "connect"@ {
            Ok(CliCommandView::Remote(RemoteCommandView::Connect { address, node, token }))
        } else {
            Err(remote_subcommand_error())
        }
    } else {
        let a = args[i as int];
        if a == "--addr"@ || a == "--address"@ || a == "--node"@ || a == "--token"@ {
            if i + 1 >= args.len() {
                Err(missing_value(a))
            } else {
                let v = args[(i + 1) as int];
                if a == "--node"@ {
                    parse_remote_options(args, sub, i + 2, address, v, token)
                } else if a == "--token"@ {
                    parse_remote_options(args, sub, i + 2, address, node, v)
                } else {
                    parse_remote_options(args, sub, i + 2, v, node, token)
                }
            }
        } else {
            Err("unknown remote option: "@ + a)
        }
    }
}

/// The `remote` subcommand from argument `i` on.
pub open spec fn parse_remote_spec(args: Seq<Seq<char>>, i: nat) -> Result<CliCommandView, Seq<char>> {
    if i >= args.len() {
        Err(remote_subcommand_error())
    } else {
        parse_remote_options(args, args[i as int], i + 1, "127.0.0.1:4040"@, "local"@, Seq::empty())
    }
}

/// Options that take a value and set an override.
pub open spec fn is_value_option(a: Seq<char>) -> bool {
    ||| is_config_flag(a)
    ||| a == "--watch"@
    ||| a == "-w"@
    ||| a == "--ignore"@
    ||| a == "-i"@
    ||| a == "--ext"@
    ||| a == "-e"@
    ||| a == "--cmd"@
    ||| a == "--cwd"@
    ||| a == "--debounce"@
}

/// The overrides after value option `a` with value `v`, or the error it gives.
pub open spec fn apply_value_option(o: CliOverridesView, a: Seq<char>, v: Seq<char>) -> Result<CliOverridesView, Seq<char>> {
    if is_config_flag(a) {
        Ok(CliOverridesView { config_path: Some(v), ..o })
    } else if a == "--watch"@ || a == "-w"@ {
        Ok(CliOverridesView { watch_paths: o.watch_paths.push(v), ..o })
    } else if a == "--ignore"@ || a == "-i"@ {
        Ok(CliOverridesView { ignore_paths: o.ignore_paths.push(v), ..o })
    } else if a == "--ext"@ || a == "-e"@ {
        Ok(CliOverridesView { extensions: o.extensions.push(v), ..o })
    } else if a == "--cmd"@ {
        Ok(CliOverridesView { command: Some(v), ..o })
    } else if a == "--cwd"@ {
        Ok(CliOverridesView { cwd: Some(v), ..o })
    } else {
        match parse_unsigned_spec(v, u64::MAX as nat) {
            Some(n) => Ok(CliOverridesView { debounce_ms: Some(n as u64), ..o }),
            None => Err("--debounce must be a number"@),
        }
    }
}

/// Flags that switch an override on.
pub open spec fn is_flag(a: Seq<char>) -> bool {
    ||| a == "--no-tui"@
    ||| a == "--clear"@
    ||| a == "--once"@
    ||| a == "--no-restart"@
    ||| a == "--verbose"@
    ||| a == "-v"@
    ||| a == "--quiet"@
    ||| a == "-q"@
}

/// The overrides after flag `a`.
pub open spec fn apply_flag(o: CliOverridesView, a: Seq<char>) -> CliOverridesView {
    if a == "--no-tui"@ {
        CliOverridesView { no_tui: true, ..o }
    } else if a == "--clear"@ {
        CliOverridesView { clear_logs: true, ..o }
    } else if a == "--once"@ {
        CliOverridesView { once: true, ..o }
    } else if a == "--no-restart"@ {
        CliOverridesView { no_restart: true, ..o }
    } else if a == "--verbose"@ || a == "-v"@ {
        CliOverridesView { verbose: true, ..o }
    } else {
        CliOverridesView { quiet: true, ..o }
    }
}

/// The top-level arguments from `i` on, with overrides `o` gathered so far. Help and version
/// win at once; a subcommand name hands the rest to that subcommand; `--` takes every
/// remaining argument, joined by spaces, as the command.
pub open spec fn parse_main(args: Seq<Seq<char>>, i: nat, o: CliOverridesView) -> Result<CliCommandView, Seq<char>>
    decreases args.len() - i,
{
    if i >= args.len() {
        Ok(CliCommandView::Run(o))
    } else {
        let a = args[i as int];
        if a == "--help"@ || a == "-h"@ {
            Ok(CliCommandView::Help)
        } else if a == "--version"@ || a == "-V"@ {
            Ok(CliCommandView::Version)
        } else if a == "init"@ {
            parse_init_spec(args, i + 1)
        } else if a == "tui"@ {
            parse_tui_spec(args, i + 1, no_overrides())
        } else if a == "watch"@ {
            parse_watch_spec(args, i + 1, no_overrides(), None)
        } else if a == "server"@ {
            parse_server_spec(args, i + 1, no_overrides(), None, None)
        } else if a == "daemon"@ {
            parse_daemon_spec(args, i + 1, no_overrides(), false)
        } else if a == "remote"@ {
            parse_remote_spec(args, i + 1)
        } else if is_value_option(a) {
            if i + 1 >= args.len() {
                Err(missing_value(a))
            } else {
                match apply_value_option(o, a, args[(i + 1) as int]) {
                    Ok(o2) => parse_main(args, i + 2, o2),
                    Err(m) => Err(m),
                }
            }
        } else if is_flag(a) {
            parse_main(args, i + 1, apply_flag(o, a))
        } else if a == "--"@ {
            if i + 1 >= args.len() {
                Err("expected command after --"@)
            } else {
                Ok(CliCommandView::Run(CliOverridesView { command: Some(join_spec(args.skip((i + 1) as int), " "@)), ..o }))
            }
        } else if a.len() > 0 && a[0] == '-' {
            Err("unknown option: "@ + a)
        } else {
            Err("unexpected argument before --: "@ + a)
        }
    }
}

/// What parsing the arguments gives.
pub open spec fn parse_args_spec(args: Seq<Seq<char>>) -> Result<CliCommandView, Seq<char>> {
    parse_main(args, 0, no_overrides())
}

/// Asking for help first gives help, whatever follows.
pub proof fn law_help_first(rest: Seq<Seq<char>>)
    ensures
        parse_args_spec(seq!["--help"@] + rest) == Ok::<CliCommandView, Seq<char>>(CliCommandView::Help),
{
    let args = seq!["--help"@] + rest;
    assert(args[0] == "--help"@);
}

/// Everything after `--` is the command, joined by spaces, taken as it stands.
pub proof fn law_separator_takes_rest(command: Seq<Seq<char>>)
    requires
        command.len() > 0,
    ensures
        parse_args_spec(seq!["--"@] + command) == Ok::<CliCommandView, Seq<char>>(
            CliCommandView::Run(CliOverridesView { command: Some(join_spec(command, " "@)), ..no_overrides() }),
        ),
{
    let args = seq!["--"@] + command;
    assert(args[0] == "--"@);
    assert(args.skip(1) =~= command);
    reveal_strlit("--");
    reveal_strlit("--help");
    reveal_strlit("-h");
    reveal_strlit("--version");
    reveal_strlit("-V");
    reveal_strlit("init");
    reveal_strlit("tui");
    reveal_strlit("watch");
    reveal_strlit("server");
    reveal_strlit("daemon");
    reveal_strlit("remote");
    reveal_strlit("--config");
    reveal_strlit("-c");
    reveal_strlit("--watch");
    reveal_strlit("-w");
    reveal_strlit("--ignore");
    reveal_strlit("-i");
    reveal_strlit("--ext");
    reveal_strlit("-e");
    reveal_strlit("--cmd");
    reveal_strlit("--cwd");
    reveal_strlit("--debounce");
    reveal_strlit("--no-tui");
    reveal_strlit("--clear");
    reveal_strlit("--once");
    reveal_strlit("--no-restart");
    reveal_strlit("--verbose");
    reveal_strlit("-v");
    reveal_strlit("--quiet");
    reveal_strlit("-q");
    assert("--"@.len() != "--help"@.len());
    assert("--"@[1] != "-h"@[1]);
    assert("--"@.len() != "--version"@.len());
    assert("--"@[1] != "-V"@[1]);
    assert("--"@.len() != "init"@.len());
    assert("--"@.len() != "tui"@.len());
    assert("--"@.len() != "watch"@.len());
    assert("--"@.len() != "server"@.len());
    assert("--"@.len() != "daemon"@.len());
    assert("--"@.len() != "remote"@.len());
    assert("--"@.len() != "--config"@.len());
    assert("--"@[1] != "-c"@[1]);
    assert("--"@.len() != "--watch"@.len());
    assert("--"@[1] != "-w"@[1]);
    assert("--"@.len() != "--ignore"@.len());
    assert("--"@[1] != "-i"@[1]);
    assert("--"@.len() != "--ext"@.len());
    assert("--"@[1] != "-e"@[1]);
    assert("--"@.len() != "--cmd"@.len());
    assert("--"@.len() != "--cwd"@.len());
    assert("--"@.len() != "--debounce"@.len());
    assert("--"@.len() != "--no-tui"@.len());
    assert("--"@.len() != "--clear"@.len());
    assert("--"@.len() != "--once"@.len());
    assert("--"@.len() != "--no-restart"@.len());
    assert("--"@.len() != "--verbose"@.len());
    assert("--"@[1] != "-v"@[1]);
    assert("--"@.len() != "--quiet"@.len());
    assert("--"@[1] != "-q"@[1]);
}

/// The first characters of the words that the start of `server --host h --port p` is told
/// apart from.
proof fn lemma_server_words()
    ensures
        "server"@.len() == 6 && "server"@[0] == 's',
        "--help"@.len() == 6 && "--help"@[0] == '-',
        "-h"@.len() == 2,
        "--version"@.len() == 9,
        "-V"@.len() == 2,
        "init"@.len() == 4,
        "tui"@.len() == 3,
        "watch"@.len() == 5,
        "--config"@.len() == 8,
        "-c"@.len() == 2,
        "--host"@.len() == 6 && "--host"@[2] == 'h',
        "--port"@.len() == 6 && "--port"@[2] == 'p',
{
    reveal_strlit("server");
    reveal_strlit("--help");
    reveal_strlit("-h");
    reveal_strlit("--version");
    reveal_strlit("-V");
    reveal_strlit("init");
    reveal_strlit("tui");
    reveal_strlit("watch");
    reveal_strlit("--config");
    reveal_strlit("-c");
    reveal_strlit("--host");
    reveal_strlit("--port");
}

/// A host given to `server` with `--host` is the host of the command, alone or before a
/// port that reads as a number; nothing else of the command changes.
pub proof fn law_server_keeps_host(h: Seq<char>, p: Seq<char>)
    ensures
        parse_args_spec(seq!["server"@, "--host"@, h]) == Ok::<CliCommandView, Seq<char>>(
            CliCommandView::Server { overrides: no_overrides(), host: Some(h), port: None },
        ),
        parse_unsigned_spec(p, u16::MAX as nat) matches Some(n) ==> parse_args_spec(
            seq!["server"@, "--host"@, h, "--port"@, p],
        ) == Ok::<CliCommandView, Seq<char>>(
            CliCommandView::Server { overrides: no_overrides(), host: Some(h), port: Some(n as u16) },
        ),
{
    lemma_server_words();
    let a1 = seq!["server"@, "--host"@, h];
    assert(a1[0] == "server"@ && a1[1] == "--host"@ && a1[2] == h);
    assert(parse_server_spec(a1, 3, no_overrides(), Some(h), None) == Ok::<CliCommandView, Seq<char>>(
        CliCommandView::Server { overrides: no_overrides(), host: Some(h), port: None },
    ));
    let a2 = seq!["server"@, "--host"@, h, "--port"@, p];
    assert(a2[0] == "server"@ && a2[1] == "--host"@ && a2[2] == h && a2[3] == "--port"@ && a2[4] == p);
    if let Some(n) = parse_unsigned_spec(p, u16::MAX as nat) {
        assert(parse_server_spec(a2, 5, no_overrides(), Some(h), Some(n as u16)) == Ok::<CliCommandView, Seq<char>>(
            CliCommandView::Server { overrides: no_overrides(), host: Some(h), port: Some(n as u16) },
        ));
        assert(parse_server_spec(a2, 3, no_overrides(), Some(h), None) == parse_server_spec(a2, 5, no_overrides(), Some(h), Some(n as u16)));
    }
}

/// Whether `r` is the result that `expected` describes.
pub open spec fn parsed_as(r: Result<CliCommand, CliError>, expected: Result<CliCommandView, Seq<char>>) -> bool {
    match expected {
        Ok(c) => r matches Ok(x) && x@ == c,
        Err(m) => r matches Err(e) && e@ == m,
    }
}

fn error_with(prefix: &str, s: &str) -> (e: CliError)
    ensures
        e@ == prefix@ + s@,
{
    let mut m = owned(prefix);
    push_str(&mut m, s);
    CliError::new(m)
}

fn missing_value_error(option: &String) -> (e: CliError)
    ensures
        e@ == missing_value(option@),
{
    error_with("missing value for ", option.as_str())
}

fn is_config_arg(a: &String) -> (b: bool)
    ensures
        b == is_config_flag(a@),
{
    eq_str(a.as_str(), "--config") || eq_str(a.as_str(), "-c")
}

fn parse_tui_command(args: &Vec<String>, start: usize) -> (r: Result<CliCommand, CliError>)
    requires
        start <= args.len(),
    ensures
        parsed_as(r, parse_tui_spec(strings_view(args@), start as nat, no_overrides())),
{
    let ghost sv = strings_view(args@);
    let mut overrides = CliOverrides::default();
    let mut i = start;
    while i < args.len()
        invariant
            start <= i <= args.len(),
            sv == strings_view(args@),
            parse_tui_spec(sv, i as nat, overrides@) == parse_tui_spec(sv, start as nat, no_overrides()),
        decreases args.len() - i,
    {
        assert(sv[i as int] == args@[i as int]@);
        if is_config_arg(&args[i]) {
            if i + 1 >= args.len() {
                return Err(missing_value_error(&args[i]));
            }
            assert(sv[i + 1] == args@[i + 1]@);
            overrides.config_path = Some(args[i + 1].clone());
            i = i + 2;
        } else {
            return Err(error_with("unknown tui option: ", args[i].as_str()));
        }
    }
    Ok(CliCommand::Tui(overrides))
}

fn parse_watch_command(args: &Vec<String>, start: usize) -> (r: Result<CliCommand, CliError>)
    requires
        start <= args.len(),
    ensures
        parsed_as(r, parse_watch_spec(strings_view(args@), start as nat, no_overrides(), None)),
{
    let ghost sv = strings_view(args@);
    let mut overrides = CliOverrides::default();
    let mut format: Option<WatchOutput> = None;
    let mut i = start;
    while i < args.len()
        invariant
            start <= i <= args.len(),
            sv == strings_view(args@),
            parse_watch_spec(sv, i as nat, overrides@, format) == parse_watch_spec(
                sv,
                start as nat,
                no_overrides(),
                None,
            ),
        decreases args.len() - i,
    {
        assert(sv[i as int] == args@[i as int]@);
        let a = args[i].as_str();
        if is_config_arg(&args[i]) {
            if i + 1 >= args.len() {
                return Err(missing_value_error(&args[i]));
            }
            assert(sv[i + 1] == args@[i + 1]@);
            overrides.config_path = Some(args[i + 1].clone());
            i = i + 2;
        } else if eq_str(a, "--json") {
            format = Some(WatchOutput::Json);
            i = i + 1;
        } else if eq_str(a, "--ndjson") {
            format = Some(WatchOutput::Ndjson);
            i = i + 1;
        } else if eq_str(a, "--once") {
            overrides.once = true;
            i = i + 1;
        } else {
            return Err(error_with("unknown watch option: ", a));
        }
    }
    let format = match format {
        Some(f) => f,
        None => WatchOutput::Ndjson,
    };
    Ok(CliCommand::Watch { overrides, format })
}

fn parse_server_command(args: &Vec<String>, start: usize) -> (r: Result<CliCommand, CliError>)
    requires
        start <= args.len(),
    ensures
        parsed_as(r, parse_server_spec(strings_view(args@), start as nat, no_overrides(), None, None)),
{
    let ghost sv = strings_view(args@);
    let mut overrides = CliOverrides::default();
    let mut host: Option<String> = None;
    let mut port: Option<u16> = None;
    let mut i = start;
    while i < args.len()
        invariant
            start <= i <= args.len(),
            sv == strings_view(args@),
            parse_server_spec(sv, i as nat, overrides@, crate::config::schema::opt_view(host), port)
                == parse_server_spec(sv, start as nat, no_overrides(), None, None),
        decreases args.len() - i,
    {
        assert(sv[i as int] == args@[i as int]@);
        let a = args[i].as_str();
        let config = is_config_arg(&args[i]);
        if config || eq_str(a, "--host") || eq_str(a, "--port") {
            if i + 1 >= args.len() {
                return Err(missing_value_error(&args[i]));
            }
            assert(sv[i + 1] == args@[i + 1]@);
            if config {
                overrides.config_path = Some(args[i + 1].clone());
            } else if eq_str(a, "--host") {
                host = Some(args[i + 1].clone());
            } else {
                match parse_unsigned(&chars_of(args[i + 1].as_str()), 0xffff) {
                    Some(n) => {
                        port = Some(n as u16);
                    },
                    None => {
                        return Err(CliError::new(owned("--port must be a number")));
                    },
                }
            }
            i = i + 2;
        } else {
            return Err(error_with("unknown server option: ", a));
        }
    }
    Ok(CliCommand::Server { overrides, host, port })
}

fn parse_daemon_command(args: &Vec<String>, start: usize) -> (r: Result<CliCommand, CliError>)
    requires
        start <= args.len(),
    ensures
        parsed_as(r, parse_daemon_spec(strings_view(args@), start as nat, no_overrides(), false)),
{
    let ghost sv = strings_view(args@);
    let mut overrides = CliOverrides::default();
    let mut ipc = false;
    let mut i = start;
    while i < args.len()
        invariant
            start <= i <= args.len(),
            sv == strings_view(args@),
            parse_daemon_spec(sv, i as nat, overrides@, ipc) == parse_daemon_spec(
                sv,
                start as nat,
                no_overrides(),
                false,
            ),
        decreases args.len() - i,
    {
        assert(sv[i as int] == args@[i as int]@);
        if is_config_arg(&args[i]) {
            if i + 1 >= args.len() {
                return Err(missing_value_error(&args[i]));
            }
            assert(sv[i + 1] == args@[i + 1]@);
            overrides.config_path = Some(args[i + 1].clone());
            i = i + 2;
        } else if eq_str(args[i].as_str(), "--ipc") {
            ipc = true;
            i = i + 1;
        } else {
            return Err(error_with("unknown daemon option: ", args[i].as_str()));
        }
    }
    Ok(CliCommand::Daemon { overrides, ipc })
}

fn parse_init_command(args: &Vec<String>, start: usize) -> (r: Result<CliCommand, CliError>)
    requires
        start <= args.len(),
    ensures
        parsed_as(r, parse_init_spec(strings_view(args@), start as nat)),
{
    if start < args.len() {
        assert(strings_view(args@)[start as int] == args@[start as int]@);
        return Err(error_with("unexpected init argument: ", args[start].as_str()));
    }
    Ok(CliCommand::Init)
}

fn parse_remote_command(args: &Vec<String>, start: usize) -> (r: Result<CliCommand, CliError>)
    requires
        start <= args.len(),
    ensures
        parsed_as(r, parse_remote_spec(strings_view(args@), start as nat)),
{
    let ghost sv = strings_view(args@);
    if start >= args.len() {
        return Err(CliError::new(owned("expected remote subcommand: agent or connect")));
    }
    assert(sv[start as int] == args@[start as int]@);
    let subcommand = &args[start];
    let mut address = owned("127.0.0.1:4040");
    let mut node = owned("local");
    let mut token = String::new();
    let mut i = start + 1;
    while i < args.len()
        invariant
            start < i <= args.len(),
            sv == strings_view(args@),
            subcommand@ == sv[start as int],
            parse_remote_options(sv, subcommand@, i as nat, address@, node@, token@)
                == parse_remote_spec(sv, start as nat),
        decreases args.len() - i,
    {
        assert(sv[i as int] == args@[i as int]@);
        let a = args[i].as_str();
        let is_addr = eq_str(a, "--addr") || eq_str(a, "--address");
        if is_addr || eq_str(a, "--node") || eq_str(a, "--token") {
            if i + 1 >= args.len() {
                return Err(missing_value_error(&args[i]));
            }
            assert(sv[i + 1] == args@[i + 1]@);
            let value = args[i + 1].clone();
            if eq_str(a, "--node") {
                node = value;
            } else if eq_str(a, "--token") {
                token = value;
            } else {
                address = value;
            }
            i = i + 2;
        } else {
            return Err(error_with("unknown remote option: ", a));
        }
    }
    if token.as_str().is_empty() {
        return Err(CliError::new(owned("remote --token is required")));
    }
    if eq_str(subcommand.as_str(), "agent") {
        Ok(CliCommand::Remote(RemoteCommand::Agent { address, node, token }))
    } else if eq_str(subcommand.as_str(), "connect") {
        Ok(CliCommand::Remote(RemoteCommand::Connect { address, node, token }))
    } else {
        Err(CliError::new(owned("expected remote subcommand: agent or connect")))
    }
}

fn join_args(args: &Vec<String>, start: usize) -> (s: String)
    requires
        start <= args.len(),
    ensures
        s@ == join_spec(strings_view(args@).skip(start as int), " "@),
{
    let ghost sv = strings_view(args@);
    let mut s = String::new();
    let mut i = start;
    while i < args.len()
        invariant
            start <= i <= args.len(),
            sv == strings_view(args@),
            s@ == join_spec(sv.subrange(start as int, i as int), " "@),
        decreases args.len() - i,
    {
        assert(sv.subrange(start as int, i + 1).drop_last() == sv.subrange(start as int, i as int));
        assert(sv[i as int] == args@[i as int]@);
        if i > start {
            push_str(&mut s, " ");
        } else {
            assert(sv.subrange(start as int, i as int).len() == 0);
        }
        push_str(&mut s, args[i].as_str());
        i = i + 1;
    }
    assert(sv.subrange(start as int, args.len() as int) == sv.skip(start as int));
    s
}

fn apply_value_arg(overrides: &mut CliOverrides, a: &String, v: &String) -> (r: Result<(), CliError>)
    requires
        is_value_option(a@),
    ensures
        match apply_value_option(old(overrides)@, a@, v@) {
            Ok(o) => r is Ok && final(overrides)@ == o,
            Err(m) => r matches Err(e) && e@ == m,
        },
{
    let s = a.as_str();
    if is_config_arg(a) {
        overrides.config_path = Some(v.clone());
    } else if eq_str(s, "--watch") || eq_str(s, "-w") {
        let ghost prev = overrides.watch_paths@;
        overrides.watch_paths.push(v.clone());
        proof {
            lemma_strings_view_push(prev, *v);
        }
    } else if eq_str(s, "--ignore") || eq_str(s, "-i") {
        let ghost prev = overrides.ignore_paths@;
        overrides.ignore_paths.push(v.clone());
        proof {
            lemma_strings_view_push(prev, *v);
        }
    } else if eq_str(s, "--ext") || eq_str(s, "-e") {
        let ghost prev = overrides.extensions@;
        overrides.extensions.push(v.clone());
        proof {
            lemma_strings_view_push(prev, *v);
        }
    } else if eq_str(s, "--cmd") {
        overrides.command = Some(v.clone());
    } else if eq_str(s, "--cwd") {
        overrides.cwd = Some(v.clone());
    } else {
        match parse_unsigned(&chars_of(v.as_str()), 0xffff_ffff_ffff_ffff) {
            Some(n) => {
                overrides.debounce_ms = Some(n);
            },
            None => {
                return Err(CliError::new(owned("--debounce must be a number")));
            },
        }
    }
    Ok(())
}

fn is_value_arg(a: &String) -> (b: bool)
    ensures
        b == is_value_option(a@),
{
    let s = a.as_str();
    is_config_arg(a) || eq_str(s, "--watch") || eq_str(s, "-w") || eq_str(s, "--ignore") || eq_str(
        s,
        "-i",
    ) || eq_str(s, "--ext") || eq_str(s, "-e") || eq_str(s, "--cmd") || eq_str(s, "--cwd")
        || eq_str(s, "--debounce")
}

fn is_flag_arg(a: &String) -> (b: bool)
    ensures
        b == is_flag(a@),
{
    let s = a.as_str();
    eq_str(s, "--no-tui") || eq_str(s, "--clear") || eq_str(s, "--once") || eq_str(s, "--no-restart")
        || eq_str(s, "--verbose") || eq_str(s, "-v") || eq_str(s, "--quiet") || eq_str(s, "-q")
}

fn apply_flag_arg(overrides: &mut CliOverrides, a: &String)
    requires
        is_flag(a@),
    ensures
        final(overrides)@ == apply_flag(old(overrides)@, a@),
{
    let s = a.as_str();
    if eq_str(s, "--no-tui") {
        overrides.no_tui = true;
    } else if eq_str(s, "--clear") {
        overrides.clear_logs = true;
    } else if eq_str(s, "--once") {
        overrides.once = true;
    } else if eq_str(s, "--no-restart") {
        overrides.no_restart = true;
    } else if eq_str(s, "--verbose") || eq_str(s, "-v") {
        overrides.verbose = true;
    } else {
        overrides.quiet = true;
    }
}

fn subcommand(args: &Vec<String>, i: usize) -> (r: Option<Result<CliCommand, CliError>>)
    requires
        i < args.len(),
    ensures
        ({
            let sv = strings_view(args@);
            let a = sv[i as int];
            match r {
                Some(x) => parsed_as(x, parse_main(sv, i as nat, no_overrides())) && (a == "--help"@
                    || a == "-h"@ || a == "--version"@ || a == "-V"@ || a == "init"@ || a == "tui"@
                    || a == "watch"@ || a == "server"@ || a == "daemon"@ || a == "remote"@),
                None => !(a == "--help"@ || a == "-h"@ || a == "--version"@ || a == "-V"@ || a
                    == "init"@ || a == "tui"@ || a == "watch"@ || a == "server"@ || a == "daemon"@
                    || a == "remote"@),
            }
        }),
{
    assert(strings_view(args@)[i as int] == args@[i as int]@);
    let a = args[i].as_str();
    if eq_str(a, "--help") || eq_str(a, "-h") {
        Some(Ok(CliCommand::Help))
    } else if eq_str(a, "--version") || eq_str(a, "-V") {
        Some(Ok(CliCommand::Version))
    } else if eq_str(a, "init") {
        Some(parse_init_command(args, i + 1))
    } else if eq_str(a, "tui") {
        Some(parse_tui_command(args, i + 1))
    } else if eq_str(a, "watch") {
        Some(parse_watch_command(args, i + 1))
    } else if eq_str(a, "server") {
        Some(parse_server_command(args, i + 1))
    } else if eq_str(a, "daemon") {
        Some(parse_daemon_command(args, i + 1))
    } else if eq_str(a, "remote") {
        Some(parse_remote_command(args, i + 1))
    } else {
        None
    }
}

/// Parses Rumon CLI arguments. Fails when an option is unknown, an option value is missing
/// or malformed, or a command separator is present without a following command.
pub fn parse_args(args: Vec<String>) -> (r: Result<CliCommand, CliError>)
    ensures
        parsed_as(r, parse_args_spec(strings_view(args@))),
{
    let ghost sv = strings_view(args@);
    let mut overrides = CliOverrides::default();
    let mut i: usize = 0;
    while i < args.len()
        invariant
            i <= args.len(),
            sv == strings_view(args@),
            parse_main(sv, i as nat, overrides@) == parse_main(sv, 0, no_overrides()),
        decreases args.len() - i,
    {
        assert(sv[i as int] == args@[i as int]@);
        if let Some(r) = subcommand(&args, i) {
            return r;
        }
        let arg = &args[i];
        if is_value_arg(arg) {
            if i + 1 >= args.len() {
                return Err(missing_value_error(arg));
            }
            assert(sv[i + 1] == args@[i + 1]@);
            apply_value_arg(&mut overrides, arg, &args[i + 1])?;
            i = i + 2;
        } else if is_flag_arg(arg) {
            apply_flag_arg(&mut overrides, arg);
            i = i + 1;
        } else if eq_str(arg.as_str(), "--") {
            if i + 1 >= args.len() {
                return Err(CliError::new(owned("expected command after --")));
            }
            overrides.command = Some(join_args(&args, i + 1));
            return Ok(CliCommand::Run(overrides));
        } else if starts_with_dash(arg) {
            return Err(error_with("unknown option: ", arg.as_str()));
        } else {
            return Err(error_with("unexpected argument before --: ", arg.as_str()));
        }
    }
    Ok(CliCommand::Run(overrides))
}

fn starts_with_dash(a: &String) -> (b: bool)
    ensures
        b == (a@.len() > 0 && a@[0] == '-'),
{
    let chars = chars_of(a.as_str());
    chars.len() > 0 && chars[0] == '-'
}

} // verus!
