//! The starter configuration that `rumon init` writes, and where it goes.

use vstd::prelude::*;

use crate::config::loader::InitConfigResult;
use crate::text::{owned, push_str};

verus! {

/// Default Rumon configuration filename.
pub const DEFAULT_CONFIG_FILE: &'static str = "rumon.toml";

/// Basic starter configuration written by `rumon init`.
pub const BASIC_CONFIG_TEMPLATE: &'static str = r#"version = 1

[watch]
paths = ["."]
ignore = [".git", "target", "node_modules", "dist"]
extensions = []
debounce_ms = 500
recursive = true
follow_symlink = false

[run]
cmd = "cargo run"
cwd = "."
restart = true
restart_delay_ms = 300
kill_signal = "term"
clear_logs_on_restart = false

[tui]
left_panel_width = 50
show_timestamp = true
show_file_icons = true
auto_scroll_logs = true
max_log_lines = 5000

[api]
enabled = false
host = "127.0.0.1"
port = 3717
transport = ["http", "sse", "ws", "ipc"]
event_format = "json"
max_event_buffer = 1000

[ipc]
enabled = false
name = "rumon"
path = ""

# Example rule-based hook:
# [[event_hooks]]
# name = "rust source changed"
# events = ["file_created", "file_modified", "file_deleted"]
# paths = ["src/**/*.rs", "crates/**/*.rs"]
# when = "diff.added_lines + diff.removed_lines > 0"
# cmd = "cargo check"
"#;

/// A relative name joined to a directory (`Path::join`): a `/` goes between them unless the
/// directory is empty or already ends with one.
pub open spec fn join_spec(directory: Seq<char>, name: Seq<char>) -> Seq<char> {
    if directory.len() == 0 || directory.last() == '/' {
        directory + name
    } else {
        directory + "/"@ + name
    }
}

/// The path of the configuration file in a directory.
pub fn config_file_path(directory: &str) -> (p: String)
    ensures
        p@ == join_spec(directory@, DEFAULT_CONFIG_FILE@),
{
    let mut p = owned(directory);
    let n = directory.unicode_len();
    if n > 0 && directory.get_char(n - 1) != '/' {
        push_str(&mut p, "/");
    }
    push_str(&mut p, DEFAULT_CONFIG_FILE);
    p
}

/// What `rumon init` reports for a directory: the configuration file's path, and whether it
/// is written now, which it is unless a file is already there.
pub fn init_outcome(directory: &str, exists: bool) -> (r: InitConfigResult)
    ensures
        r.path@ == join_spec(directory@, DEFAULT_CONFIG_FILE@),
        r.created == !exists,
{
    InitConfigResult { path: config_file_path(directory), created: !exists }
}

} // verus!
