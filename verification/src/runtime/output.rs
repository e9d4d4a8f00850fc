//! Plain terminal output, runtime errors, exit codes, and the decisions of the machine-readable
//! modes.

use vstd::prelude::*;

use crate::config::schema::opt_view;
use crate::shared::{ChangeKind, FileChange, FileChangeView};
use crate::text::{eq_str, owned, push_signed, push_str, signed_decimal};

verus! {

/// Runtime error produced by the core orchestrator.
#[derive(Debug)]
pub struct CoreError {
    message: String,
}

impl View for CoreError {
    type V = Seq<char>;

    closed spec fn view(&self) -> Seq<char> {
        self.message@
    }
}

impl CoreError {
    /// Creates a core runtime error.
    pub fn new(message: String) -> (e: Self)
        ensures
            e@ == message@,
    {
        CoreError { message }
    }

    /// The error message.
    pub fn message(&self) -> (m: String)
        ensures
            m@ == self@,
    {
        self.message.clone()
    }
}

/// Returns a short startup message used by tests and diagnostics.
pub fn startup_message() -> (s: &'static str)
    ensures
        s@ == "Rumon core runtime ready"@,
{
    "Rumon core runtime ready"
}

/// A process exit code as a `u8`: codes outside `0..=255` become 1.
pub fn exit_code_to_u8(code: i32) -> (r: u8)
    ensures
        0 <= code <= 255 ==> r == code,
        !(0 <= code <= 255) ==> r == 1,
{
    if 0 <= code && code <= 255 {
        code as u8
    } else {
        1
    }
}

/// Terminal colors.
#[derive(Clone, Copy, Debug, PartialEq, Eq, Structural)]
pub enum Color {
    /// Bright text.
    Text,
    /// Muted text.
    Muted,
    /// Red.
    Red,
    /// Green.
    Green,
    /// Yellow.
    Yellow,
    /// Magenta.
    Magenta,
    /// Cyan.
    Cyan,
}

/// The ANSI code of a color.
pub open spec fn color_code(c: Color) -> Seq<char> {
    match c {
        Color::Text => "97"@,
        Color::Muted => "90"@,
        Color::Red => "91"@,
        Color::Green => "92"@,
        Color::Yellow => "93"@,
        Color::Magenta => "95"@,
        Color::Cyan => "96"@,
    }
}

/// A value wrapped in the ANSI escapes of a color and a reset.
pub open spec fn painted(c: Color, value: Seq<char>) -> Seq<char> {
    "\x1b["@ + color_code(c) + "m"@ + value + "\x1b[0m"@
}

/// Wraps a value in ANSI color escapes.
pub fn paint(color: Color, value: &str) -> (s: String)
    ensures
        s@ == painted(color, value@),
{
    let code = match color {
        Color::Text => "97",
        Color::Muted => "90",
        Color::Red => "91",
        Color::Green => "92",
        Color::Yellow => "93",
        Color::Magenta => "95",
        Color::Cyan => "96",
    };
    let mut s = owned("\x1b[");
    push_str(&mut s, code);
    push_str(&mut s, "m");
    push_str(&mut s, value);
    push_str(&mut s, "\x1b[0m");
    s
}

/// The icon, label and color of a change kind.
pub open spec fn kind_style(k: ChangeKind) -> (Seq<char>, Seq<char>, Color) {
    match k {
        ChangeKind::Created => ("✚"@, "path created"@, Color::Green),
        ChangeKind::Modified => ("●"@, "path modified"@, Color::Yellow),
        ChangeKind::Deleted => ("✕"@, "path deleted"@, Color::Red),
        ChangeKind::Renamed => ("↻"@, "path renamed"@, Color::Magenta),
    }
}

/// The line printed for a change: the colored icon and label, then the old path and an arrow
/// for a rename, and the path.
pub open spec fn watch_change_line(c: FileChangeView) -> Seq<char> {
    let (icon, label, color) = kind_style(c.kind);
    let headline = painted(color, icon) + " "@ + painted(color, label);
    match c.previous_path {
        Some(pp) => headline + "  "@ + painted(Color::Muted, pp) + " "@ + painted(Color::Muted, "→"@) + " "@
            + painted(Color::Text, c.path),
        None => headline + "  "@ + painted(Color::Text, c.path),
    }
}

/// Formats a filesystem change for plain terminal output.
pub fn format_watch_change(change: &FileChange) -> (s: String)
    ensures
        s@ == watch_change_line(change@),
{
    let (icon, label, color) = match change.kind {
        ChangeKind::Created => ("✚", "path created", Color::Green),
        ChangeKind::Modified => ("●", "path modified", Color::Yellow),
        ChangeKind::Deleted => ("✕", "path deleted", Color::Red),
        ChangeKind::Renamed => ("↻", "path renamed", Color::Magenta),
    };
    let mut s = paint(color, icon);
    push_str(&mut s, " ");
    push_str(&mut s, paint(color, label).as_str());
    push_str(&mut s, "  ");
    if let Some(previous_path) = &change.previous_path {
        push_str(&mut s, paint(Color::Muted, previous_path.as_str()).as_str());
        push_str(&mut s, " ");
        push_str(&mut s, paint(Color::Muted, "→").as_str());
        push_str(&mut s, " ");
    }
    push_str(&mut s, paint(Color::Text, change.path.as_str()).as_str());
    assert(s@ =~= watch_change_line(change@));
    s
}

/// An application event as plain output sees it.
#[derive(Clone, Debug, PartialEq, Eq)]
pub enum PlainEvent {
    /// A file change.
    Changed(FileChange),
    /// A watcher error or a system message.
    Error(String),
    /// A line the process wrote to stdout.
    Stdout(String),
    /// A line the process wrote to stderr.
    Stderr(String),
    /// A system log line or a process state change that plain output does not show.
    Quiet,
    /// The process exited, with its exit code when it has one.
    Exited(Option<i32>),
    /// The process failed to run.
    Failed(String),
}

/// The stream a plain output line goes to.
#[derive(Clone, Copy, Debug, PartialEq, Eq, Structural)]
pub enum OutputStream {
    /// Standard output.
    Stdout,
    /// Standard error.
    Stderr,
}

/// The line plain output prints for an event, and where; none in quiet mode, for silent
/// events and for an exit with code 0 or without a code.
pub open spec fn plain_line_spec(event: PlainEvent, quiet: bool) -> Option<(OutputStream, Seq<char>)> {
    if quiet {
        None
    } else {
        match event {
            PlainEvent::Changed(c) => Some((OutputStream::Stdout, watch_change_line(c@))),
            PlainEvent::Error(m) => Some((OutputStream::Stderr, painted(Color::Red, "✕ rumon"@) + " "@ + m@)),
            PlainEvent::Stdout(m) => Some((OutputStream::Stdout, painted(Color::Cyan, "›"@) + " "@ + m@)),
            PlainEvent::Stderr(m) => Some((OutputStream::Stderr, painted(Color::Red, "›"@) + " "@ + m@)),
            PlainEvent::Quiet => None,
            PlainEvent::Exited(code) => match code {
                Some(c) => if c == 0 {
                    None
                } else {
                    Some((OutputStream::Stderr, painted(Color::Red, "✕"@) + " command exited with "@ + signed_decimal(c as int)))
                },
                None => None,
            },
            PlainEvent::Failed(m) => Some((OutputStream::Stderr, painted(Color::Red, "✕"@) + " process failed: "@ + m@)),
        }
    }
}

/// The line plain output prints for an event, and the stream it goes to.
pub fn plain_line(event: &PlainEvent, quiet: bool) -> (r: Option<(OutputStream, String)>)
    ensures
        r matches Some((o, l)) ==> plain_line_spec(*event, quiet) == Some((o, l@)),
        r is None ==> plain_line_spec(*event, quiet) is None,
{
    if quiet {
        return None;
    }
    match event {
        PlainEvent::Changed(c) => Some((OutputStream::Stdout, format_watch_change(c))),
        PlainEvent::Error(m) => {
            let mut s = paint(Color::Red, "✕ rumon");
            push_str(&mut s, " ");
            push_str(&mut s, m.as_str());
            Some((OutputStream::Stderr, s))
        },
        PlainEvent::Stdout(m) => {
            let mut s = paint(Color::Cyan, "›");
            push_str(&mut s, " ");
            push_str(&mut s, m.as_str());
            Some((OutputStream::Stdout, s))
        },
        PlainEvent::Stderr(m) => {
            let mut s = paint(Color::Red, "›");
            push_str(&mut s, " ");
            push_str(&mut s, m.as_str());
            Some((OutputStream::Stderr, s))
        },
        PlainEvent::Quiet => None,
        PlainEvent::Exited(code) => match code {
            Some(c) => if *c == 0 {
                None
            } else {
                let mut s = paint(Color::Red, "✕");
                push_str(&mut s, " command exited with ");
                push_signed(&mut s, *c as i64);
                Some((OutputStream::Stderr, s))
            },
            None => None,
        },
        PlainEvent::Failed(m) => {
            let mut s = paint(Color::Red, "✕");
            push_str(&mut s, " process failed: ");
            push_str(&mut s, m.as_str());
            Some((OutputStream::Stderr, s))
        },
    }
}

/// Machine-readable stream format.
#[derive(Clone, Copy, Debug, PartialEq, Eq, Structural)]
pub enum StreamFormat {
    /// JSON array snapshot.
    Json,
    /// Realtime newline-delimited JSON.
    Ndjson,
}

/// How long a single run collects events: twice the debounce window (saturating), and at
/// least a quarter second.
pub fn once_window_ms(debounce_ms: u64) -> (w: u64)
    ensures
        w == if debounce_ms as nat * 2 > u64::MAX {
            u64::MAX
        } else if debounce_ms * 2 < 250 {
            250
        } else {
            (debounce_ms * 2) as u64
        },
{
    let doubled = if debounce_ms > u64::MAX / 2 { u64::MAX } else { debounce_ms * 2 };
    if doubled < 250 {
        250
    } else {
        doubled
    }
}

/// A request of the local IPC protocol.
#[derive(Clone, Copy, Debug, PartialEq, Eq, Structural)]
pub enum IpcRequest {
    /// Liveness check.
    Ping,
    /// Runtime status.
    Status,
    /// The most recent events, at most `limit` of them.
    RecentEvents {
        /// Largest number of events to send.
        limit: u64,
    },
    /// Stream events until the client goes away.
    Subscribe,
    /// Stop the daemon.
    Shutdown,
    /// Anything else, a line that did not parse included.
    Unknown,
}

/// The request named by a method, with the `limit` parameter of `recent_events` (100 when
/// it is missing).
pub open spec fn ipc_request_spec(method: Option<Seq<char>>, limit: Option<u64>) -> IpcRequest {
    match method {
        Some(m) => if m == "ping"@ {
            IpcRequest::Ping
        } else if m == "status"@ {
            IpcRequest::Status
        } else if m == "recent_events"@ {
            IpcRequest::RecentEvents {
                limit: match limit {
                    Some(l) => l,
                    None => 100,
                },
            }
        } else if m == "subscribe_events"@ {
            IpcRequest::Subscribe
        } else if m == "shutdown"@ {
            IpcRequest::Shutdown
        } else {
            IpcRequest::Unknown
        },
        None => IpcRequest::Unknown,
    }
}

/// Decides which request a parsed line makes; `method` is absent when the line did not
/// parse or named no method.
pub fn ipc_request(method: Option<&str>, limit: Option<u64>) -> (r: IpcRequest)
    ensures
        r == ipc_request_spec(
            match method {
                Some(m) => Some(m@),
                None => None,
            },
            limit,
        ),
{
    match method {
        Some(m) => if eq_str(m, "ping") {
            IpcRequest::Ping
        } else if eq_str(m, "status") {
            IpcRequest::Status
        } else if eq_str(m, "recent_events") {
            IpcRequest::RecentEvents {
                limit: match limit {
                    Some(l) => l,
                    None => 100,
                },
            }
        } else if eq_str(m, "subscribe_events") {
            IpcRequest::Subscribe
        } else if eq_str(m, "shutdown") {
            IpcRequest::Shutdown
        } else {
            IpcRequest::Unknown
        },
        None => IpcRequest::Unknown,
    }
}

/// The IPC endpoint: the configured path, or the platform default when it is empty.
pub open spec fn ipc_path_spec(path: Seq<char>, windows: bool) -> Seq<char> {
    if path.len() > 0 {
        path
    } else if windows {
        "\\\\.\\pipe\\rumon"@
    } else {
        "/tmp/rumon.sock"@
    }
}

/// The IPC endpoint for a configured path; `windows` tells whether the platform is Windows.
pub fn ipc_path(path: &str, windows: bool) -> (p: String)
    ensures
        p@ == ipc_path_spec(path@, windows),
{
    if path.unicode_len() > 0 {
        owned(path)
    } else if windows {
        owned("\\\\.\\pipe\\rumon")
    } else {
        owned("/tmp/rumon.sock")
    }
}

/// What `serde_json` reads of a request line: the `id` field as JSON text (`null` when the
/// line does not parse or has none), the `method` field when it is a string, and
/// `params.limit` when it is an unsigned integer.
pub uninterp spec fn request_fields(line: Seq<char>) -> (Seq<char>, Option<Seq<char>>, Option<u64>);

/// Parses a request line with `serde_json::from_str::<Value>` and reads its `id`, `method`
/// and `params.limit` (`Value::get`, `as_str`, `as_u64`, and `to_string` for the id); the
/// contract names the outcome.
#[verifier::external_body]
fn parse_request_line(line: &str) -> (r: (String, Option<String>, Option<u64>))
    ensures
        (r.0@, opt_view(r.1), r.2) == request_fields(line@),
{
    let parsed = serde_json::from_str::<serde_json::Value>(line).ok();
    let id = parsed.as_ref().and_then(|v| v.get("id")).cloned().unwrap_or(serde_json::Value::Null).to_string();
    let method = parsed.as_ref().and_then(|v| v.get("method")).and_then(|m| m.as_str()).map(|m| m.to_string());
    let limit = parsed.as_ref().and_then(|v| v.get("params")).and_then(|p| p.get("limit")).and_then(|l| l.as_u64());
    (id, method, limit)
}

/// Reads one request line of the IPC protocol: the request's `id` as JSON text, and the
/// request it makes (see [`ipc_request_spec`]).
pub fn ipc_line(line: &str) -> (r: (String, IpcRequest))
    ensures
        r.0@ == request_fields(line@).0,
        r.1 == ipc_request_spec(request_fields(line@).1, request_fields(line@).2),
{
    let (id, method, limit) = parse_request_line(line);
    let request = match &method {
        Some(m) => ipc_request(Some(m.as_str()), limit),
        None => ipc_request(None, limit),
    };
    (id, request)
}

} // verus!
