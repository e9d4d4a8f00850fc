//! Decisions of the watch loop and of the event query: the loop itself (the process, the
//! watcher, the terminal UI and the event bus) runs around them.

use vstd::prelude::*;

use crate::config::schema::RunConfig;
use crate::runtime::output::exit_code_to_u8;
use crate::text::{chars_of, eq_str, find_chars, find_seq_from};

verus! {

/// What one turn of the watch loop observed.
#[derive(Clone, Copy, Debug, PartialEq, Eq, Structural)]
pub enum LoopEvent {
    /// The terminal UI asked to quit.
    QuitRequested,
    /// The supervised process exited, with its exit code when it has one.
    ProcessExited(Option<i32>),
    /// A batch of bus events was handled; `any_changed` tells whether one was a file change.
    Batch {
        /// Whether a file change was among the events.
        any_changed: bool,
    },
    /// No event arrived before the poll timeout.
    Idle,
    /// The event bus disconnected.
    Disconnected,
}

/// What the watch loop does next.
#[derive(Clone, Copy, Debug, PartialEq, Eq, Structural)]
pub enum LoopAction {
    /// Keep watching.
    Continue,
    /// Stop the process and leave with status 0.
    StopAndExit,
    /// Leave with this status.
    Exit(u8),
    /// Restart the process after `delay_ms`, clearing the logs first when asked.
    Restart {
        /// Whether the logs are cleared before the restart.
        clear_logs: bool,
        /// Pause before the restart, in milliseconds.
        delay_ms: u64,
    },
    /// Leave with the error that the event bus disconnected.
    Fail,
}

/// The status of an exited process as a `u8`: its code when it is in `0..=255`, else 1
/// (also when it has no code).
pub open spec fn exit_status(code: Option<i32>) -> u8 {
    match code {
        Some(c) => if 0 <= c <= 255 {
            c as u8
        } else {
            1
        },
        None => 1,
    }
}

/// The next action of the watch loop for an observation, under the run settings `run`.
pub open spec fn loop_action(run: crate::config::schema::RunView, event: LoopEvent) -> LoopAction {
    match event {
        LoopEvent::QuitRequested => LoopAction::StopAndExit,
        LoopEvent::ProcessExited(code) => if run.restart {
            LoopAction::Continue
        } else {
            LoopAction::Exit(exit_status(code))
        },
        LoopEvent::Batch { any_changed } => if any_changed && run.restart {
            LoopAction::Restart { clear_logs: run.clear_logs_on_restart, delay_ms: run.restart_delay_ms }
        } else {
            LoopAction::Continue
        },
        LoopEvent::Idle => LoopAction::Continue,
        LoopEvent::Disconnected => LoopAction::Fail,
    }
}

/// Decides the next action of the watch loop.
pub fn watch_step(run: &RunConfig, event: LoopEvent) -> (a: LoopAction)
    ensures
        a == loop_action(run@, event),
{
    match event {
        LoopEvent::QuitRequested => LoopAction::StopAndExit,
        LoopEvent::ProcessExited(code) => if run.restart {
            LoopAction::Continue
        } else {
            let status = match code {
                Some(c) => exit_code_to_u8(c),
                None => 1,
            };
            LoopAction::Exit(status)
        },
        LoopEvent::Batch { any_changed } => if any_changed && run.restart {
            LoopAction::Restart { clear_logs: run.clear_logs_on_restart, delay_ms: run.restart_delay_ms }
        } else {
            LoopAction::Continue
        },
        LoopEvent::Idle => LoopAction::Continue,
        LoopEvent::Disconnected => LoopAction::Fail,
    }
}

/// The status of a single run (`--once`): the process's exit code as a `u8`.
pub fn once_status(code: i32) -> (s: u8)
    ensures
        s == exit_status(Some(code)),
{
    exit_code_to_u8(code)
}

/// A query for recent events: how many, of which type, and under which path.
#[derive(Clone, Debug, Default)]
pub struct EventQuery {
    /// Largest number of recent events to read (100 when absent).
    pub limit: Option<usize>,
    /// Event type name the events must have.
    pub event_type: Option<String>,
    /// Text the event's path must contain.
    pub path: Option<String>,
}

/// The number of recent events a query reads.
pub open spec fn query_limit_spec(limit: Option<usize>) -> usize {
    match limit {
        Some(l) => l,
        None => 100,
    }
}

/// Whether `s` contains `p`.
pub open spec fn contains_text(s: Seq<char>, p: Seq<char>) -> bool {
    find_seq_from(s, p, 0) is Some
}

/// Whether an event with type name `event_type`, path `path` and new path `new_path`
/// answers a query: the type is the one asked for, if any, and the path (or else the new
/// path) contains the text asked for, if any.
pub open spec fn query_matches(
    want_type: Option<Seq<char>>,
    want_path: Option<Seq<char>>,
    event_type: Seq<char>,
    path: Option<Seq<char>>,
    new_path: Option<Seq<char>>,
) -> bool {
    &&& (want_type matches Some(t) ==> t == event_type)
    &&& (want_path matches Some(needle) ==> match (if path is Some { path } else { new_path }) {
        Some(p) => contains_text(p, needle),
        None => false,
    })
}

/// The view of an optional string slice.
pub open spec fn opt_str_view(o: Option<&str>) -> Option<Seq<char>> {
    match o {
        Some(s) => Some(s@),
        None => None,
    }
}

/// The view of an optional string.
pub open spec fn opt_string_view(o: Option<String>) -> Option<Seq<char>> {
    match o {
        Some(s) => Some(s@),
        None => None,
    }
}

fn str_contains(s: &str, p: &str) -> (b: bool)
    ensures
        b == contains_text(s@, p@),
{
    let v = chars_of(s);
    let w = chars_of(p);
    find_chars(&v, &w).is_some()
}

impl EventQuery {
    /// The number of recent events the query reads.
    pub fn limit_or_default(&self) -> (n: usize)
        ensures
            n == query_limit_spec(self.limit),
    {
        match self.limit {
            Some(l) => l,
            None => 100,
        }
    }

    /// Whether an event answers the query (see [`query_matches`]).
    pub fn matches(&self, event_type: &str, path: Option<&str>, new_path: Option<&str>) -> (b: bool)
        ensures
            b == query_matches(
                opt_string_view(self.event_type),
                opt_string_view(self.path),
                event_type@,
                opt_str_view(path),
                opt_str_view(new_path),
            ),
    {
        let type_ok = match &self.event_type {
            Some(t) => eq_str(t.as_str(), event_type),
            None => true,
        };
        let path_ok = match &self.path {
            Some(needle) => {
                let chosen = if path.is_some() {
                    path
                } else {
                    new_path
                };
                match chosen {
                    Some(p) => str_contains(p, needle.as_str()),
                    None => false,
                }
            },
            None => true,
        };
        type_ok && path_ok
    }
}

} // verus!
