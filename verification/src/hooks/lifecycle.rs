//! Lifecycle hook models, hook outputs, the hook context, and the choice of the hook to run
//! at each lifecycle point.

use vstd::prelude::*;

use crate::diff::preview::push_string;
use crate::text::{decimal, owned, push_decimal, push_signed, push_str, signed_decimal, trim_spec, trim_str};

verus! {

/// Built-in lifecycle hook points.
#[derive(Clone, Copy, Debug, PartialEq, Eq, Structural)]
pub enum HookPoint {
    /// Runs before the current process is terminated for restart.
    BeforeRestart,
    /// Runs after the replacement process starts.
    AfterRestart,
    /// Runs after a process exits successfully.
    OnSuccess,
    /// Runs after a process exits with failure.
    OnFailure,
}

/// The configuration key of a hook point.
pub open spec fn hook_point_key(p: HookPoint) -> Seq<char> {
    match p {
        HookPoint::BeforeRestart => "before_restart"@,
        HookPoint::AfterRestart => "after_restart"@,
        HookPoint::OnSuccess => "on_success"@,
        HookPoint::OnFailure => "on_failure"@,
    }
}

impl HookPoint {
    /// Returns the configuration key for the hook point.
    pub fn as_str(self) -> (s: &'static str)
        ensures
            s@ == hook_point_key(self),
    {
        match self {
            HookPoint::BeforeRestart => "before_restart",
            HookPoint::AfterRestart => "after_restart",
            HookPoint::OnSuccess => "on_success",
            HookPoint::OnFailure => "on_failure",
        }
    }
}

/// The timeout of a hook made by `Hook::new`, in milliseconds.
pub const DEFAULT_HOOK_TIMEOUT_MS: u64 = 30000;

/// A configured lifecycle hook.
#[derive(Clone, Debug, PartialEq, Eq)]
pub struct Hook {
    /// Hook point.
    pub point: HookPoint,
    /// Command to execute.
    pub command: String,
    /// Timeout for the hook command, in milliseconds.
    pub timeout_ms: u64,
}

impl Hook {
    /// Creates a hook with the default timeout of thirty seconds.
    pub fn new(point: HookPoint, command: String) -> (h: Self)
        ensures
            h.point == point,
            h.command@ == command@,
            h.timeout_ms == DEFAULT_HOOK_TIMEOUT_MS,
    {
        Hook { point, command, timeout_ms: DEFAULT_HOOK_TIMEOUT_MS }
    }

    /// Returns whether the hook has a command to run.
    pub fn is_enabled(&self) -> (b: bool)
        ensures
            b == (trim_spec(self.command@).len() > 0),
    {
        !trim_str(self.command.as_str()).as_str().is_empty()
    }
}

/// Collection of lifecycle hooks.
#[derive(Clone, Debug, PartialEq, Eq)]
pub struct HookSet {
    /// Hook executed before restart.
    pub before_restart: Option<Hook>,
    /// Hook executed after restart.
    pub after_restart: Option<Hook>,
    /// Hook executed on successful process exit.
    pub on_success: Option<Hook>,
    /// Hook executed on failed process exit.
    pub on_failure: Option<Hook>,
}

/// The hook of a set for a lifecycle point.
pub open spec fn hook_for(set: HookSet, point: HookPoint) -> Option<Hook> {
    match point {
        HookPoint::BeforeRestart => set.before_restart,
        HookPoint::AfterRestart => set.after_restart,
        HookPoint::OnSuccess => set.on_success,
        HookPoint::OnFailure => set.on_failure,
    }
}

impl HookSet {
    /// Creates an empty hook set.
    pub fn empty() -> (s: Self)
        ensures
            s.before_restart is None,
            s.after_restart is None,
            s.on_success is None,
            s.on_failure is None,
    {
        HookSet { before_restart: None, after_restart: None, on_success: None, on_failure: None }
    }

    /// Returns the hook for the supplied lifecycle point.
    pub fn get(&self, point: HookPoint) -> (h: Option<&Hook>)
        ensures
            match h {
                Some(x) => hook_for(*self, point) == Some(*x),
                None => hook_for(*self, point) is None,
            },
    {
        match point {
            HookPoint::BeforeRestart => self.before_restart.as_ref(),
            HookPoint::AfterRestart => self.after_restart.as_ref(),
            HookPoint::OnSuccess => self.on_success.as_ref(),
            HookPoint::OnFailure => self.on_failure.as_ref(),
        }
    }
}

/// Hook execution output.
#[derive(Clone, Debug, PartialEq, Eq)]
pub struct HookOutput {
    /// Command that was executed.
    pub command: String,
    /// Process exit code when available.
    pub exit_code: Option<i32>,
    /// Captured stdout.
    pub stdout: String,
    /// Captured stderr.
    pub stderr: String,
    /// Whether the hook timed out.
    pub timed_out: bool,
    /// Elapsed execution time in milliseconds.
    pub elapsed_ms: u64,
}

/// `Option<i32>` as `{:?}` shows it.
pub open spec fn debug_exit_code(code: Option<i32>) -> Seq<char> {
    match code {
        Some(c) => "Some("@ + signed_decimal(c as int) + ")"@,
        None => "None"@,
    }
}

/// The log lines of a hook output: the command, the trimmed stdout and stderr when they
/// are not empty, and then the timeout or the exit code.
pub open spec fn log_lines_spec(o: HookOutput) -> Seq<Seq<char>> {
    let head = seq!["hook: "@ + o.command@];
    let with_out = if o.stdout@.len() > 0 { head.push("stdout: "@ + trim_spec(o.stdout@)) } else { head };
    let with_err = if o.stderr@.len() > 0 {
        with_out.push("stderr: "@ + trim_spec(o.stderr@))
    } else {
        with_out
    };
    if o.timed_out {
        with_err.push("hook timed out"@)
    } else {
        with_err.push("exit code: "@ + debug_exit_code(o.exit_code))
    }
}

fn prefixed(prefix: &str, s: &str) -> (r: String)
    ensures
        r@ == prefix@ + s@,
{
    let mut r = owned(prefix);
    push_str(&mut r, s);
    r
}

impl HookOutput {
    /// Returns whether the hook finished successfully: exit code zero and no timeout.
    pub fn succeeded(&self) -> (b: bool)
        ensures
            b == (self.exit_code == Some(0i32) && !self.timed_out),
    {
        match self.exit_code {
            Some(code) => code == 0 && !self.timed_out,
            None => false,
        }
    }

    /// Returns log lines suitable for Rumon UI/log panels.
    pub fn log_lines(&self) -> (lines: Vec<String>)
        ensures
            crate::diff::preview::strings_view(lines@) == log_lines_spec(*self),
    {
        let mut lines: Vec<String> = Vec::new();
        assert(crate::diff::preview::strings_view(lines@) =~= Seq::<Seq<char>>::empty());
        push_string(&mut lines, prefixed("hook: ", self.command.as_str()));
        if !self.stdout.as_str().is_empty() {
            push_string(&mut lines, prefixed("stdout: ", trim_str(self.stdout.as_str()).as_str()));
        }
        if !self.stderr.as_str().is_empty() {
            push_string(&mut lines, prefixed("stderr: ", trim_str(self.stderr.as_str()).as_str()));
        }
        if self.timed_out {
            push_string(&mut lines, owned("hook timed out"));
        } else {
            let mut last = owned("exit code: ");
            match self.exit_code {
                Some(code) => {
                    push_str(&mut last, "Some(");
                    push_signed(&mut last, code as i64);
                    push_str(&mut last, ")");
                    assert(last@ =~= "exit code: "@ + debug_exit_code(self.exit_code));
                },
                None => {
                    push_str(&mut last, "None");
                },
            }
            push_string(&mut lines, last);
        }
        assert(crate::diff::preview::strings_view(lines@) =~= log_lines_spec(*self));
        lines
    }
}

/// Runtime context injected into hook environment variables.
#[derive(Clone, Debug, PartialEq, Eq)]
pub struct HookContext {
    /// File that triggered the lifecycle event when available.
    pub file: Option<String>,
    /// Lifecycle event.
    pub event: HookPoint,
    /// Current process id when available.
    pub process_pid: Option<u32>,
    /// Process exit code when available.
    pub exit_code: Option<i32>,
    /// Timestamp in seconds since the Unix epoch.
    pub timestamp: u64,
}

/// The text of an optional value: empty when absent.
pub open spec fn opt_text(t: Option<Seq<char>>) -> Seq<char> {
    match t {
        Some(x) => x,
        None => Seq::empty(),
    }
}

/// The `RUMON_*` variables of a context, sorted by name.
pub open spec fn context_environment(c: HookContext) -> Seq<(Seq<char>, Seq<char>)> {
    seq![
        ("RUMON_EVENT"@, hook_point_key(c.event)),
        ("RUMON_EXIT_CODE"@, match c.exit_code {
            Some(code) => signed_decimal(code as int),
            None => Seq::empty(),
        }),
        ("RUMON_FILE"@, match c.file {
            Some(f) => f@,
            None => Seq::empty(),
        }),
        ("RUMON_PROCESS_PID"@, match c.process_pid {
            Some(pid) => decimal(pid as nat),
            None => Seq::empty(),
        }),
        ("RUMON_TIMESTAMP"@, decimal(c.timestamp as nat)),
    ]
}

/// The views of name/value pairs.
pub open spec fn pairs_view(v: Seq<(String, String)>) -> Seq<(Seq<char>, Seq<char>)> {
    v.map_values(|p: (String, String)| (p.0@, p.1@))
}

impl HookContext {
    /// Creates the context for a hook point at the given time (seconds since the Unix epoch).
    pub fn new(event: HookPoint, timestamp: u64) -> (c: Self)
        ensures
            c.file is None,
            c.event == event,
            c.process_pid is None,
            c.exit_code is None,
            c.timestamp == timestamp,
    {
        HookContext { file: None, event, process_pid: None, exit_code: None, timestamp }
    }

    /// Converts the context into `RUMON_*` environment variables, sorted by name.
    pub fn environment(&self) -> (vars: Vec<(String, String)>)
        ensures
            pairs_view(vars@) == context_environment(*self),
    {
        let mut vars: Vec<(String, String)> = Vec::new();
        vars.push((owned("RUMON_EVENT"), owned(self.event.as_str())));
        let mut code = String::new();
        if let Some(c) = self.exit_code {
            push_signed(&mut code, c as i64);
        }
        vars.push((owned("RUMON_EXIT_CODE"), code));
        let file = match &self.file {
            Some(f) => f.clone(),
            None => String::new(),
        };
        vars.push((owned("RUMON_FILE"), file));
        let mut pid = String::new();
        if let Some(p) = self.process_pid {
            push_decimal(&mut pid, p as u64);
        }
        vars.push((owned("RUMON_PROCESS_PID"), pid));
        let mut stamp = String::new();
        push_decimal(&mut stamp, self.timestamp);
        vars.push((owned("RUMON_TIMESTAMP"), stamp));
        assert(pairs_view(vars@) =~= context_environment(*self));
        vars
    }
}

/// The hook to run at `point` with the context to run it in: the configured hook when it
/// has a command, with the context's event set to the point.
pub open spec fn lifecycle_plan(hooks: HookSet, point: HookPoint, context: HookContext) -> Option<(Hook, HookContext)> {
    match hook_for(hooks, point) {
        Some(h) => if trim_spec(h.command@).len() > 0 {
            Some((h, HookContext { event: point, ..context }))
        } else {
            None
        },
        None => None,
    }
}

fn plan_for(hooks: &HookSet, point: HookPoint, context: HookContext) -> (r: Option<(Hook, HookContext)>)
    ensures
        r == lifecycle_plan(*hooks, point, context),
{
    let mut context = context;
    context.event = point;
    match hooks.get(point) {
        Some(hook) => if hook.is_enabled() {
            let copy = Hook { point: hook.point, command: hook.command.clone(), timeout_ms: hook.timeout_ms };
            Some((copy, context))
        } else {
            None
        },
        None => None,
    }
}

/// Selects the configured `before_restart` hook and its context; the caller runs it.
pub fn run_before_restart(hooks: &HookSet, context: HookContext) -> (r: Option<(Hook, HookContext)>)
    ensures
        r == lifecycle_plan(*hooks, HookPoint::BeforeRestart, context),
{
    plan_for(hooks, HookPoint::BeforeRestart, context)
}

/// Selects the configured `after_restart` hook and its context; the caller runs it.
pub fn run_after_restart(hooks: &HookSet, context: HookContext) -> (r: Option<(Hook, HookContext)>)
    ensures
        r == lifecycle_plan(*hooks, HookPoint::AfterRestart, context),
{
    plan_for(hooks, HookPoint::AfterRestart, context)
}

/// Selects the configured `on_success` hook and its context; the caller runs it.
pub fn run_on_success(hooks: &HookSet, context: HookContext) -> (r: Option<(Hook, HookContext)>)
    ensures
        r == lifecycle_plan(*hooks, HookPoint::OnSuccess, context),
{
    plan_for(hooks, HookPoint::OnSuccess, context)
}

/// Selects the configured `on_failure` hook and its context; the caller runs it.
pub fn run_on_failure(hooks: &HookSet, context: HookContext) -> (r: Option<(Hook, HookContext)>)
    ensures
        r == lifecycle_plan(*hooks, HookPoint::OnFailure, context),
{
    plan_for(hooks, HookPoint::OnFailure, context)
}

/// Executes configured lifecycle hooks, polling the running command at a fixed interval.
#[derive(Clone, Debug, PartialEq, Eq)]
pub struct HookExecutor {
    /// Polling interval in milliseconds.
    pub poll_interval_ms: u64,
}

impl HookExecutor {
    /// Creates a hook executor that polls every ten milliseconds.
    pub fn new() -> (e: Self)
        ensures
            e.poll_interval_ms == 10,
    {
        HookExecutor { poll_interval_ms: 10 }
    }

    /// Creates a hook executor with a custom polling interval in milliseconds.
    pub fn with_poll_interval(poll_interval_ms: u64) -> (e: Self)
        ensures
            e.poll_interval_ms == poll_interval_ms,
    {
        HookExecutor { poll_interval_ms }
    }
}

/// The decision of one polling step of a running hook.
#[derive(Clone, Copy, Debug, PartialEq, Eq, Structural)]
pub enum PollAction {
    /// The command has exited: collect its output.
    Collect,
    /// The timeout has passed: kill the command, then collect its output as timed out.
    KillAndCollect,
    /// Sleep for the polling interval and poll again.
    Sleep,
}

/// One polling step: a command that has exited is collected; otherwise one that has run for
/// its timeout or longer is killed; otherwise the executor sleeps.
pub fn poll_step(exited: bool, elapsed_ms: u64, timeout_ms: u64) -> (a: PollAction)
    ensures
        exited ==> a == PollAction::Collect,
        !exited && elapsed_ms >= timeout_ms ==> a == PollAction::KillAndCollect,
        !exited && elapsed_ms < timeout_ms ==> a == PollAction::Sleep,
{
    if exited {
        PollAction::Collect
    } else if elapsed_ms >= timeout_ms {
        PollAction::KillAndCollect
    } else {
        PollAction::Sleep
    }
}

/// The output of a hook that is not run because it has no command.
pub fn disabled_output(hook: &Hook) -> (o: HookOutput)
    ensures
        o.command@ == hook.command@,
        o.exit_code == Some(0i32),
        o.stdout@.len() == 0,
        o.stderr@.len() == 0,
        !o.timed_out,
        o.elapsed_ms == 0,
{
    HookOutput {
        command: hook.command.clone(),
        exit_code: Some(0),
        stdout: String::new(),
        stderr: String::new(),
        timed_out: false,
        elapsed_ms: 0,
    }
}

} // verus!
