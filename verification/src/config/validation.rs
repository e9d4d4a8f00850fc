//! Configuration validation.

use vstd::prelude::*;

use crate::config::schema::{Config, ConfigError, ConfigView, EventHookConfig, EventHookView};
use crate::text::{eq_str, owned, push_str, trim_spec, trim_str};

verus! {

/// The event type names a hook may subscribe to.
pub open spec fn supported_event(e: Seq<char>) -> bool {
    ||| e == "file_created"@
    ||| e == "file_modified"@
    ||| e == "file_deleted"@
    ||| e == "file_renamed"@
    ||| e == "folder_created"@
    ||| e == "folder_deleted"@
    ||| e == "folder_renamed"@
    ||| e == "metadata_changed"@
    ||| e == "content_changed"@
    ||| e == "permission_changed"@
}

/// Whether `event` names a supported event type.
pub fn is_supported_event_type(event: &str) -> (b: bool)
    ensures
        b == supported_event(event@),
{
    eq_str(event, "file_created") || eq_str(event, "file_modified") || eq_str(event, "file_deleted")
        || eq_str(event, "file_renamed") || eq_str(event, "folder_created") || eq_str(
        event,
        "folder_deleted",
    ) || eq_str(event, "folder_renamed") || eq_str(event, "metadata_changed") || eq_str(
        event,
        "content_changed",
    ) || eq_str(event, "permission_changed")
}

/// The first unsupported event among `events[j..]`.
pub open spec fn first_unsupported(events: Seq<Seq<char>>, j: nat) -> Option<Seq<char>>
    decreases events.len() - j,
{
    if j >= events.len() {
        None
    } else if !supported_event(events[j as int]) {
        Some(events[j as int])
    } else {
        first_unsupported(events, j + 1)
    }
}

/// The complaint about one event hook, if it has one.
pub open spec fn hook_error(h: EventHookView) -> Option<Seq<char>> {
    if trim_spec(h.name).len() == 0 {
        Some("event_hooks.name must not be empty"@)
    } else if h.events.len() == 0 {
        Some("event hook '"@ + h.name + "' must include at least one event"@)
    } else if h.paths.len() == 0 {
        Some("event hook '"@ + h.name + "' must include at least one path glob"@)
    } else {
        match first_unsupported(h.events, 0) {
            Some(e) => Some("unsupported event hook event type: "@ + e),
            None => None,
        }
    }
}

/// The complaint about the first faulty hook among `hooks[i..]`.
pub open spec fn hooks_error(hooks: Seq<EventHookView>, i: nat) -> Option<Seq<char>>
    decreases hooks.len() - i,
{
    if i >= hooks.len() {
        None
    } else if hook_error(hooks[i as int]) is Some {
        hook_error(hooks[i as int])
    } else {
        hooks_error(hooks, i + 1)
    }
}

/// The first watch path among `paths[i..]` that is not among `existing`.
pub open spec fn first_missing(paths: Seq<Seq<char>>, existing: Seq<Seq<char>>, i: nat) -> Option<Seq<char>>
    decreases paths.len() - i,
{
    if i >= paths.len() {
        None
    } else if !existing.contains(paths[i as int]) {
        Some(paths[i as int])
    } else {
        first_missing(paths, existing, i + 1)
    }
}

/// Whether the kill signal names a supported strategy.
pub open spec fn supported_signal(s: Seq<char>) -> bool {
    s == "term"@ || s == "kill"@ || s == "interrupt"@
}

/// The complaint about a configuration, checked in this order: the command, the watch paths,
/// the debounce window, the panel width, the kill signal, the existence of each watch path
/// (`existing` lists the paths that exist; skipped when running once), then the event hooks.
pub open spec fn validation_error(c: ConfigView, existing: Seq<Seq<char>>) -> Option<Seq<char>> {
    if basic_error(c) is Some {
        basic_error(c)
    } else if !c.once && first_missing(c.watch.paths, existing, 0) is Some {
        Some("watch path does not exist: "@ + first_missing(c.watch.paths, existing, 0)->0)
    } else {
        hooks_error(c.event_hooks, 0)
    }
}

/// The complaint about the command, the watch paths, the debounce window, the panel width or
/// the kill signal, in this order.
pub open spec fn basic_error(c: ConfigView) -> Option<Seq<char>> {
    if trim_spec(c.run.cmd).len() == 0 {
        Some("run.cmd must not be empty"@)
    } else if c.watch.paths.len() == 0 && !c.once {
        Some("watch.paths must contain at least one path"@)
    } else if c.watch.debounce_ms == 0 {
        Some("watch.debounce_ms must be positive"@)
    } else if !(1 <= c.tui.left_panel_width <= 99) {
        Some("tui.left_panel_width must be between 1 and 99"@)
    } else if !supported_signal(c.run.kill_signal) {
        Some("run.kill_signal must be term, kill, or interrupt"@)
    } else {
        None
    }
}

/// The error carrying `prefix + s + suffix`.
fn message3(prefix: &str, s: &str, suffix: &str) -> (e: ConfigError)
    ensures
        e@ == prefix@ + s@ + suffix@,
{
    let mut m = owned(prefix);
    push_str(&mut m, s);
    push_str(&mut m, suffix);
    ConfigError::new(m)
}

/// The error carrying `prefix + s`.
fn message2(prefix: &str, s: &str) -> (e: ConfigError)
    ensures
        e@ == prefix@ + s@,
{
    let mut m = owned(prefix);
    push_str(&mut m, s);
    ConfigError::new(m)
}

fn contains_path(existing: &Vec<String>, path: &String) -> (b: bool)
    ensures
        b == crate::diff::preview::strings_view(existing@).contains(path@),
{
    let ghost sv = crate::diff::preview::strings_view(existing@);
    let mut i: usize = 0;
    while i < existing.len()
        invariant
            i <= existing.len(),
            sv == crate::diff::preview::strings_view(existing@),
            forall|k: int| 0 <= k < i ==> sv[k] != path@,
        decreases existing.len() - i,
    {
        if eq_str(existing[i].as_str(), path.as_str()) {
            assert(sv[i as int] == path@);
            return true;
        }
        i = i + 1;
    }
    assert forall|k: int| 0 <= k < sv.len() implies sv[k] != path@ by {}
    false
}

fn check_hook(hook: &EventHookConfig) -> (r: Result<(), ConfigError>)
    ensures
        match hook_error(hook@) {
            Some(m) => r matches Err(e) && e@ == m,
            None => r is Ok,
        },
{
    if trim_str(hook.name.as_str()).as_str().is_empty() {
        return Err(ConfigError::new(owned("event_hooks.name must not be empty")));
    }
    if hook.events.len() == 0 {
        return Err(message3("event hook '", hook.name.as_str(), "' must include at least one event"));
    }
    if hook.paths.len() == 0 {
        return Err(
            message3("event hook '", hook.name.as_str(), "' must include at least one path glob"),
        );
    }
    let ghost events = hook@.events;
    let mut j: usize = 0;
    while j < hook.events.len()
        invariant
            j <= hook.events.len(),
            events == hook@.events,
            trim_spec(hook@.name).len() > 0,
            hook@.events.len() > 0,
            hook@.paths.len() > 0,
            first_unsupported(events, 0) == first_unsupported(events, j as nat),
        decreases hook.events.len() - j,
    {
        if !is_supported_event_type(hook.events[j].as_str()) {
            assert(events[j as int] == hook.events@[j as int]@);
            return Err(message2("unsupported event hook event type: ", hook.events[j].as_str()));
        }
        j = j + 1;
    }
    Ok(())
}

/// Validates a complete configuration; `existing_paths` lists the watch paths that exist.
pub fn validate(config: &Config, existing_paths: &Vec<String>) -> (r: Result<(), ConfigError>)
    ensures
        match validation_error(config@, crate::diff::preview::strings_view(existing_paths@)) {
            Some(m) => r matches Err(e) && e@ == m,
            None => r is Ok,
        },
{
    let ghost existing = crate::diff::preview::strings_view(existing_paths@);
    if trim_str(config.run.cmd.as_str()).as_str().is_empty() {
        return Err(ConfigError::new(owned("run.cmd must not be empty")));
    }
    if config.watch.paths.len() == 0 && !config.once {
        return Err(ConfigError::new(owned("watch.paths must contain at least one path")));
    }
    if config.watch.debounce_ms == 0 {
        return Err(ConfigError::new(owned("watch.debounce_ms must be positive")));
    }
    if !(1 <= config.tui.left_panel_width && config.tui.left_panel_width <= 99) {
        return Err(ConfigError::new(owned("tui.left_panel_width must be between 1 and 99")));
    }
    let signal = config.run.kill_signal.as_str();
    if !(eq_str(signal, "term") || eq_str(signal, "kill") || eq_str(signal, "interrupt")) {
        return Err(ConfigError::new(owned("run.kill_signal must be term, kill, or interrupt")));
    }
    if !config.once {
        let ghost paths = config@.watch.paths;
        let mut i: usize = 0;
        while i < config.watch.paths.len()
            invariant
                i <= config.watch.paths.len(),
                paths == config@.watch.paths,
                basic_error(config@) is None,
                !config.once,
                existing == crate::diff::preview::strings_view(existing_paths@),
                first_missing(paths, existing, 0) == first_missing(paths, existing, i as nat),
            decreases config.watch.paths.len() - i,
        {
            if !contains_path(existing_paths, &config.watch.paths[i]) {
                assert(paths[i as int] == config.watch.paths@[i as int]@);
                return Err(message2("watch path does not exist: ", config.watch.paths[i].as_str()));
            }
            i = i + 1;
        }
    }
    let ghost hooks = config@.event_hooks;
    let mut k: usize = 0;
    while k < config.event_hooks.len()
        invariant
            k <= config.event_hooks.len(),
            hooks == config@.event_hooks,
            basic_error(config@) is None,
            config.once || first_missing(config@.watch.paths, existing, 0) is None,
            existing == crate::diff::preview::strings_view(existing_paths@),
            hooks_error(hooks, 0) == hooks_error(hooks, k as nat),
        decreases config.event_hooks.len() - k,
    {
        assert(hooks[k as int] == config.event_hooks@[k as int]@);
        let r = check_hook(&config.event_hooks[k]);
        if r.is_err() {
            return r;
        }
        k = k + 1;
    }
    Ok(())
}

/// The default configuration is valid wherever its watch paths exist.
pub proof fn law_defaults_valid(existing: Seq<Seq<char>>)
    requires
        existing.contains("src"@),
        existing.contains("crates"@),
        existing.contains("rumon.toml"@),
    ensures
        validation_error(crate::config::schema::default_config(), existing) is None,
{
    let c = crate::config::schema::default_config();
    reveal_strlit("cargo run");
    assert(trim_spec(c.run.cmd) == c.run.cmd) by {
        assert(!crate::text::is_space(c.run.cmd[0]));
        assert(c.run.cmd.last() == 'n');
    }
    assert(first_missing(c.watch.paths, existing, 3) is None);
    assert(first_missing(c.watch.paths, existing, 2) is None);
    assert(first_missing(c.watch.paths, existing, 1) is None);
    assert(first_missing(c.watch.paths, existing, 0) is None);
    assert(hooks_error(c.event_hooks, 0) is None);
}

proof fn lemma_first_missing_none(paths: Seq<Seq<char>>, existing: Seq<Seq<char>>, i: nat)
    ensures
        first_missing(paths, existing, i) is None <==> forall|k: int| i <= k < paths.len() ==> existing.contains(
            #[trigger] paths[k],
        ),
    decreases paths.len() - i,
{
    if i < paths.len() {
        lemma_first_missing_none(paths, existing, i + 1);
    }
}

proof fn lemma_first_unsupported_none(events: Seq<Seq<char>>, j: nat)
    ensures
        first_unsupported(events, j) is None <==> forall|k: int| j <= k < events.len() ==> supported_event(
            #[trigger] events[k],
        ),
    decreases events.len() - j,
{
    if j < events.len() {
        lemma_first_unsupported_none(events, j + 1);
    }
}

/// Whether an event hook is well formed: a name, at least one event and one path glob, and
/// only supported event types.
pub open spec fn hook_valid(h: EventHookView) -> bool {
    &&& trim_spec(h.name).len() > 0
    &&& h.events.len() > 0
    &&& h.paths.len() > 0
    &&& forall|k: int| 0 <= k < h.events.len() ==> supported_event(#[trigger] h.events[k])
}

proof fn lemma_hooks_error_none(hooks: Seq<EventHookView>, i: nat)
    ensures
        hooks_error(hooks, i) is None <==> forall|k: int| i <= k < hooks.len() ==> hook_valid(#[trigger] hooks[k]),
    decreases hooks.len() - i,
{
    if i < hooks.len() {
        lemma_hooks_error_none(hooks, i + 1);
        lemma_first_unsupported_none(hooks[i as int].events, 0);
    }
}

/// A configuration passes validation exactly when its command is not blank, it watches at
/// least one path (unless it runs once), its debounce window is positive, its panel width is
/// between 1 and 99, its kill signal is `term`, `kill` or `interrupt`, every watch path
/// exists (unless it runs once), and every event hook is well formed.
pub proof fn law_validation_conditions(c: ConfigView, existing: Seq<Seq<char>>)
    ensures
        validation_error(c, existing) is None <==> {
            &&& trim_spec(c.run.cmd).len() > 0
            &&& (c.once || c.watch.paths.len() > 0)
            &&& c.watch.debounce_ms > 0
            &&& 1 <= c.tui.left_panel_width <= 99
            &&& supported_signal(c.run.kill_signal)
            &&& (c.once || forall|k: int| 0 <= k < c.watch.paths.len() ==> existing.contains(#[trigger] c.watch.paths[k]))
            &&& forall|k: int| 0 <= k < c.event_hooks.len() ==> hook_valid(#[trigger] c.event_hooks[k])
        },
{
    lemma_first_missing_none(c.watch.paths, existing, 0);
    lemma_hooks_error_none(c.event_hooks, 0);
}

} // verus!
