//! Rule-based event hooks: compiling their globs and `when` rules, matching them against
//! changes, and planning the commands that matched hooks run.

use vstd::prelude::*;

use crate::config::schema::{EventHookConfig, EventHookView, opt_view};
use crate::diff::preview::{push_string, strings_view};
use crate::hooks::events::{EventType, event_name, event_of_name, matching_events, primary_event};
use crate::hooks::lexer::RuleError;
use crate::hooks::lifecycle::pairs_view;
use crate::hooks::parser::{Expr, ExprView, expr_view, parse_rule, parse_rule_spec};
use crate::shared::{ChangeDetail, ChangeDetailView, FileChange, FileChangeView};
use crate::text::{chars_of, decimal, lines_of, lines_spec, owned, pieces_view, push_decimal, push_signed, push_str, starts_with, string_from_chars, trim_spec, trim_str};

verus! {

/// What `globset::Glob::new` says of a pattern: nothing when it accepts it, else the text
/// of its error.
pub uninterp spec fn glob_check(pattern: Seq<char>) -> Option<Seq<char>>;

/// What `globset::GlobSetBuilder::build` says of a set of accepted patterns: nothing when it
/// builds the set, else the text of its error.
pub uninterp spec fn glob_set_check(patterns: Seq<Seq<char>>) -> Option<Seq<char>>;

/// Whether the `globset::GlobSet` built from these patterns matches a path.
pub uninterp spec fn glob_set_matches(patterns: Seq<Seq<char>>, path: Seq<char>) -> bool;

/// A compiled set of globs (`globset::GlobSet`).
#[verifier::external_type_specification]
#[verifier::external_body]
pub struct ExGlobSet(globset::GlobSet);

/// The patterns a glob set was built from, in order.
pub uninterp spec fn glob_set_patterns(set: globset::GlobSet) -> Seq<Seq<char>>;

/// Builds a `globset::GlobSet` from accepted patterns (`GlobSetBuilder::add` for each
/// `Glob::new`, in order, then `build`); the contract names the outcome: the set, built from
/// these patterns, when `build` succeeds, else the error's text.
#[verifier::external_body]
fn build_glob_set(patterns: &Vec<String>) -> (r: Result<globset::GlobSet, String>)
    requires
        forall|i: int| 0 <= i < patterns.len() ==> glob_check(#[trigger] patterns@[i]@) is None,
    ensures
        match r {
            Ok(set) => glob_set_check(strings_view(patterns@)) is None && glob_set_patterns(set) == strings_view(
                patterns@,
            ),
            Err(e) => glob_set_check(strings_view(patterns@)) == Some(e@),
        },
{
    let mut builder = globset::GlobSetBuilder::new();
    for pattern in patterns {
        if let Ok(glob) = globset::Glob::new(pattern) {
            builder.add(glob);
        }
    }
    builder.build().map_err(|error| error.to_string())
}

/// Matches a path against a glob set (`GlobSet::is_match`: whether any of its globs
/// matches); the contract names the outcome over the patterns the set was built from.
#[verifier::external_body]
fn glob_set_is_match(set: &globset::GlobSet, path: &str) -> (b: bool)
    ensures
        b == glob_set_matches(glob_set_patterns(*set), path@),
{
    set.is_match(path)
}

/// Checks a glob pattern with `globset::Glob::new`; the contract names the outcome: no error
/// for an accepted pattern, else the error's text.
#[verifier::external_body]
fn glob_error(pattern: &str) -> (r: Option<String>)
    ensures
        opt_view(r) == glob_check(pattern@),
{
    match globset::Glob::new(pattern) {
        Ok(_) => None,
        Err(error) => Some(error.to_string()),
    }
}

/// A hook configuration diagnostic that should be logged instead of crashing Rumon.
#[derive(Clone, Debug, PartialEq, Eq)]
pub struct EventHookDiagnostic {
    /// Hook name.
    pub hook_name: String,
    /// Diagnostic message.
    pub message: String,
}

/// A hook that matched a filesystem event.
#[derive(Clone, Debug, PartialEq, Eq)]
pub struct MatchedEventHook {
    /// Original hook configuration.
    pub config: EventHookConfig,
    /// Primary event type exported in the hook environment.
    pub event_type: EventType,
}

/// Match decision used for verbose diagnostics.
#[derive(Clone, Debug, PartialEq, Eq)]
pub struct EventHookDecision {
    /// Hook name.
    pub hook_name: String,
    /// Whether the hook matched.
    pub matched: bool,
    /// Human-readable reason.
    pub reason: String,
}

/// A compiled hook: its configuration, the event types it names, its globs with `/`
/// separators, and its parsed `when` rule.
#[derive(Debug)]
pub struct CompiledEventHook {
    /// Original hook configuration.
    pub config: EventHookConfig,
    /// Event types named by the configuration, unknown names left out.
    pub events: Vec<EventType>,
    /// Glob patterns, backslashes turned into slashes.
    pub paths: Vec<String>,
    /// The glob set built from `paths`.
    pub globs: globset::GlobSet,
    /// The `when` rule, when the configuration has one.
    pub when: Option<Expr>,
}

/// A glob with backslashes turned into slashes.
pub open spec fn normalized_glob(g: Seq<char>) -> Seq<char> {
    g.map_values(|c: char| if c == '\\' { '/' } else { c })
}

/// Turns backslashes into slashes.
pub fn normalize_glob(value: &str) -> (s: String)
    ensures
        s@ == normalized_glob(value@),
{
    let chars = chars_of(value);
    let mut out: Vec<char> = Vec::new();
    let mut i: usize = 0;
    while i < chars.len()
        invariant
            i <= chars.len(),
            out@ == normalized_glob(chars@.take(i as int)),
        decreases chars.len() - i,
    {
        out.push(if chars[i] == '\\' { '/' } else { chars[i] });
        assert(normalized_glob(chars@.take(i + 1)) =~= normalized_glob(chars@.take(i as int)).push(
            if chars@[i as int] == '\\' { '/' } else { chars@[i as int] },
        ));
        i = i + 1;
    }
    assert(chars@.take(chars.len() as int) == chars@);
    string_from_chars(out.as_slice())
}

/// The first glob of a hook that `globset` refuses, as the diagnostic it gives.
pub open spec fn first_glob_error(paths: Seq<Seq<char>>, i: nat) -> Option<Seq<char>>
    decreases paths.len() - i,
{
    if i >= paths.len() {
        None
    } else {
        match glob_check(normalized_glob(paths[i as int])) {
            Some(e) => Some("invalid glob '"@ + paths[i as int] + "': "@ + e),
            None => first_glob_error(paths, i + 1),
        }
    }
}

/// The event types named among `names[i..]`, unknown names left out.
pub open spec fn known_events(names: Seq<Seq<char>>, i: nat) -> Seq<EventType>
    decreases names.len() - i,
{
    if i >= names.len() {
        Seq::empty()
    } else {
        match event_of_name(names[i as int]) {
            Some(e) => seq![e] + known_events(names, i + 1),
            None => known_events(names, i + 1),
        }
    }
}

/// Why a hook does not compile: its first refused glob, else its `when` rule's error, else
/// the error of building the set of its globs.
pub open spec fn compile_failure(h: EventHookView) -> Option<Seq<char>> {
    match first_glob_error(h.paths, 0) {
        Some(e) => Some(e),
        None => {
            let when_error = if trim_spec(h.when).len() > 0 {
                match parse_rule_spec(h.when) {
                    Err(m) => Some("invalid when expression: "@ + m),
                    Ok(_) => None,
                }
            } else {
                None
            };
            match when_error {
                Some(e) => Some(e),
                None => match glob_set_check(h.paths.map_values(|p: Seq<char>| normalized_glob(p))) {
                    Some(e) => Some("invalid glob set: "@ + e),
                    None => None,
                },
            }
        },
    }
}

/// The mathematical content of a compiled hook.
pub struct CompiledView {
    pub config: EventHookView,
    pub events: Seq<EventType>,
    pub paths: Seq<Seq<char>>,
    pub set_patterns: Seq<Seq<char>>,
    pub when: Option<ExprView>,
}

impl View for CompiledEventHook {
    type V = CompiledView;

    open spec fn view(&self) -> CompiledView {
        CompiledView {
            config: self.config@,
            events: self.events@,
            paths: strings_view(self.paths@),
            set_patterns: glob_set_patterns(self.globs),
            when: match self.when {
                Some(e) => Some(expr_view(e)),
                None => None,
            },
        }
    }
}

/// The parsed `when` rule of a configuration: none when its text is blank (or does not
/// parse).
pub open spec fn when_rule(when: Seq<char>) -> Option<ExprView> {
    if trim_spec(when).len() > 0 {
        match parse_rule_spec(when) {
            Ok(e) => Some(e),
            Err(_) => None,
        }
    } else {
        None
    }
}

/// Whether a compiled hook is what its configuration compiles to.
pub open spec fn compiled_from(c: CompiledView, h: EventHookView) -> bool {
    &&& c.config == h
    &&& c.events == known_events(h.events, 0)
    &&& c.paths == h.paths.map_values(|p: Seq<char>| normalized_glob(p))
    &&& c.set_patterns == c.paths
    &&& c.when == when_rule(h.when)
    &&& forall|i: int| 0 <= i < c.paths.len() ==> glob_check(#[trigger] c.paths[i]) is None
    &&& glob_set_check(c.paths) is None
}

fn copy_strings(v: &Vec<String>) -> (out: Vec<String>)
    ensures
        strings_view(out@) == strings_view(v@),
{
    let mut out: Vec<String> = Vec::new();
    let mut i: usize = 0;
    while i < v.len()
        invariant
            i <= v.len(),
            strings_view(out@) == strings_view(v@).take(i as int),
        decreases v.len() - i,
    {
        push_string(&mut out, v[i].clone());
        assert(strings_view(v@).take(i + 1) == strings_view(v@).take(i as int).push(v@[i as int]@));
        i = i + 1;
    }
    assert(strings_view(v@).take(v.len() as int) == strings_view(v@));
    out
}

/// A copy of a hook configuration.
pub fn copy_hook(h: &EventHookConfig) -> (c: EventHookConfig)
    ensures
        c@ == h@,
{
    EventHookConfig {
        name: h.name.clone(),
        events: copy_strings(&h.events),
        paths: copy_strings(&h.paths),
        when: h.when.clone(),
        cmd: h.cmd.clone(),
    }
}

impl CompiledEventHook {
    /// Compiles a hook's globs and `when` rule; fails with the diagnostic of its first
    /// refused glob, of its `when` rule, or of building its glob set.
    pub fn new(config: EventHookConfig) -> (r: Result<CompiledEventHook, String>)
        ensures
            match compile_failure(config@) {
                Some(m) => r matches Err(e) && e@ == m,
                None => r matches Ok(c) && compiled_from(c@, config@),
            },
    {
        let ghost h = config@;
        let mut paths: Vec<String> = Vec::new();
        let mut i: usize = 0;
        while i < config.paths.len()
            invariant
                i <= config.paths.len(),
                h == config@,
                first_glob_error(h.paths, 0) == first_glob_error(h.paths, i as nat),
                strings_view(paths@) == h.paths.take(i as int).map_values(|p: Seq<char>| normalized_glob(p)),
                forall|k: int| 0 <= k < i ==> glob_check(#[trigger] strings_view(paths@)[k]) is None,
            decreases config.paths.len() - i,
        {
            assert(h.paths[i as int] == config.paths@[i as int]@);
            let normalized = normalize_glob(config.paths[i].as_str());
            if let Some(error) = glob_error(normalized.as_str()) {
                let mut m = owned("invalid glob '");
                push_str(&mut m, config.paths[i].as_str());
                push_str(&mut m, "': ");
                push_str(&mut m, error.as_str());
                return Err(m);
            }
            push_string(&mut paths, normalized);
            assert(h.paths.take(i + 1) == h.paths.take(i as int).push(h.paths[i as int]));
            assert(strings_view(paths@) =~= h.paths.take(i + 1).map_values(|p: Seq<char>| normalized_glob(p)));
            i = i + 1;
        }
        assert(h.paths.take(config.paths.len() as int) == h.paths);
        let rule = if trim_str(config.when.as_str()).as_str().is_empty() {
            None
        } else {
            match parse_rule(config.when.as_str()) {
                Ok(e) => Some(e),
                Err(error) => {
                    let mut m = owned("invalid when expression: ");
                    push_str(&mut m, error.message.as_str());
                    return Err(m);
                },
            }
        };
        proof {
            assert forall|q: int| 0 <= q < paths.len() implies glob_check(#[trigger] paths@[q]@) is None by {
                assert(strings_view(paths@)[q] == paths@[q]@);
            }
        }
        let globs = match build_glob_set(&paths) {
            Ok(set) => set,
            Err(error) => {
                let mut m = owned("invalid glob set: ");
                push_str(&mut m, error.as_str());
                return Err(m);
            },
        };
        let mut events: Vec<EventType> = Vec::new();
        let mut k = config.events.len();
        while k > 0
            invariant
                k <= config.events.len(),
                h == config@,
                events@ == known_events(h.events, k as nat),
            decreases k,
        {
            k = k - 1;
            assert(h.events[k as int] == config.events@[k as int]@);
            if let Some(e) = EventType::parse(config.events[k].as_str()) {
                events.insert(0, e);
                assert(events@ =~= seq![e] + known_events(h.events, (k + 1) as nat));
            }
        }
        Ok(CompiledEventHook { config, events, paths, globs, when: rule })
    }
}

/// Whether the glob set of these patterns matches a path.
pub open spec fn any_glob(paths: Seq<Seq<char>>, path: Seq<char>) -> bool {
    glob_set_matches(paths, path)
}

/// Whether one of the hook's event types is among those of the change.
pub open spec fn events_overlap(events: Seq<EventType>, matching: Seq<EventType>) -> bool {
    exists|i: int| 0 <= i < events.len() && matching.contains(#[trigger] events[i])
}

/// The decision for one hook: whether its event types, its globs (against the path, or the
/// old path of a rename) and its `when` rule all match, and the first reason that fails.
pub open spec fn decision_spec(c: CompiledView, change: FileChangeView, when_ok: bool) -> (bool, Seq<char>) {
    let event_ok = events_overlap(c.events, matching_events(change));
    let path_ok = any_glob(c.paths, change.path) || (change.previous_path matches Some(pp) && any_glob(c.paths, pp));
    let when_matches = c.when is None || when_ok;
    if event_ok && path_ok && when_matches {
        (true, "matched"@)
    } else if !event_ok {
        (false, "event did not match"@)
    } else if !path_ok {
        (false, "path did not match"@)
    } else {
        (false, "when evaluated false"@)
    }
}

/// The first of the hook's event types that the change answers to.
pub open spec fn first_matching_event(events: Seq<EventType>, matching: Seq<EventType>, i: nat) -> Option<EventType>
    decreases events.len() - i,
{
    if i >= events.len() {
        None
    } else if matching.contains(events[i as int]) {
        Some(events[i as int])
    } else {
        first_matching_event(events, matching, i + 1)
    }
}

fn contains_event(events: &Vec<EventType>, e: EventType) -> (b: bool)
    ensures
        b == events@.contains(e),
{
    let mut i: usize = 0;
    while i < events.len()
        invariant
            i <= events.len(),
            forall|k: int| 0 <= k < i ==> events@[k] != e,
        decreases events.len() - i,
    {
        if events[i] == e {
            return true;
        }
        i = i + 1;
    }
    false
}

fn first_event(events: &Vec<EventType>, matching: &Vec<EventType>) -> (r: Option<EventType>)
    ensures
        r == first_matching_event(events@, matching@, 0),
        r is None <==> !events_overlap(events@, matching@),
{
    let mut i: usize = 0;
    while i < events.len()
        invariant
            i <= events.len(),
            first_matching_event(events@, matching@, 0) == first_matching_event(events@, matching@, i as nat),
            forall|k: int| 0 <= k < i ==> !matching@.contains(#[trigger] events@[k]),
        decreases events.len() - i,
    {
        if contains_event(matching, events[i]) {
            return Some(events[i]);
        }
        i = i + 1;
    }
    None
}

impl CompiledEventHook {
    /// The decision for a change; `when_ok` is what the `when` rule evaluated to (it is not
    /// read when the hook has no rule).
    pub fn decision(&self, change: &FileChange, matching: &Vec<EventType>, when_ok: bool) -> (d: EventHookDecision)
        requires
            self@.set_patterns == self@.paths,
            matching@ == matching_events(change@),
        ensures
            d.hook_name@ == self.config.name@,
            (d.matched, d.reason@) == decision_spec(self@, change@, when_ok),
    {
        let event_ok = first_event(&self.events, matching).is_some();
        let path_ok = glob_set_is_match(&self.globs, change.path.as_str()) || match &change.previous_path {
            Some(pp) => glob_set_is_match(&self.globs, pp.as_str()),
            None => false,
        };
        let when_matches = self.when.is_none() || when_ok;
        let matched = event_ok && path_ok && when_matches;
        let reason = if matched {
            owned("matched")
        } else if !event_ok {
            owned("event did not match")
        } else if !path_ok {
            owned("path did not match")
        } else {
            owned("when evaluated false")
        };
        EventHookDecision { hook_name: self.config.name.clone(), matched, reason }
    }
}

/// Matches rule-based event hooks.
#[derive(Debug)]
pub struct EventHookMatcher {
    rules: Vec<CompiledEventHook>,
    diagnostics: Vec<EventHookDiagnostic>,
}

/// The names and messages of diagnostics.
pub open spec fn diagnostics_view(d: Seq<EventHookDiagnostic>) -> Seq<(Seq<char>, Seq<char>)> {
    d.map_values(|x: EventHookDiagnostic| (x.hook_name@, x.message@))
}

/// The hooks among `hooks[..n]` that compile, and the diagnostics of those that do not.
pub open spec fn compiled_hooks(hooks: Seq<EventHookView>) -> Seq<EventHookView>
    decreases hooks.len(),
{
    if hooks.len() == 0 {
        Seq::empty()
    } else if compile_failure(hooks.last()) is Some {
        compiled_hooks(hooks.drop_last())
    } else {
        compiled_hooks(hooks.drop_last()).push(hooks.last())
    }
}

/// The diagnostics of the hooks that do not compile, in order.
pub open spec fn hook_diagnostics(hooks: Seq<EventHookView>) -> Seq<(Seq<char>, Seq<char>)>
    decreases hooks.len(),
{
    if hooks.len() == 0 {
        Seq::empty()
    } else {
        match compile_failure(hooks.last()) {
            Some(m) => hook_diagnostics(hooks.drop_last()).push((hooks.last().name, m)),
            None => hook_diagnostics(hooks.drop_last()),
        }
    }
}

impl EventHookMatcher {
    /// Whether the matcher holds compiled hooks only.
    pub closed spec fn well_formed(&self) -> bool {
        forall|i: int| 0 <= i < self.rules@.len() ==> (#[trigger] self.rules@[i]@).set_patterns == self.rules@[i]@.paths
    }

    /// The diagnostics, as hook names and messages.
    pub closed spec fn diagnostic_views(&self) -> Seq<(Seq<char>, Seq<char>)> {
        diagnostics_view(self.diagnostics@)
    }

    /// The compiled hooks, in configuration order.
    pub closed spec fn rule_views(&self) -> Seq<CompiledView> {
        self.rules@.map_values(|r: CompiledEventHook| r@)
    }

    /// Compiles configured hook globs and rule expressions; hooks that do not compile become
    /// diagnostics.
    pub fn new(configs: &[EventHookConfig]) -> (m: Self)
        ensures
            m.well_formed(),
            m.rule_views().len() == compiled_hooks(configs@.map_values(|h: EventHookConfig| h@)).len(),
            forall|i: int| 0 <= i < m.rule_views().len() ==> compiled_from(
                #[trigger] m.rule_views()[i],
                compiled_hooks(configs@.map_values(|h: EventHookConfig| h@))[i],
            ),
            m.diagnostic_views() == hook_diagnostics(configs@.map_values(|h: EventHookConfig| h@)),
    {
        let ghost hv = configs@.map_values(|h: EventHookConfig| h@);
        let mut rules: Vec<CompiledEventHook> = Vec::new();
        let mut diagnostics: Vec<EventHookDiagnostic> = Vec::new();
        let mut i: usize = 0;
        while i < configs.len()
            invariant
                i <= configs.len(),
                hv == configs@.map_values(|h: EventHookConfig| h@),
                rules@.len() == compiled_hooks(hv.take(i as int)).len(),
                forall|k: int| 0 <= k < rules@.len() ==> compiled_from(
                    #[trigger] rules@[k]@,
                    compiled_hooks(hv.take(i as int))[k],
                ),
                diagnostics_view(diagnostics@) == hook_diagnostics(hv.take(i as int)),
            decreases configs.len() - i,
        {
            assert(hv.take(i + 1).drop_last() == hv.take(i as int));
            assert(hv.take(i + 1).last() == configs@[i as int]@);
            match CompiledEventHook::new(copy_hook(&configs[i])) {
                Ok(rule) => {
                    let ghost before = rules@;
                    rules.push(rule);
                    assert forall|k: int| 0 <= k < rules@.len() implies compiled_from(
                        #[trigger] rules@[k]@,
                        compiled_hooks(hv.take(i + 1))[k],
                    ) by {
                        if k < before.len() {
                            assert(rules@[k] == before[k]);
                        }
                    }
                },
                Err(message) => {
                    let ghost before = diagnostics@;
                    diagnostics.push(EventHookDiagnostic { hook_name: configs[i].name.clone(), message });
                    assert(diagnostics_view(diagnostics@) =~= diagnostics_view(before).push((configs@[i as int].name@, message@)));
                },
            }
            i = i + 1;
        }
        assert(hv.take(configs.len() as int) == hv);
        let m = EventHookMatcher { rules, diagnostics };
        assert forall|r: int| 0 <= r < m.rules@.len() implies (#[trigger] m.rules@[r]@).set_patterns == m.rules@[r]@.paths by {
            assert(compiled_from(m.rules@[r]@, compiled_hooks(hv)[r]));
        }
        assert(m.rule_views().len() == m.rules@.len());
        m
    }

    /// Returns diagnostics found while compiling hook rules.
    pub fn diagnostics(&self) -> (d: &Vec<EventHookDiagnostic>)
        ensures
            diagnostics_view(d@) == self.diagnostic_views(),
    {
        &self.diagnostics
    }

    /// The compiled hooks, in configuration order.
    pub fn rules(&self) -> (r: &Vec<CompiledEventHook>)
        ensures
            r@.map_values(|x: CompiledEventHook| x@) == self.rule_views(),
    {
        &self.rules
    }

    /// Returns the match decisions for all compiled hooks; `whens[i]` is what the `when` rule
    /// of the `i`-th compiled hook evaluated to.
    pub fn decisions(&self, change: &FileChange, whens: &Vec<bool>) -> (ds: Vec<EventHookDecision>)
        requires
            self.well_formed(),
            whens.len() == self.rule_views().len(),
        ensures
            ds.len() == self.rule_views().len(),
            forall|i: int| 0 <= i < ds.len() ==> (#[trigger] ds@[i].matched, ds@[i].reason@)
                == decision_spec(self.rule_views()[i], change@, whens@[i]),
    {
        let matching = EventType::matching_types(change);
        let mut ds: Vec<EventHookDecision> = Vec::new();
        let mut i: usize = 0;
        while i < self.rules.len()
            invariant
                i <= self.rules.len(),
                self.well_formed(),
                whens.len() == self.rules.len(),
                matching@ == matching_events(change@),
                ds.len() == i,
                forall|k: int| 0 <= k < i ==> (#[trigger] ds@[k].matched, ds@[k].reason@)
                    == decision_spec(self.rules@[k]@, change@, whens@[k]),
            decreases self.rules.len() - i,
        {
            let d = self.rules[i].decision(change, &matching, whens[i]);
            ds.push(d);
            i = i + 1;
        }
        ds
    }

    /// Returns the hooks matching the change, in configuration order, each with the first of
    /// its event types that the change answers to; `whens` is as for `decisions`.
    pub fn matches(&self, change: &FileChange, whens: &Vec<bool>) -> (ms: Vec<MatchedEventHook>)
        requires
            self.well_formed(),
            whens.len() == self.rule_views().len(),
        ensures
            ms@.map_values(|m: MatchedEventHook| (m.config@, m.event_type)) == matched_hooks(
                self.rule_views(),
                change@,
                whens@,
            ),
    {
        let matching = EventType::matching_types(change);
        let ghost rv = self.rule_views();
        let mut ms: Vec<MatchedEventHook> = Vec::new();
        let mut i: usize = 0;
        while i < self.rules.len()
            invariant
                i <= self.rules.len(),
                self.well_formed(),
                rv == self.rule_views(),
                whens.len() == self.rules.len(),
                matching@ == matching_events(change@),
                ms@.map_values(|m: MatchedEventHook| (m.config@, m.event_type)) == matched_hooks(
                    rv.take(i as int),
                    change@,
                    whens@.take(i as int),
                ),
            decreases self.rules.len() - i,
        {
            let rule = &self.rules[i];
            assert(rv[i as int] == rule@);
            assert(rv.take(i + 1).drop_last() == rv.take(i as int));
            assert(whens@.take(i + 1).drop_last() == whens@.take(i as int));
            let d = rule.decision(change, &matching, whens[i]);
            if d.matched {
                if let Some(event_type) = first_event(&rule.events, &matching) {
                    let ghost before = ms@;
                    ms.push(MatchedEventHook { config: copy_hook(&rule.config), event_type });
                    assert(ms@.map_values(|m: MatchedEventHook| (m.config@, m.event_type)) =~= before.map_values(
                        |m: MatchedEventHook| (m.config@, m.event_type),
                    ).push((rule.config@, event_type)));
                }
            }
            i = i + 1;
        }
        assert(rv.take(self.rules.len() as int) == rv);
        assert(whens@.take(self.rules.len() as int) == whens@);
        ms
    }
}

/// The hooks that match a change, in order, with the event type each is run for.
pub open spec fn matched_hooks(rules: Seq<CompiledView>, change: FileChangeView, whens: Seq<bool>) -> Seq<(EventHookView, EventType)>
    decreases rules.len(),
{
    if rules.len() == 0 || whens.len() != rules.len() {
        Seq::empty()
    } else {
        let rest = matched_hooks(rules.drop_last(), change, whens.drop_last());
        let r = rules.last();
        if decision_spec(r, change, whens.last()).0 {
            match first_matching_event(r.events, matching_events(change), 0) {
                Some(e) => rest.push((r.config, e)),
                None => rest,
            }
        } else {
            rest
        }
    }
}

proof fn lemma_first_matching_event(events: Seq<EventType>, matching: Seq<EventType>, i: nat)
    ensures
        first_matching_event(events, matching, i) matches Some(e) ==> events.contains(e) && matching.contains(e),
    decreases events.len() - i,
{
    if i < events.len() && !matching.contains(events[i as int]) {
        lemma_first_matching_event(events, matching, i + 1);
    }
}

/// A hook is run for a change only when its decision says it matched, and only for an event
/// type that it subscribes to and that the change answers to.
pub proof fn law_matched_hooks_sound(rules: Seq<CompiledView>, change: FileChangeView, whens: Seq<bool>)
    requires
        whens.len() == rules.len(),
    ensures
        forall|k: int| 0 <= k < matched_hooks(rules, change, whens).len() ==> ({
            let (h, e) = #[trigger] matched_hooks(rules, change, whens)[k];
            &&& matching_events(change).contains(e)
            &&& exists|j: int| 0 <= j < rules.len() && rules[j].config == h && rules[j].events.contains(e)
                && decision_spec(rules[j], change, whens[j]).0
        }),
    decreases rules.len(),
{
    if rules.len() > 0 {
        let init = rules.drop_last();
        let winit = whens.drop_last();
        law_matched_hooks_sound(init, change, winit);
        let r = rules.last();
        lemma_first_matching_event(r.events, matching_events(change), 0);
        let m = matched_hooks(rules, change, whens);
        let rest = matched_hooks(init, change, winit);
        assert forall|k: int| 0 <= k < m.len() implies ({
            let (h, e) = #[trigger] m[k];
            &&& matching_events(change).contains(e)
            &&& exists|j: int| 0 <= j < rules.len() && rules[j].config == h && rules[j].events.contains(e)
                && decision_spec(rules[j], change, whens[j]).0
        }) by {
            if k < rest.len() {
                let (h, e) = rest[k];
                assert(m[k] == rest[k]);
                let j = choose|j: int| 0 <= j < init.len() && init[j].config == h && init[j].events.contains(e)
                    && decision_spec(init[j], change, winit[j]).0;
                assert(rules[j] == init[j] && whens[j] == winit[j]);
            } else {
                let j = rules.len() - 1;
                assert(rules[j] == r && whens[j] == whens.last());
            }
        }
    }
}

/// The lines of a text preview marked as added (`+`, but not `+++`) and removed (`-`, but
/// not `---`).
pub open spec fn count_marked(preview: Seq<Seq<char>>, mark: char) -> nat
    decreases preview.len(),
{
    if preview.len() == 0 {
        0
    } else {
        let l = preview.last();
        count_marked(preview.drop_last(), mark) + if starts_with(l, seq![mark]) && !starts_with(l, seq![mark, mark, mark]) {
            1nat
        } else {
            0nat
        }
    }
}

/// The added and removed line counts of a change's text detail; zero without one.
pub open spec fn diff_stats_spec(c: FileChangeView) -> (nat, nat) {
    match c.detail {
        Some(ChangeDetailView::Text { preview, .. }) => (count_marked(preview, '+'), count_marked(preview, '-')),
        _ => (0, 0),
    }
}

fn marked_line(line: &String, mark: char) -> (b: bool)
    ensures
        b == (starts_with(line@, seq![mark]) && !starts_with(line@, seq![mark, mark, mark])),
{
    let c = chars_of(line.as_str());
    let one = c.len() >= 1 && c[0] == mark;
    let three = c.len() >= 3 && c[0] == mark && c[1] == mark && c[2] == mark;
    assert(one == starts_with(c@, seq![mark])) by {
        if c.len() >= 1 {
            assert(c@.take(1) =~= seq![c@[0]]);
            assert(c@.take(1)[0] == c@[0]);
            assert(seq![mark][0] == mark);
        }
    }
    assert(three == starts_with(c@, seq![mark, mark, mark])) by {
        if c.len() >= 3 {
            assert(c@.take(3) =~= seq![c@[0], c@[1], c@[2]]);
            assert(c@.take(3)[0] == c@[0] && c@.take(3)[1] == c@[1] && c@.take(3)[2] == c@[2]);
            assert(seq![mark, mark, mark][1] == mark && seq![mark, mark, mark][2] == mark);
        }
    }
    one && !three
}

/// Counts the added and removed lines of a change's text preview.
pub fn diff_stats(change: &FileChange) -> (r: (usize, usize))
    ensures
        (r.0 as nat, r.1 as nat) == diff_stats_spec(change@),
{
    match &change.detail {
        Some(ChangeDetail::Text { preview, .. }) => {
            let ghost pv = strings_view(preview@);
            let mut added: usize = 0;
            let mut removed: usize = 0;
            let mut i: usize = 0;
            while i < preview.len()
                invariant
                    i <= preview.len(),
                    pv == strings_view(preview@),
                    added == count_marked(pv.take(i as int), '+'),
                    removed == count_marked(pv.take(i as int), '-'),
                    added <= i,
                    removed <= i,
                decreases preview.len() - i,
            {
                assert(pv.take(i + 1).drop_last() == pv.take(i as int));
                assert(pv[i as int] == preview@[i as int]@);
                if marked_line(&preview[i], '+') {
                    added = added + 1;
                }
                if marked_line(&preview[i], '-') {
                    removed = removed + 1;
                }
                i = i + 1;
            }
            assert(pv.take(preview.len() as int) == pv);
            (added, removed)
        },
        _ => (0, 0),
    }
}

/// The variables a rule-based hook runs with, sorted by name: the counts of added and
/// removed lines, the event type, the hook name, the new and old paths of a rename, the
/// path, and the profile (empty when none is active).
pub open spec fn hook_environment(c: FileChangeView, event: EventType, hook_name: Seq<char>, profile: Option<Seq<char>>) -> Seq<(Seq<char>, Seq<char>)> {
    let (added, removed) = diff_stats_spec(c);
    seq![
        ("RUMON_ADDED_LINES"@, decimal(added)),
        ("RUMON_EVENT_TYPE"@, event_name(event)),
        ("RUMON_HOOK_NAME"@, hook_name),
        ("RUMON_NEW_PATH"@, if c.previous_path is Some { c.path } else { Seq::empty() }),
        ("RUMON_OLD_PATH"@, match c.previous_path {
            Some(pp) => pp,
            None => Seq::empty(),
        }),
        ("RUMON_PATH"@, c.path),
        ("RUMON_PROFILE"@, match profile {
            Some(p) => p,
            None => Seq::empty(),
        }),
        ("RUMON_REMOVED_LINES"@, decimal(removed)),
    ]
}

/// The environment variables of a rule-based hook run, sorted by name.
pub fn environment(change: &FileChange, event_type: EventType, hook_name: &str, profile: Option<&str>) -> (vars: Vec<(String, String)>)
    ensures
        pairs_view(vars@) == hook_environment(
            change@,
            event_type,
            hook_name@,
            match profile {
                Some(p) => Some(p@),
                None => None,
            },
        ),
{
    let (added, removed) = diff_stats(change);
    let mut vars: Vec<(String, String)> = Vec::new();
    let mut a = String::new();
    push_decimal(&mut a, added as u64);
    vars.push((owned("RUMON_ADDED_LINES"), a));
    vars.push((owned("RUMON_EVENT_TYPE"), owned(event_type.as_str())));
    vars.push((owned("RUMON_HOOK_NAME"), owned(hook_name)));
    let new_path = match &change.previous_path {
        Some(_) => change.path.clone(),
        None => String::new(),
    };
    vars.push((owned("RUMON_NEW_PATH"), new_path));
    let old_path = match &change.previous_path {
        Some(pp) => pp.clone(),
        None => String::new(),
    };
    vars.push((owned("RUMON_OLD_PATH"), old_path));
    vars.push((owned("RUMON_PATH"), change.path.clone()));
    let p = match profile {
        Some(p) => owned(p),
        None => String::new(),
    };
    vars.push((owned("RUMON_PROFILE"), p));
    let mut r = String::new();
    push_decimal(&mut r, removed as u64);
    vars.push((owned("RUMON_REMOVED_LINES"), r));
    assert(pairs_view(vars@) =~= hook_environment(
        change@,
        event_type,
        hook_name@,
        match profile {
            Some(p) => Some(p@),
            None => None,
        },
    ));
    vars
}

/// Output from a matched event hook execution.
#[derive(Clone, Debug, PartialEq, Eq)]
pub struct EventHookExecution {
    /// Hook name.
    pub name: String,
    /// Event type exported to the hook.
    pub event_type: EventType,
    /// Captured command output.
    pub output: crate::hooks::lifecycle::HookOutput,
}

/// The log a hook line goes to.
#[derive(Clone, Copy, Debug, PartialEq, Eq, Structural)]
pub enum HookLogKind {
    /// The hook's standard output.
    Stdout,
    /// The hook's standard error.
    Stderr,
    /// A message of the runtime.
    System,
}

/// The log lines of one output stream of a hook, each tagged with the hook's name.
pub open spec fn tagged_lines(name: Seq<char>, text: Seq<char>, kind: HookLogKind) -> Seq<(HookLogKind, Seq<char>)> {
    lines_spec(text).map_values(|l: Seq<char>| (kind, "[hook:"@ + name + "] "@ + l))
}

/// The log lines of a hook execution: each stdout line, each stderr line, and a note of the
/// exit code when the hook did not succeed.
pub open spec fn execution_log_spec(e: EventHookExecution) -> Seq<(HookLogKind, Seq<char>)> {
    let lines = tagged_lines(e.name@, e.output.stdout@, HookLogKind::Stdout) + tagged_lines(
        e.name@,
        e.output.stderr@,
        HookLogKind::Stderr,
    );
    if e.output.exit_code == Some(0i32) && !e.output.timed_out {
        lines
    } else {
        lines.push(
            (
                HookLogKind::System,
                "event hook '"@ + e.name@ + "' exited with "@ + crate::hooks::lifecycle::debug_exit_code(e.output.exit_code),
            ),
        )
    }
}

/// The view of tagged log lines.
pub open spec fn tagged_view(v: Seq<(HookLogKind, String)>) -> Seq<(HookLogKind, Seq<char>)> {
    v.map_values(|p: (HookLogKind, String)| (p.0, p.1@))
}

fn push_tagged(out: &mut Vec<(HookLogKind, String)>, name: &str, text: &str, kind: HookLogKind)
    ensures
        tagged_view(final(out)@) == tagged_view(old(out)@) + tagged_lines(name@, text@, kind),
{
    let lines = lines_of(text);
    let ghost start = tagged_view(out@);
    let ghost lv = pieces_view(lines@);
    let mut i: usize = 0;
    while i < lines.len()
        invariant
            i <= lines.len(),
            lv == pieces_view(lines@),
            lv == lines_spec(text@),
            tagged_view(out@) == start + lv.take(i as int).map_values(|l: Seq<char>| (kind, "[hook:"@ + name@ + "] "@ + l)),
        decreases lines.len() - i,
    {
        let mut line = owned("[hook:");
        push_str(&mut line, name);
        push_str(&mut line, "] ");
        let piece = string_from_chars(lines[i].as_slice());
        push_str(&mut line, piece.as_str());
        let ghost before = out@;
        out.push((kind, line));
        assert(lv.take(i + 1) == lv.take(i as int).push(lv[i as int]));
        assert(tagged_view(out@) =~= tagged_view(before).push((kind, line@)));
        assert(lv.take(i + 1).map_values(|l: Seq<char>| (kind, "[hook:"@ + name@ + "] "@ + l)) =~= lv.take(
            i as int,
        ).map_values(|l: Seq<char>| (kind, "[hook:"@ + name@ + "] "@ + l)).push((kind, line@)));
        i = i + 1;
    }
    assert(lv.take(lines.len() as int) == lv);
}

impl EventHookExecution {
    /// The log lines of the execution (see [`execution_log_spec`]).
    pub fn log_lines(&self) -> (lines: Vec<(HookLogKind, String)>)
        ensures
            tagged_view(lines@) == execution_log_spec(*self),
    {
        let mut lines: Vec<(HookLogKind, String)> = Vec::new();
        assert(tagged_view(lines@) =~= Seq::<(HookLogKind, Seq<char>)>::empty());
        push_tagged(&mut lines, self.name.as_str(), self.output.stdout.as_str(), HookLogKind::Stdout);
        push_tagged(&mut lines, self.name.as_str(), self.output.stderr.as_str(), HookLogKind::Stderr);
        let ghost both = tagged_lines(self.name@, self.output.stdout@, HookLogKind::Stdout) + tagged_lines(
            self.name@,
            self.output.stderr@,
            HookLogKind::Stderr,
        );
        assert(tagged_view(lines@) =~= both);
        if !self.output.succeeded() {
            let mut note = owned("event hook '");
            push_str(&mut note, self.name.as_str());
            push_str(&mut note, "' exited with ");
            match self.output.exit_code {
                Some(code) => {
                    push_str(&mut note, "Some(");
                    push_signed(&mut note, code as i64);
                    push_str(&mut note, ")");
                },
                None => {
                    push_str(&mut note, "None");
                },
            }
            assert(note@ =~= "event hook '"@ + self.name@ + "' exited with "@ + crate::hooks::lifecycle::debug_exit_code(
                self.output.exit_code,
            ));
            let ghost before = lines@;
            lines.push((HookLogKind::System, note));
            assert(tagged_view(lines@) =~= tagged_view(before).push((HookLogKind::System, note@)));
        }
        lines
    }
}

/// A hook command to run for a change: the hook's name, the event type, the command and
/// its environment.
#[derive(Clone, Debug, PartialEq, Eq)]
pub struct PlannedHookRun {
    /// Hook name.
    pub name: String,
    /// Event type exported to the hook.
    pub event_type: EventType,
    /// Command to run.
    pub cmd: String,
    /// Environment variables, sorted by name.
    pub environment: Vec<(String, String)>,
}

/// The runs for the matched hooks whose command is not blank, in order.
pub open spec fn planned_runs(matched: Seq<(EventHookView, EventType)>, change: FileChangeView, profile: Option<Seq<char>>) -> Seq<(Seq<char>, EventType, Seq<char>, Seq<(Seq<char>, Seq<char>)>)>
    decreases matched.len(),
{
    if matched.len() == 0 {
        Seq::empty()
    } else {
        let rest = planned_runs(matched.drop_last(), change, profile);
        let (h, e) = matched.last();
        if trim_spec(h.cmd).len() > 0 {
            rest.push((h.name, e, h.cmd, hook_environment(change, e, h.name, profile)))
        } else {
            rest
        }
    }
}

/// Matches rule-based event hooks and plans the commands they run.
#[derive(Debug)]
pub struct EventHookRunner {
    matcher: EventHookMatcher,
    profile: Option<String>,
}

impl EventHookRunner {
    /// The hook matcher.
    pub closed spec fn matcher_spec(&self) -> &EventHookMatcher {
        &self.matcher
    }

    /// The active profile.
    pub closed spec fn profile_spec(&self) -> Option<Seq<char>> {
        opt_view(self.profile)
    }

    /// Creates an event hook runner from config.
    pub fn new(hooks: &[EventHookConfig], profile: Option<String>) -> (r: Self)
        ensures
            r.matcher_spec().well_formed(),
            r.matcher_spec().rule_views().len() == compiled_hooks(hooks@.map_values(|h: EventHookConfig| h@)).len(),
            forall|i: int| 0 <= i < r.matcher_spec().rule_views().len() ==> compiled_from(
                #[trigger] r.matcher_spec().rule_views()[i],
                compiled_hooks(hooks@.map_values(|h: EventHookConfig| h@))[i],
            ),
            r.matcher_spec().diagnostic_views() == hook_diagnostics(hooks@.map_values(|h: EventHookConfig| h@)),
            r.profile_spec() == opt_view(profile),
    {
        EventHookRunner { matcher: EventHookMatcher::new(hooks), profile }
    }

    /// The hook matcher.
    pub fn matcher(&self) -> (m: &EventHookMatcher)
        ensures
            m == self.matcher_spec(),
    {
        &self.matcher
    }

    /// Returns hook rule diagnostics collected during compilation.
    pub fn diagnostics(&self) -> (d: &Vec<EventHookDiagnostic>)
        ensures
            diagnostics_view(d@) == self.matcher_spec().diagnostic_views(),
    {
        self.matcher.diagnostics()
    }

    /// Returns the match decisions for a filesystem change; `whens` is as for the matcher.
    pub fn decisions(&self, change: &FileChange, whens: &Vec<bool>) -> (ds: Vec<EventHookDecision>)
        requires
            self.matcher_spec().well_formed(),
            whens.len() == self.matcher_spec().rule_views().len(),
        ensures
            ds.len() == self.matcher_spec().rule_views().len(),
            forall|i: int| 0 <= i < ds.len() ==> (#[trigger] ds@[i].matched, ds@[i].reason@)
                == decision_spec(self.matcher_spec().rule_views()[i], change@, whens@[i]),
    {
        self.matcher.decisions(change, whens)
    }

    /// Plans every matching hook with a command for a filesystem change; the caller runs
    /// the commands. `whens` is as for the matcher.
    pub fn run_matching(&self, change: &FileChange, whens: &Vec<bool>) -> (runs: Vec<PlannedHookRun>)
        requires
            self.matcher_spec().well_formed(),
            whens.len() == self.matcher_spec().rule_views().len(),
        ensures
            runs@.map_values(|r: PlannedHookRun| (r.name@, r.event_type, r.cmd@, pairs_view(r.environment@)))
                == planned_runs(
                matched_hooks(self.matcher_spec().rule_views(), change@, whens@),
                change@,
                self.profile_spec(),
            ),
    {
        let matched = self.matcher.matches(change, whens);
        let ghost mv = matched@.map_values(|m: MatchedEventHook| (m.config@, m.event_type));
        let mut runs: Vec<PlannedHookRun> = Vec::new();
        let mut i: usize = 0;
        while i < matched.len()
            invariant
                i <= matched.len(),
                mv == matched@.map_values(|m: MatchedEventHook| (m.config@, m.event_type)),
                runs@.map_values(|r: PlannedHookRun| (r.name@, r.event_type, r.cmd@, pairs_view(r.environment@)))
                    == planned_runs(mv.take(i as int), change@, self.profile_spec()),
            decreases matched.len() - i,
        {
            assert(mv.take(i + 1).drop_last() == mv.take(i as int));
            let m = &matched[i];
            if !trim_str(m.config.cmd.as_str()).as_str().is_empty() {
                let profile = match &self.profile {
                    Some(p) => Some(p.as_str()),
                    None => None,
                };
                let environment = environment(change, m.event_type, m.config.name.as_str(), profile);
                let ghost before = runs@;
                runs.push(PlannedHookRun {
                    name: m.config.name.clone(),
                    event_type: m.event_type,
                    cmd: m.config.cmd.clone(),
                    environment,
                });
                assert(runs@.map_values(|r: PlannedHookRun| (r.name@, r.event_type, r.cmd@, pairs_view(r.environment@)))
                    =~= before.map_values(|r: PlannedHookRun| (r.name@, r.event_type, r.cmd@, pairs_view(r.environment@))).push(
                    (m.config.name@, m.event_type, m.config.cmd@, pairs_view(environment@)),
                ));
            }
            i = i + 1;
        }
        assert(mv.take(matched.len() as int) == mv);
        runs
    }
}

/// The log line of a decision: `event hook 'NAME' matched: REASON` or `... skipped: ...`.
pub fn decision_log_line(d: &EventHookDecision) -> (s: String)
    ensures
        s@ == "event hook '"@ + d.hook_name@ + "' "@ + (if d.matched { "matched"@ } else { "skipped"@ }) + ": "@
            + d.reason@,
{
    let mut s = owned("event hook '");
    push_str(&mut s, d.hook_name.as_str());
    push_str(&mut s, "' ");
    push_str(&mut s, if d.matched { "matched" } else { "skipped" });
    push_str(&mut s, ": ");
    push_str(&mut s, d.reason.as_str());
    s
}

/// The log line of a diagnostic: `event hook 'NAME' skipped: MESSAGE`.
pub fn diagnostic_log_line(d: &EventHookDiagnostic) -> (s: String)
    ensures
        s@ == "event hook '"@ + d.hook_name@ + "' skipped: "@ + d.message@,
{
    let mut s = owned("event hook '");
    push_str(&mut s, d.hook_name.as_str());
    push_str(&mut s, "' skipped: ");
    push_str(&mut s, d.message.as_str());
    s
}

} // verus!
