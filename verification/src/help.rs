//! Help over the command registry: the registry's commands and topics, the
//! help a topic gives, the search over topics, commands and script
//! packages, and the completions of a prefix.
use vstd::prelude::*;
use crate::command::{CommandOutput, CommandSurface};
use crate::registry::{
    family_line, family_matches, find_command, find_family, first_command, format_command_line,
    overview_lines, synopsis_on, CommandDescriptor, CommandFamily,
};
use crate::repository::{ascii_lower, ascii_lowercase, to_ascii_lower};
use crate::strmap::{sorted_keys};
use crate::repository_model::{members, sorted_unique, with_members};
use crate::text::{
    contains_seq, join, joined, owned, push_char, push_str, starts_with, str_contains, strip_prefix,
    trim, trim_str, views,
};

verus! {

/// A function that a script package exports.
#[derive(Clone, Debug, PartialEq, Eq)]
pub struct ScriptExport {
    pub name: String,
    pub summary: String,
}

/// What help says of a script package.
#[derive(Clone, Debug, PartialEq, Eq)]
pub struct ScriptPackageInfo {
    pub name: String,
    pub aliases: Vec<String>,
    pub summary: String,
    pub notes: Vec<String>,
    pub exports: Vec<ScriptExport>,
    pub legacy_references: Vec<String>,
}

fn described(key: &str, synopsis: &str, summary: &str, tui_supported: bool) -> (r: CommandDescriptor)
    ensures
        r.key@ == key@,
        r.synopsis@ == synopsis@,
        r.summary@ == summary@,
        r.aliases@.len() == 0,
        r.tui_supported == tui_supported,
{
    CommandDescriptor {
        key: owned(key),
        synopsis: owned(synopsis),
        summary: owned(summary),
        aliases: Vec::new(),
        tui_supported,
    }
}

fn topic(name: &str, summary: &str) -> (r: CommandFamily)
    ensures
        r.topic@ == name@,
        r.summary@ == summary@,
        r.aliases@.len() == 0,
        r.commands@.len() == 0,
        r.notes@.len() == 0,
        r.examples@.len() == 0,
{
    CommandFamily {
        topic: owned(name),
        aliases: Vec::new(),
        summary: owned(summary),
        commands: Vec::new(),
        notes: Vec::new(),
        examples: Vec::new(),
    }
}

/// The commands, in the order that help lists them.
pub fn command_registry() -> (r: Vec<CommandDescriptor>)
    ensures
        r@.len() == 74,
{
    let mut out: Vec<CommandDescriptor> = Vec::new();
    let mut c = described("dashboard", "dashboard [execution|control|target]", "switch or render debugger-grade dashboard layouts for long sessions", true);
    c.aliases.push(owned("dashboard execution"));
    c.aliases.push(owned("dashboard control"));
    c.aliases.push(owned("dashboard target"));
    out.push(c);
    let mut c = described("history", "history [count]", "show recent command history, including persisted entries when available", true);
    out.push(c);
    let mut c = described("attach", "attach", "attach to the configured target", true);
    out.push(c);
    let mut c = described("session", "session | status", "show the active session summary and capabilities", true);
    c.aliases.push(owned("status"));
    out.push(c);
    let mut c = described("pump", "pump", "capture newly emitted events from the target", true);
    out.push(c);
    let mut c = described("pause", "pause", "request a target pause", true);
    out.push(c);
    let mut c = described("resume", "resume", "resume target execution", true);
    out.push(c);
    let mut c = described("step", "step", "step the target once where the adapter supports it", true);
    out.push(c);
    let mut c = described("snapshot", "snapshot <reason>", "capture a live snapshot through the shared control API", true);
    out.push(c);
    let mut c = described("snapshots", "snapshots", "list durable snapshots for the active session", false);
    out.push(c);
    let mut c = described("snapshot-show", "snapshot-show <snapshot_id>", "inspect one snapshot and its replay metadata", false);
    out.push(c);
    let mut c = described("replay", "replay <snapshot_id|boundary_id>", "preview or apply replay directives", false);
    out.push(c);
    let mut c = described("events", "events [EventKind]", "list session events, optionally filtered by kind", true);
    out.push(c);
    let mut c = described("event", "event <event_id>", "select or inspect one event", true);
    out.push(c);
    let mut c = described("artifacts", "artifacts <event_id>", "list decoded artifact previews for an event", false);
    out.push(c);
    let mut c = described("artifact-show", "artifact-show <event_id> [index]", "render one decoded artifact in detail", false);
    out.push(c);
    let mut c = described("query", "query <expr>", "filter events through the shared query engine", true);
    out.push(c);
    let mut c = described("value", "value | value show <value_key>", "inspect observed value histories through shared APIs", true);
    c.aliases.push(owned("values"));
    out.push(c);
    let mut c = described("entities", "entities <needle>", "search resolved entities by name", false);
    out.push(c);
    let mut c = described("correlation", "correlation <id>", "show one correlation group's events and relation summary", true);
    out.push(c);
    let mut c = described("patient", "patient | patient show <name>", "inspect typed patient identities across the active session", true);
    c.aliases.push(owned("patients"));
    out.push(c);
    let mut c = described("handle", "handle | handle show <id>", "inspect typed handle/resource ownership and state", true);
    c.aliases.push(owned("handles"));
    out.push(c);
    let mut c = described("resource", "resource | resource show <name>", "inspect typed resource ownership, source, and object counts", true);
    c.aliases.push(owned("resources"));
    out.push(c);
    let mut c = described("object", "object | object show <id>", "inspect typed object identity, class, and storage relations", true);
    c.aliases.push(owned("objects"));
    out.push(c);
    let mut c = described("obj-name", "obj-name <id>", "render a legacy-style object identity summary from the shared object model", true);
    out.push(c);
    let mut c = described("obj-class", "obj-class <id>", "render a legacy-style object class lookup from the shared object model", true);
    out.push(c);
    let mut c = described("stack", "stack | stack frame <index> | stack locals <index> | stack registers <index> | stack show <boundary_id>", "inspect frame-oriented stack projections plus typed locals/registers", true);
    c.aliases.push(owned("spans"));
    c.aliases.push(owned("span"));
    out.push(c);
    let mut c = described("backtrace", "backtrace [frames]", "list stack frames with the current frame marker in legacy debugger style", true);
    c.aliases.push(owned("bt"));
    out.push(c);
    let mut c = described("where", "where", "show the current stack plus source context for the selected frame", true);
    c.aliases.push(owned("w"));
    out.push(c);
    let mut c = described("func", "func [name]", "show the current function or jump to the first active frame for a function name", true);
    out.push(c);
    let mut c = described("up", "up [count]", "move the selected frame toward older callers", true);
    out.push(c);
    let mut c = described("down", "down [count]", "move the selected frame toward newer callees", true);
    out.push(c);
    let mut c = described("locals", "locals [frame]", "show locals for the selected frame or one explicit frame index", true);
    out.push(c);
    let mut c = described("source-show", "source show <event_id> [before] [after]", "show source context for one event", true);
    c.aliases.push(owned("source"));
    out.push(c);
    let mut c = described("source-file", "source file <path>", "list events that resolved to a specific source file", true);
    out.push(c);
    let mut c = described("source-functions", "source functions", "list discovered source functions across the active session", true);
    out.push(c);
    let mut c = described("source-function", "source function <name>", "list events that resolved to a specific source function", true);
    out.push(c);
    let mut c = described("source-files", "source files", "list discovered source files across the active session", true);
    out.push(c);
    let mut c = described("source-view", "source view <path> [line] [before] [after]", "show a file-backed source snippet without starting from one event", true);
    out.push(c);
    let mut c = described("slist", "slist [file|line] [line]", "show a legacy-style source listing around the current frame or an explicit file/line", true);
    out.push(c);
    let mut c = described("view", "view [file] [line]", "show a larger legacy-style source view around the current frame or an explicit file/line", true);
    out.push(c);
    let mut c = described("patient-default", "patient-default [name|off]", "show, set, or clear the default patient used by legacy-style helpers", true);
    out.push(c);
    let mut c = described("spawn", "spawn [patient] [function]", "resume until the named patient, and optionally function, appears in the event stream", true);
    out.push(c);
    let mut c = described("wakeup", "wakeup [patient]", "resume until the named patient emits another event", true);
    out.push(c);
    let mut c = described("breakpoint-list", "breakpoint list", "list semantic breakpoints in grouped debugger-oriented form", false);
    c.aliases.push(owned("breakpoint"));
    c.aliases.push(owned("breakpoints"));
    out.push(c);
    let mut c = described("breakpoint-show", "breakpoint show <id>", "inspect one breakpoint's metadata, predicate, and last-hit event", true);
    out.push(c);
    let mut c = described("breakpoint-groups", "breakpoint groups", "summarize breakpoint groups by state, lifetime, disposition, and activity", true);
    out.push(c);
    let mut c = described("breakpoint-group-list", "breakpoint group list", "list user-defined breakpoint groups and their enable policies", true);
    out.push(c);
    let mut c = described("breakpoint-group-enable", "breakpoint group enable <group>", "enable a whole breakpoint group without touching per-breakpoint state", true);
    out.push(c);
    let mut c = described("breakpoint-group-disable", "breakpoint group disable <group>", "disable a whole breakpoint group without deleting its definitions", true);
    out.push(c);
    let mut c = described("breakpoint-predicates", "breakpoint predicates", "list reusable named breakpoint predicates", true);
    out.push(c);
    let mut c = described("breakpoint-predicate-add", "breakpoint predicate add <name> <expr>", "define or update a reusable named breakpoint predicate", true);
    out.push(c);
    let mut c = described("breakpoint-predicate-remove", "breakpoint predicate remove <name>", "remove an unused named breakpoint predicate", true);
    out.push(c);
    let mut c = described("breakpoint-add", "breakpoint add <name> <expr>", "add a persistent pause breakpoint", true);
    c.aliases.push(owned("trigger-expr"));
    out.push(c);
    let mut c = described("breakpoint-once", "breakpoint once <name> <expr>", "add a fire-once pause breakpoint", true);
    c.aliases.push(owned("trigger-expr-once"));
    out.push(c);
    let mut c = described("breakpoint-snapshot", "breakpoint snapshot <name> <expr> <reason>", "add a snapshot-taking breakpoint", true);
    c.aliases.push(owned("trigger-snapshot"));
    out.push(c);
    let mut c = described("breakpoint-enable", "breakpoint enable <id>", "enable one breakpoint without deleting it", true);
    c.aliases.push(owned("trigger-enable"));
    out.push(c);
    let mut c = described("breakpoint-disable", "breakpoint disable <id>", "disable one breakpoint without deleting it", true);
    c.aliases.push(owned("trigger-disable"));
    out.push(c);
    let mut c = described("breakpoint-remove", "breakpoint remove <id>", "remove one breakpoint definition", true);
    c.aliases.push(owned("trigger-remove"));
    out.push(c);
    let mut c = described("watchpoint-list", "watchpoint list", "list value-change watchpoints and their gating conditions", true);
    c.aliases.push(owned("watchpoint"));
    c.aliases.push(owned("watchpoints"));
    out.push(c);
    let mut c = described("watchpoint-show", "watchpoint show <id>", "inspect one watchpoint's watched value and gating metadata", true);
    out.push(c);
    let mut c = described("watchpoint-add", "watchpoint add <name> <value_key> [path=...] [after=...] [kind=...] [summary=...] [group=...]", "add a persistent value-change watchpoint", true);
    out.push(c);
    let mut c = described("watchpoint-once", "watchpoint once <name> <value_key> [path=...] [after=...] [kind=...] [summary=...] [group=...]", "add a fire-once value-change watchpoint", true);
    out.push(c);
    let mut c = described("watchpoint-snapshot", "watchpoint snapshot <name> <value_key> [path=...] [after=...] [kind=...] [summary=...] [group=...] -- <reason>", "add a snapshot-taking watchpoint", true);
    out.push(c);
    let mut c = described("watchpoint-enable", "watchpoint enable <id>", "enable one watchpoint without deleting it", true);
    out.push(c);
    let mut c = described("watchpoint-disable", "watchpoint disable <id>", "disable one watchpoint without deleting it", true);
    out.push(c);
    let mut c = described("watchpoint-remove", "watchpoint remove <id>", "remove one watchpoint definition", true);
    out.push(c);
    let mut c = described("breakpoint-save", "breakpoint save <path>", "persist breakpoint definitions to disk", false);
    c.aliases.push(owned("trigger-save"));
    out.push(c);
    let mut c = described("breakpoint-load", "breakpoint load <path>", "load persisted breakpoint definitions", false);
    c.aliases.push(owned("trigger-load"));
    out.push(c);
    let mut c = described("until", "until <expr>", "resume until an expression-backed breakpoint matches", false);
    c.aliases.push(owned("breakpoint until"));
    out.push(c);
    let mut c = described("script", "script <rhai>", "run a script against a frozen session snapshot", false);
    out.push(c);
    let mut c = described("script-packages", "script packages", "list built-in script packages and their exported helpers", false);
    out.push(c);
    let mut c = described("script-package-load", "script package load <name>", "pin one built-in script package for subsequent shell evaluations", false);
    out.push(c);
    let mut c = described("script-package-show", "script package show <name>", "inspect one built-in script package, its exports, and legacy references", false);
    out.push(c);
    out
}

/// The help topics, in the order that help lists them.
pub fn family_registry() -> (r: Vec<CommandFamily>)
    ensures
        r@.len() == 16,
{
    let mut out: Vec<CommandFamily> = Vec::new();
    let mut f = topic("dashboard", "move between debugger-oriented dashboard layouts and inspect recent command history");
    f.aliases.push(owned("history"));
    f.aliases.push(owned("ui"));
    f.commands.push(owned("dashboard"));
    f.commands.push(owned("history"));
    f.notes.push(owned("Use `dashboard execution` for the live stack/source/artifact view, `dashboard control` for breakpoints/watchpoints/snapshots, and `dashboard target` for stack plus patient/object/source catalogs."));
    f.notes.push(owned("In the TUI, `1`, `2`, and `3` switch those layouts without entering command mode."));
    f.notes.push(owned("Command history is persisted per surface when a writable state directory is available, so long sessions survive across restarts instead of resetting to an empty in-memory list."));
    f.examples.push(owned("dashboard"));
    f.examples.push(owned("dashboard control"));
    f.examples.push(owned("dashboard target"));
    f.examples.push(owned("history 20"));
    out.push(f);
    let mut f = topic("session", "attach, inspect, and drive a live target session");
    f.aliases.push(owned("status"));
    f.aliases.push(owned("control"));
    f.commands.push(owned("attach"));
    f.commands.push(owned("session"));
    f.commands.push(owned("pump"));
    f.commands.push(owned("pause"));
    f.commands.push(owned("resume"));
    f.commands.push(owned("step"));
    f.examples.push(owned("attach"));
    f.examples.push(owned("session"));
    f.examples.push(owned("resume"));
    out.push(f);
    let mut f = topic("snapshot", "capture, inspect, and replay durable snapshots");
    f.aliases.push(owned("snapshots"));
    f.aliases.push(owned("replay"));
    f.commands.push(owned("snapshot"));
    f.commands.push(owned("snapshots"));
    f.commands.push(owned("snapshot-show"));
    f.commands.push(owned("replay"));
    f.examples.push(owned("snapshot shell checkpoint"));
    f.examples.push(owned("snapshots"));
    f.examples.push(owned("replay 1"));
    out.push(f);
    let mut f = topic("query", "search events, entities, and correlations through shared APIs");
    f.aliases.push(owned("queries"));
    f.aliases.push(owned("inspection"));
    f.commands.push(owned("events"));
    f.commands.push(owned("event"));
    f.commands.push(owned("query"));
    f.commands.push(owned("entities"));
    f.commands.push(owned("correlation"));
    f.notes.push(owned("fields: kind, event.id, sequence, correlation, boundary, span, value.key, patient, handle, resource, object, source.file, source.line, source.function, summary, artifact.text, artifact.json"));
    f.notes.push(owned("operators: ==, contains, exists, and, or, not"));
    f.examples.push(owned("query kind == ModelBoundary and correlation == \"req-7\""));
    f.examples.push(owned("query patient == \"ui\" and object contains \"^lui\""));
    f.examples.push(owned("query not source.file exists and summary contains \"attached\""));
    out.push(f);
    let mut f = topic("patient", "inspect debugger-style patient identities and manage the default patient for legacy helpers");
    f.aliases.push(owned("patients"));
    f.commands.push(owned("patient"));
    f.commands.push(owned("patient-default"));
    f.notes.push(owned("Patients are projected from structured target artifacts through `swat-api`; the shell and TUI do not invent a separate target model."));
    f.notes.push(owned("Use `patient` for the session summary and `patient show <name>` for one patient's related handles, resources, objects, and source files."));
    f.notes.push(owned("`patient-default` feeds legacy-style helpers such as `spawn` and `wakeup` when no patient is supplied explicitly."));
    f.examples.push(owned("patient"));
    f.examples.push(owned("patient show ui"));
    f.examples.push(owned("patient-default ui"));
    out.push(f);
    let mut f = topic("handle", "inspect debugger-style handles without leaking raw kernel details into the core");
    f.aliases.push(owned("handles"));
    f.commands.push(owned("handle"));
    f.notes.push(owned("Handle summaries expose ownership, resource bindings, state flags, and related objects through the shared inspection API."));
    f.examples.push(owned("handle"));
    f.examples.push(owned("handle show h:1001"));
    out.push(f);
    let mut f = topic("resource", "inspect typed resources and their patient/handle/object relationships");
    f.aliases.push(owned("resources"));
    f.commands.push(owned("resource"));
    f.examples.push(owned("resource"));
    f.examples.push(owned("resource show AppResource"));
    out.push(f);
    let mut f = topic("object", "inspect typed object identities, classes, and storage relations");
    f.aliases.push(owned("objects"));
    f.commands.push(owned("object"));
    f.commands.push(owned("obj-name"));
    f.commands.push(owned("obj-class"));
    f.notes.push(owned("`obj-name` and `obj-class` preserve the quick object-oriented lookups operators used heavily in legacy Swat, but they read from the shared typed object model."));
    f.examples.push(owned("object"));
    f.examples.push(owned("object show ^lui:0002"));
    f.examples.push(owned("obj-name ^lui:0002"));
    f.examples.push(owned("obj-class ^lui:0002"));
    out.push(f);
    let mut f = topic("stack", "inspect frame-oriented stack projections over the shared boundary model");
    f.aliases.push(owned("spans"));
    f.aliases.push(owned("span"));
    f.commands.push(owned("stack"));
    f.commands.push(owned("backtrace"));
    f.commands.push(owned("where"));
    f.commands.push(owned("func"));
    f.commands.push(owned("up"));
    f.commands.push(owned("down"));
    f.commands.push(owned("locals"));
    f.notes.push(owned("Stack frames are projected from shared boundary spans through `swat-api`, not rebuilt inside the shell or TUI."));
    f.notes.push(owned("Use `stack frame <index>` for debugger-style frame details, `stack locals <index>` and `stack registers <index>` for typed bindings, and `stack show <boundary_id>` when you need the raw span identity."));
    f.notes.push(owned("Legacy-style `backtrace`, `where`, `func`, `up`, `down`, and `locals` now ride on the same shared frame model instead of keeping separate shell-local stack logic alive."));
    f.examples.push(owned("stack"));
    f.examples.push(owned("backtrace 5"));
    f.examples.push(owned("where"));
    f.examples.push(owned("func run"));
    f.examples.push(owned("up 1"));
    f.examples.push(owned("locals"));
    f.examples.push(owned("stack frame 0"));
    f.examples.push(owned("stack locals 0"));
    f.examples.push(owned("stack registers 0"));
    f.examples.push(owned("stack show 42"));
    out.push(f);
    let mut f = topic("source", "navigate from events into source context and file-backed views");
    f.aliases.push(owned("srclist"));
    f.aliases.push(owned("slist"));
    f.commands.push(owned("source-show"));
    f.commands.push(owned("source-file"));
    f.commands.push(owned("source-files"));
    f.commands.push(owned("source-functions"));
    f.commands.push(owned("source-function"));
    f.commands.push(owned("source-view"));
    f.commands.push(owned("slist"));
    f.commands.push(owned("view"));
    f.notes.push(owned("Legacy-style source workflows now start from shared event and resolver APIs instead of shell-local helpers."));
    f.notes.push(owned("Use `source files` to discover the file set for a session, `source functions` to traverse by function, and `source view` to open a file directly on the shared source layer."));
    f.notes.push(owned("The existing shorthand `source <event_id> [before] [after]` remains available."));
    f.notes.push(owned("`slist` and `view` now provide legacy-style source listing over the same shared source APIs, anchored on the selected frame when no file is given."));
    f.examples.push(owned("source files"));
    f.examples.push(owned("source functions"));
    f.examples.push(owned("slist"));
    f.examples.push(owned("view /tmp/agent.py 42"));
    f.examples.push(owned("source show 7"));
    f.examples.push(owned("source function helper"));
    f.examples.push(owned("source file /tmp/agent.py"));
    f.examples.push(owned("source view /tmp/agent.py 42 2 4"));
    out.push(f);
    let mut f = topic("process", "resume until patient-oriented activity using legacy-style helper commands");
    f.aliases.push(owned("thread"));
    f.commands.push(owned("patient-default"));
    f.commands.push(owned("spawn"));
    f.commands.push(owned("wakeup"));
    f.notes.push(owned("These helpers are conceptual migrations of legacy process/thread commands: they resume through the shared `until` machinery using typed patient and source-function predicates rather than reintroducing Tcl event hooks."));
    f.examples.push(owned("patient-default ui"));
    f.examples.push(owned("spawn ui run"));
    f.examples.push(owned("wakeup ui"));
    out.push(f);
    let mut f = topic("artifact", "inspect artifact-backed values attached to events");
    f.aliases.push(owned("artifacts"));
    f.commands.push(owned("artifacts"));
    f.commands.push(owned("artifact-show"));
    f.examples.push(owned("artifacts 7"));
    f.examples.push(owned("artifact-show 7 1"));
    out.push(f);
    let mut f = topic("value", "inspect observed value histories instead of only querying value events");
    f.aliases.push(owned("values"));
    f.commands.push(owned("value"));
    f.notes.push(owned("Value history is projected from shared `EventPayload::Value` records plus artifact previews, so shell and TUI formatting stay aligned."));
    f.examples.push(owned("value"));
    f.examples.push(owned("value show memory.turn"));
    out.push(f);
    let mut f = topic("breakpoint", "manage semantic breakpoints on top of the shared trigger engine");
    f.aliases.push(owned("breakpoints"));
    f.aliases.push(owned("trigger"));
    f.aliases.push(owned("triggers"));
    f.commands.push(owned("breakpoint-list"));
    f.commands.push(owned("breakpoint-show"));
    f.commands.push(owned("breakpoint-groups"));
    f.commands.push(owned("breakpoint-group-list"));
    f.commands.push(owned("breakpoint-group-enable"));
    f.commands.push(owned("breakpoint-group-disable"));
    f.commands.push(owned("breakpoint-predicates"));
    f.commands.push(owned("breakpoint-predicate-add"));
    f.commands.push(owned("breakpoint-predicate-remove"));
    f.commands.push(owned("breakpoint-add"));
    f.commands.push(owned("breakpoint-once"));
    f.commands.push(owned("breakpoint-snapshot"));
    f.commands.push(owned("breakpoint-enable"));
    f.commands.push(owned("breakpoint-disable"));
    f.commands.push(owned("breakpoint-remove"));
    f.commands.push(owned("breakpoint-save"));
    f.commands.push(owned("breakpoint-load"));
    f.commands.push(owned("until"));
    f.notes.push(owned("Advanced breakpoint state still runs on the shared trigger engine, but named predicates, group enable policies, and stop-reason reporting now project a debugger-grade model on top of it."));
    f.notes.push(owned("Use `breakpoint groups` for automatic state/lifetime/disposition/activity projections, and `breakpoint group list` for user-defined breakpoint groups."));
    f.notes.push(owned("Predicate references use `@name`, for example `breakpoint add stop_search @search_tool` or `breakpoint add stop_search group=search @search_tool`."));
    f.notes.push(owned("The raw `triggers` command remains for compatibility."));
    f.examples.push(owned("breakpoint add stop_search kind == ModelBoundary and artifact.json $.tool == \"search\""));
    f.examples.push(owned("breakpoint predicate add search_tool kind == ModelBoundary and artifact.json $.tool == \"search\""));
    f.examples.push(owned("breakpoint add stop_search group=search @search_tool"));
    f.examples.push(owned("breakpoint list"));
    f.examples.push(owned("breakpoint show 7"));
    f.examples.push(owned("breakpoint groups"));
    f.examples.push(owned("until kind == TriggerHit"));
    out.push(f);
    let mut f = topic("watchpoint", "manage value-change watchpoints with shared lifecycle and time gates");
    f.aliases.push(owned("watchpoints"));
    f.commands.push(owned("watchpoint-list"));
    f.commands.push(owned("watchpoint-show"));
    f.commands.push(owned("watchpoint-add"));
    f.commands.push(owned("watchpoint-once"));
    f.commands.push(owned("watchpoint-snapshot"));
    f.commands.push(owned("watchpoint-enable"));
    f.commands.push(owned("watchpoint-disable"));
    f.commands.push(owned("watchpoint-remove"));
    f.notes.push(owned("Watchpoints stay on the shared trigger engine, but `swat-api` now projects watched value keys, JSON paths, elapsed-time gates, and lifecycle filters as first-class inspection fields."));
    f.notes.push(owned("Use `after=<millis>` for elapsed-time gates, `kind=<EventKind>` to restrict the triggering event kind, and `summary=<needle>` for coarse lifecycle/load filters."));
    f.notes.push(owned("The same persisted trigger files used by `breakpoint save` and `breakpoint load` now preserve watchpoint definitions too."));
    f.examples.push(owned("watchpoint add memory_turn agent.state after=250 kind=Lifecycle summary=updated"));
    f.examples.push(owned("watchpoint once cache_tool tool.cache path=$.status"));
    f.examples.push(owned("watchpoint snapshot load_guard agent.state kind=Lifecycle summary=loaded -- state changed after load"));
    f.examples.push(owned("watchpoint list"));
    f.examples.push(owned("watchpoint show 7"));
    out.push(f);
    let mut f = topic("automation", "run script-backed inspection workflows on the public API");
    f.aliases.push(owned("script"));
    f.commands.push(owned("script"));
    f.commands.push(owned("script-packages"));
    f.commands.push(owned("script-package-load"));
    f.commands.push(owned("script-package-show"));
    f.notes.push(owned("Built-in script packages are explicit/autoloadable Rhai libraries layered over the public `ctx` inspection surface rather than shell-local shortcuts."));
    f.notes.push(owned("Package metadata comes from `swat-script` and is reused here for help, search, and completion so the shell and future clients describe the same library surface."));
    f.examples.push(owned("script packages"));
    f.examples.push(owned("script package show stack"));
    f.examples.push(owned("script package load patient"));
    f.examples.push(owned("script process_event_total()"));
    out.push(f);
    out
}

/// `s` in ASCII lower case (`str::to_ascii_lowercase`).
pub fn to_ascii_lowercase(s: &str) -> (r: String)
    ensures
        r@ == ascii_lowercase(s@),
{
    let n = s.unicode_len();
    let mut out = String::new();
    let mut i: usize = 0;
    while i < n
        invariant
            n == s@.len(),
            i <= n,
            out@ == ascii_lowercase(s@.take(i as int)),
        decreases n - i,
    {
        let c = s.get_char(i);
        push_char(&mut out, to_ascii_lower(c));
        proof {
            assert(ascii_lowercase(s@.take(i + 1)) =~= ascii_lowercase(s@.take(i as int)).push(ascii_lower(c)));
        }
        i += 1;
    }
    proof {
        assert(s@.take(n as int) =~= s@);
    }
    out
}

/// The first topic of `fs` that `t` looks up.
pub open spec fn first_family(fs: Seq<CommandFamily>, t: Seq<char>) -> Option<CommandFamily>
    decreases fs.len(),
{
    if fs.len() == 0 {
        None
    } else if family_matches(fs[0], t) {
        Some(fs[0])
    } else {
        first_family(fs.drop_first(), t)
    }
}

proof fn lemma_first_family(fs: Seq<CommandFamily>, t: Seq<char>, i: int)
    requires
        0 <= i <= fs.len(),
        forall|k: int| 0 <= k < i ==> !family_matches(#[trigger] fs[k], t),
        i < fs.len() ==> family_matches(fs[i], t),
    ensures
        first_family(fs, t) == (if i < fs.len() { Some(fs[i]) } else { None }),
    decreases i,
{
    if i > 0 {
        let rest = fs.drop_first();
        assert forall|k: int| 0 <= k < i - 1 implies !family_matches(#[trigger] rest[k], t) by {
            assert(rest[k] == fs[k + 1]);
        }
        if i < fs.len() {
            assert(rest[i - 1] == fs[i]);
        }
        lemma_first_family(rest, t, i - 1);
    }
}

/// The help lines of the commands that `keys` look up, skipping keys that
/// look up none.
pub open spec fn family_command_lines(keys: Seq<String>, cs: Seq<CommandDescriptor>, surface: CommandSurface) -> Seq<
    Seq<char>,
>
    decreases keys.len(),
{
    if keys.len() == 0 {
        Seq::empty()
    } else {
        let rest = family_command_lines(keys.drop_last(), cs, surface);
        match first_command(cs, keys.last()@) {
            Some(c) => rest.push(synopsis_on(c, surface) + "  "@ + c.summary@),
            None => rest,
        }
    }
}

/// The overview line of a script package.
pub open spec fn package_overview_line(p: ScriptPackageInfo) -> Seq<char> {
    "package="@ + p.name@ + " exports="@ + join(
        p.exports@.map_values(|e: ScriptExport| e.name@),
        ", "@,
    ) + " summary="@ + p.summary@
}

/// The lines of help on topic `f`: its summary, its commands, its notes,
/// for the automation topic the script packages, then its examples.
pub open spec fn family_help_lines(
    f: CommandFamily,
    cs: Seq<CommandDescriptor>,
    ps: Seq<ScriptPackageInfo>,
    surface: CommandSurface,
) -> Seq<Seq<char>> {
    seq![f.summary@] + family_command_lines(f.commands@, cs, surface) + views(f.notes@) + (if f.topic@
        == "automation"@ {
        ps.map_values(|p: ScriptPackageInfo| package_overview_line(p))
    } else {
        Seq::empty()
    }) + (if f.examples@.len() > 0 {
        seq!["examples: "@ + join(views(f.examples@), " | "@)]
    } else {
        Seq::empty()
    })
}

/// The lines of help on script package `p`: its summary, its notes, its
/// exports, its legacy references.
pub open spec fn package_help_lines(p: ScriptPackageInfo) -> Seq<Seq<char>> {
    seq![p.summary@] + views(p.notes@) + (if p.exports@.len() > 0 {
        seq!["exports:"@] + p.exports@.map_values(|e: ScriptExport| e.name@ + "  "@ + e.summary@)
    } else {
        Seq::empty()
    }) + (if p.legacy_references@.len() > 0 {
        seq!["legacy: "@ + join(views(p.legacy_references@), " | "@)]
    } else {
        Seq::empty()
    })
}

/// The help overview lines, as `overview_lines` gives them.
pub open spec fn overview_text(fs: Seq<CommandFamily>, cs: Seq<CommandDescriptor>, surface: CommandSurface) -> Seq<
    Seq<char>,
> {
    fs.map_values(|f: CommandFamily| family_line(f, cs, surface)) + seq![
        "examples: help query | help stack | help source | help breakpoint"@,
        "search: help search <needle>"@,
    ] + if surface == CommandSurface::Tui {
        seq!["Commands marked [shell] are discoverable in the TUI help surface but execute from the shell today."@]
    } else {
        Seq::empty()
    }
}

/// What `help` answers for `topic` (trimmed; none for the overview): the
/// overview; else the first topic it looks up; else the script package it
/// names, `package` being that package as the script library looks it up;
/// else the list of topics.
pub open spec fn help_answer(
    topic: Seq<char>,
    fs: Seq<CommandFamily>,
    cs: Seq<CommandDescriptor>,
    ps: Seq<ScriptPackageInfo>,
    package: Option<ScriptPackageInfo>,
    surface: CommandSurface,
) -> (Seq<char>, Seq<Seq<char>>) {
    let t = trim(topic);
    if t.len() == 0 {
        ("available commands"@, overview_text(fs, cs, surface))
    } else {
        match first_family(fs, t) {
            Some(f) => ("help "@ + f.topic@, family_help_lines(f, cs, ps, surface)),
            None => match package {
                Some(p) => ("help "@ + p.name@, package_help_lines(p)),
                None => (
                    "unknown help topic "@ + t,
                    seq!["topics: "@ + join(fs.map_values(|f: CommandFamily| f.topic@), ", "@)],
                ),
            },
        }
    }
}

fn push_all(lines: &mut Vec<String>, more: &Vec<String>)
    ensures
        views(final(lines)@) == views(old(lines)@) + views(more@),
{
    let n = more.len();
    let mut i: usize = 0;
    let ghost start = views(lines@);
    while i < n
        invariant
            n == more@.len(),
            i <= n,
            views(lines@) == start + views(more@).take(i as int),
        decreases n - i,
    {
        let ghost before = views(lines@);
        lines.push(more[i].clone());
        proof {
            assert(views(lines@) =~= before.push(more@[i as int]@));
            assert(views(more@).take(i + 1) =~= views(more@).take(i as int).push(more@[i as int]@));
            assert(views(lines@) =~= start + views(more@).take(i + 1));
        }
        i += 1;
    }
    proof {
        assert(views(more@).take(n as int) =~= views(more@));
    }
}

fn export_names(p: &ScriptPackageInfo) -> (r: Vec<String>)
    ensures
        views(r@) == p.exports@.map_values(|e: ScriptExport| e.name@),
{
    let n = p.exports.len();
    let mut out: Vec<String> = Vec::new();
    let mut i: usize = 0;
    while i < n
        invariant
            n == p.exports@.len(),
            i <= n,
            views(out@) == p.exports@.take(i as int).map_values(|e: ScriptExport| e.name@),
        decreases n - i,
    {
        let ghost before = views(out@);
        out.push(p.exports[i].name.clone());
        proof {
            assert(views(out@) =~= before.push(p.exports@[i as int].name@));
            assert(views(out@) =~= p.exports@.take(i + 1).map_values(|e: ScriptExport| e.name@));
        }
        i += 1;
    }
    proof {
        assert(p.exports@.take(n as int) =~= p.exports@);
    }
    out
}

fn package_overview(p: &ScriptPackageInfo) -> (r: String)
    ensures
        r@ == package_overview_line(*p),
{
    let mut s = owned("package=");
    push_str(&mut s, p.name.as_str());
    push_str(&mut s, " exports=");
    let names = export_names(p);
    let joined_names = joined(&names, ", ");
    push_str(&mut s, joined_names.as_str());
    push_str(&mut s, " summary=");
    push_str(&mut s, p.summary.as_str());
    s
}

fn package_help(p: &ScriptPackageInfo) -> (r: Vec<String>)
    ensures
        views(r@) == package_help_lines(*p),
{
    let mut lines: Vec<String> = Vec::new();
    lines.push(p.summary.clone());
    assert(views(lines@) =~= seq![p.summary@]);
    push_all(&mut lines, &p.notes);
    let ghost a = views(lines@);
    let ghost ex = if p.exports@.len() > 0 {
        seq!["exports:"@] + p.exports@.map_values(|e: ScriptExport| e.name@ + "  "@ + e.summary@)
    } else {
        Seq::<Seq<char>>::empty()
    };
    if p.exports.len() > 0 {
        let head = owned("exports:");
        lines.push(head);
        assert(views(lines@) =~= a.push("exports:"@));
        let n = p.exports.len();
        let mut i: usize = 0;
        let ghost start = views(lines@);
        while i < n
            invariant
                n == p.exports@.len(),
                i <= n,
                views(lines@) == start + p.exports@.take(i as int).map_values(
                    |e: ScriptExport| e.name@ + "  "@ + e.summary@,
                ),
            decreases n - i,
        {
            let mut line = p.exports[i].name.clone();
            push_str(&mut line, "  ");
            push_str(&mut line, p.exports[i].summary.as_str());
            let ghost before = views(lines@);
            lines.push(line);
            proof {
                assert(views(lines@) =~= before.push(line@));
                assert(p.exports@.take(i + 1).map_values(|e: ScriptExport| e.name@ + "  "@ + e.summary@)
                    =~= p.exports@.take(i as int).map_values(|e: ScriptExport| e.name@ + "  "@ + e.summary@).push(
                    p.exports@[i as int].name@ + "  "@ + p.exports@[i as int].summary@,
                ));
            }
            i += 1;
        }
        proof {
            assert(p.exports@.take(n as int) =~= p.exports@);
            assert(views(lines@) =~= a + ex);
        }
    } else {
        assert(views(lines@) =~= a + ex);
    }
    let ghost b = views(lines@);
    if p.legacy_references.len() > 0 {
        let mut line = owned("legacy: ");
        let refs = joined(&p.legacy_references, " | ");
        push_str(&mut line, refs.as_str());
        lines.push(line);
        assert(views(lines@) =~= b.push(line@));
    }
    proof {
        assert(views(lines@) =~= package_help_lines(*p));
    }
    lines
}

fn family_help(
    f: &CommandFamily,
    commands: &Vec<CommandDescriptor>,
    packages: &Vec<ScriptPackageInfo>,
    surface: CommandSurface,
) -> (r: Vec<String>)
    ensures
        views(r@) == family_help_lines(*f, commands@, packages@, surface),
{
    let mut lines: Vec<String> = Vec::new();
    lines.push(f.summary.clone());
    assert(views(lines@) =~= seq![f.summary@]);
    let n = f.commands.len();
    let mut i: usize = 0;
    let ghost start = views(lines@);
    while i < n
        invariant
            n == f.commands@.len(),
            i <= n,
            views(lines@) == start + family_command_lines(f.commands@.take(i as int), commands@, surface),
        decreases n - i,
    {
        proof {
            assert(f.commands@.take(i + 1).drop_last() =~= f.commands@.take(i as int));
        }
        match find_command(commands, f.commands[i].as_str()) {
            Some(c) => {
                let line = format_command_line(c, surface);
                let ghost before = views(lines@);
                lines.push(line);
                proof {
                    assert(views(lines@) =~= before.push(line@));
                }
            },
            None => {},
        }
        i += 1;
    }
    proof {
        assert(f.commands@.take(n as int) =~= f.commands@);
    }
    push_all(&mut lines, &f.notes);
    let ghost a = views(lines@);
    let ghost pk = if f.topic@ == "automation"@ {
        packages@.map_values(|p: ScriptPackageInfo| package_overview_line(p))
    } else {
        Seq::<Seq<char>>::empty()
    };
    if crate::text::str_eq(f.topic.as_str(), "automation") {
        let m = packages.len();
        let mut j: usize = 0;
        let ghost start2 = views(lines@);
        while j < m
            invariant
                m == packages@.len(),
                j <= m,
                views(lines@) == start2 + packages@.take(j as int).map_values(
                    |p: ScriptPackageInfo| package_overview_line(p),
                ),
            decreases m - j,
        {
            let line = package_overview(&packages[j]);
            let ghost before = views(lines@);
            lines.push(line);
            proof {
                assert(views(lines@) =~= before.push(line@));
                assert(packages@.take(j + 1).map_values(|p: ScriptPackageInfo| package_overview_line(p))
                    =~= packages@.take(j as int).map_values(|p: ScriptPackageInfo| package_overview_line(p)).push(
                    package_overview_line(packages@[j as int]),
                ));
            }
            j += 1;
        }
        proof {
            assert(packages@.take(m as int) =~= packages@);
            assert(views(lines@) =~= a + pk);
        }
    } else {
        assert(views(lines@) =~= a + pk);
    }
    let ghost b = views(lines@);
    if f.examples.len() > 0 {
        let mut line = owned("examples: ");
        let ex = joined(&f.examples, " | ");
        push_str(&mut line, ex.as_str());
        lines.push(line);
        assert(views(lines@) =~= b.push(line@));
    }
    proof {
        assert(views(lines@) =~= family_help_lines(*f, commands@, packages@, surface));
    }
    lines
}

fn family_topics(families: &Vec<CommandFamily>) -> (r: Vec<String>)
    ensures
        views(r@) == families@.map_values(|f: CommandFamily| f.topic@),
{
    let n = families.len();
    let mut out: Vec<String> = Vec::new();
    let mut i: usize = 0;
    while i < n
        invariant
            n == families@.len(),
            i <= n,
            views(out@) == families@.take(i as int).map_values(|f: CommandFamily| f.topic@),
        decreases n - i,
    {
        let ghost before = views(out@);
        out.push(families[i].topic.clone());
        proof {
            assert(views(out@) =~= before.push(families@[i as int].topic@));
            assert(views(out@) =~= families@.take(i + 1).map_values(|f: CommandFamily| f.topic@));
        }
        i += 1;
    }
    proof {
        assert(families@.take(n as int) =~= families@);
    }
    out
}

/// What `help` answers for `topic`, as `help_answer` states; `package` is
/// the script package that the topic names, as the script library looks
/// it up, and `packages` all of them.
pub fn command_help(
    topic: Option<&str>,
    surface: CommandSurface,
    families: &Vec<CommandFamily>,
    commands: &Vec<CommandDescriptor>,
    packages: &Vec<ScriptPackageInfo>,
    package: Option<&ScriptPackageInfo>,
) -> (r: CommandOutput)
    ensures
        (r.summary@, views(r.lines@)) == help_answer(
            match topic {
                Some(t) => t@,
                None => Seq::empty(),
            },
            families@,
            commands@,
            packages@,
            match package {
                Some(p) => Some(*p),
                None => None,
            },
            surface,
        ),
{
    let raw = match topic {
        Some(t) => t,
        None => "",
    };
    proof {
        reveal_strlit("");
        reveal_strlit("automation");
    }
    let normalized = trim_str(raw);
    if normalized.unicode_len() == 0 {
        let lines = overview_lines(families, commands, surface);
        return CommandOutput::new(owned("available commands"), lines);
    }
    match find_family(families, normalized) {
        Some(f) => {
            proof {
                let i = choose|i: int|
                    0 <= i < families@.len() && families@[i] == *f && family_matches(*f, normalized@)
                        && forall|k: int| 0 <= k < i ==> !family_matches(#[trigger] families@[k], normalized@);
                lemma_first_family(families@, normalized@, i);
            }
            let lines = family_help(f, commands, packages, surface);
            let mut summary = owned("help ");
            push_str(&mut summary, f.topic.as_str());
            CommandOutput::new(summary, lines)
        },
        None => {
            proof {
                lemma_first_family(families@, normalized@, families@.len() as int);
            }
            match package {
                Some(p) => {
                    let mut summary = owned("help ");
                    push_str(&mut summary, p.name.as_str());
                    CommandOutput::new(summary, package_help(p))
                },
                None => {
                    let mut summary = owned("unknown help topic ");
                    push_str(&mut summary, normalized);
                    let topics = family_topics(families);
                    let mut line = owned("topics: ");
                    let joined_topics = joined(&topics, ", ");
                    push_str(&mut line, joined_topics.as_str());
                    let mut lines: Vec<String> = Vec::new();
                    lines.push(line);
                    proof {
                        assert(views(lines@) =~= seq![
                            "topics: "@ + join(families@.map_values(|f: CommandFamily| f.topic@), ", "@),
                        ]);
                    }
                    CommandOutput::new(summary, lines)
                },
            }
        },
    }
}

/// Whether some string of `ss`, in ASCII lower case, contains `n`.
pub open spec fn any_contains(ss: Seq<Seq<char>>, n: Seq<char>) -> bool {
    exists|j: int| 0 <= j < ss.len() && contains_seq(ascii_lowercase(#[trigger] ss[j]), n)
}

fn any_contains_exec(ss: &Vec<String>, n: &str) -> (r: bool)
    ensures
        r == any_contains(views(ss@), n@),
{
    let m = ss.len();
    let mut j: usize = 0;
    while j < m
        invariant
            m == ss@.len(),
            j <= m,
            forall|k: int| 0 <= k < j ==> !contains_seq(ascii_lowercase(#[trigger] views(ss@)[k]), n@),
        decreases m - j,
    {
        let lower = to_ascii_lowercase(ss[j].as_str());
        if str_contains(lower.as_str(), n) {
            assert(views(ss@)[j as int] == ss@[j as int]@);
            return true;
        }
        assert(views(ss@)[j as int] == ss@[j as int]@);
        j += 1;
    }
    false
}

fn lower_contains(s: &str, n: &str) -> (r: bool)
    ensures
        r == contains_seq(ascii_lowercase(s@), n@),
{
    let lower = to_ascii_lowercase(s);
    str_contains(lower.as_str(), n)
}

/// Topic `f` matches the lower-case needle `n`: its topic, an alias, its
/// summary or an example contains it, up to ASCII case.
pub open spec fn family_hit(f: CommandFamily, n: Seq<char>) -> bool {
    contains_seq(ascii_lowercase(f.topic@), n) || any_contains(views(f.aliases@), n) || contains_seq(
        ascii_lowercase(f.summary@),
        n,
    ) || any_contains(views(f.examples@), n)
}

pub open spec fn family_search_line(f: CommandFamily) -> Seq<char> {
    "topic="@ + f.topic@ + " aliases="@ + join(views(f.aliases@), ","@) + " summary="@ + f.summary@
}

/// Command `c` matches the lower-case needle `n`: its synopsis, its
/// summary or an alias contains it, up to ASCII case.
pub open spec fn command_hit(c: CommandDescriptor, n: Seq<char>) -> bool {
    contains_seq(ascii_lowercase(c.synopsis@), n) || contains_seq(ascii_lowercase(c.summary@), n)
        || any_contains(views(c.aliases@), n)
}

pub open spec fn command_search_line(c: CommandDescriptor, surface: CommandSurface) -> Seq<char> {
    "command="@ + synopsis_on(c, surface) + " aliases="@ + join(views(c.aliases@), ","@) + " summary="@
        + c.summary@
}

pub open spec fn export_name_views(p: ScriptPackageInfo) -> Seq<Seq<char>> {
    p.exports@.map_values(|e: ScriptExport| e.name@)
}

/// Script package `p` matches the lower-case needle `n`: its name, its
/// summary, an alias, an export or a legacy reference contains it, up to
/// ASCII case.
pub open spec fn package_hit(p: ScriptPackageInfo, n: Seq<char>) -> bool {
    contains_seq(ascii_lowercase(p.name@), n) || contains_seq(ascii_lowercase(p.summary@), n)
        || any_contains(views(p.aliases@), n) || any_contains(export_name_views(p), n) || any_contains(
        views(p.legacy_references@),
        n,
    )
}

pub open spec fn package_search_line(p: ScriptPackageInfo) -> Seq<char> {
    "script-package="@ + p.name@ + " aliases="@ + join(views(p.aliases@), ","@) + " exports="@ + join(
        export_name_views(p),
        ","@,
    ) + " legacy="@ + join(views(p.legacy_references@), ","@) + " summary="@ + p.summary@
}

/// The lines of the topics, then the commands, then the script packages
/// that match the lower-case needle `n`, each in order.
pub open spec fn search_hits(
    fs: Seq<CommandFamily>,
    cs: Seq<CommandDescriptor>,
    ps: Seq<ScriptPackageInfo>,
    n: Seq<char>,
    surface: CommandSurface,
) -> Seq<Seq<char>> {
    fs.filter(|f: CommandFamily| family_hit(f, n)).map_values(|f: CommandFamily| family_search_line(f))
        + cs.filter(|c: CommandDescriptor| command_hit(c, n)).map_values(
        |c: CommandDescriptor| command_search_line(c, surface),
    ) + ps.filter(|p: ScriptPackageInfo| package_hit(p, n)).map_values(
        |p: ScriptPackageInfo| package_search_line(p),
    )
}

/// What `help search` answers for `needle`: a usage note where it is blank,
/// else the matches of its trimmed, lower-cased text, or a note that none
/// matched.
pub open spec fn search_answer(
    needle: Seq<char>,
    fs: Seq<CommandFamily>,
    cs: Seq<CommandDescriptor>,
    ps: Seq<ScriptPackageInfo>,
    surface: CommandSurface,
) -> (Seq<char>, Seq<Seq<char>>) {
    let t = trim(needle);
    if t.len() == 0 {
        ("help search requires a pattern"@, seq!["usage: help search <needle>"@])
    } else {
        let h = search_hits(fs, cs, ps, ascii_lowercase(t), surface);
        ("help search "@ + t, if h.len() == 0 {
            seq!["no command topics matched"@]
        } else {
            h
        })
    }
}

fn family_search(f: &CommandFamily) -> (r: String)
    ensures
        r@ == family_search_line(*f),
{
    let mut s = owned("topic=");
    push_str(&mut s, f.topic.as_str());
    push_str(&mut s, " aliases=");
    let a = joined(&f.aliases, ",");
    push_str(&mut s, a.as_str());
    push_str(&mut s, " summary=");
    push_str(&mut s, f.summary.as_str());
    s
}

fn command_search_text(c: &CommandDescriptor, surface: CommandSurface) -> (r: String)
    ensures
        r@ == command_search_line(*c, surface),
{
    let mut s = owned("command=");
    let syn = crate::registry::format_synopsis(c, surface);
    push_str(&mut s, syn.as_str());
    push_str(&mut s, " aliases=");
    let a = joined(&c.aliases, ",");
    push_str(&mut s, a.as_str());
    push_str(&mut s, " summary=");
    push_str(&mut s, c.summary.as_str());
    s
}

fn package_search(p: &ScriptPackageInfo) -> (r: String)
    ensures
        r@ == package_search_line(*p),
{
    let mut s = owned("script-package=");
    push_str(&mut s, p.name.as_str());
    push_str(&mut s, " aliases=");
    let a = joined(&p.aliases, ",");
    push_str(&mut s, a.as_str());
    push_str(&mut s, " exports=");
    let names = export_names(p);
    let e = joined(&names, ",");
    push_str(&mut s, e.as_str());
    push_str(&mut s, " legacy=");
    let l = joined(&p.legacy_references, ",");
    push_str(&mut s, l.as_str());
    push_str(&mut s, " summary=");
    push_str(&mut s, p.summary.as_str());
    s
}

/// What `help search` answers for `needle`, as `search_answer` states.
pub fn command_search(
    needle: &str,
    surface: CommandSurface,
    families: &Vec<CommandFamily>,
    commands: &Vec<CommandDescriptor>,
    packages: &Vec<ScriptPackageInfo>,
) -> (r: CommandOutput)
    ensures
        (r.summary@, views(r.lines@)) == search_answer(needle@, families@, commands@, packages@, surface),
{
    let normalized = trim_str(needle);
    if normalized.unicode_len() == 0 {
        let mut lines: Vec<String> = Vec::new();
        lines.push(owned("usage: help search <needle>"));
        assert(views(lines@) =~= seq!["usage: help search <needle>"@]);
        return CommandOutput::new(owned("help search requires a pattern"), lines);
    }
    let lowered = to_ascii_lowercase(normalized);
    let n = lowered.as_str();
    let ghost nv = n@;
    let mut lines: Vec<String> = Vec::new();
    let nf = families.len();
    let mut i: usize = 0;
    assert(views(lines@) =~= families@.take(0).filter(|f: CommandFamily| family_hit(f, nv)).map_values(
        |f: CommandFamily| family_search_line(f),
    ));
    while i < nf
        invariant
            nf == families@.len(),
            i <= nf,
            nv == n@,
            views(lines@) == families@.take(i as int).filter(|f: CommandFamily| family_hit(f, nv)).map_values(
                |f: CommandFamily| family_search_line(f),
            ),
        decreases nf - i,
    {
        let f = &families[i];
        proof {
            assert(families@.take(i + 1).drop_last() =~= families@.take(i as int));
        }
        let hit = lower_contains(f.topic.as_str(), n) || any_contains_exec(&f.aliases, n) || lower_contains(
            f.summary.as_str(),
            n,
        ) || any_contains_exec(&f.examples, n);
        let ghost before = views(lines@);
        if hit {
            let line = family_search(f);
            lines.push(line);
            proof {
                assert(views(lines@) =~= before.push(line@));
            }
        }
        proof {
            reveal_with_fuel(Seq::filter, 1);
            assert(families@.take(i + 1).last() == families@[i as int]);
            let fl = families@.take(i + 1).filter(|f: CommandFamily| family_hit(f, nv));
            assert(fl == if family_hit(families@[i as int], nv) {
                families@.take(i as int).filter(|f: CommandFamily| family_hit(f, nv)).push(families@[i as int])
            } else {
                families@.take(i as int).filter(|f: CommandFamily| family_hit(f, nv))
            });
            assert(views(lines@) =~= fl.map_values(|f: CommandFamily| family_search_line(f)));
        }
        i += 1;
    }
    proof {
        assert(families@.take(nf as int) =~= families@);
    }
    let ghost a = views(lines@);
    let nc = commands.len();
    let mut k: usize = 0;
    assert(views(lines@) =~= a + commands@.take(0).filter(|c: CommandDescriptor| command_hit(c, nv)).map_values(
        |c: CommandDescriptor| command_search_line(c, surface),
    ));
    while k < nc
        invariant
            nc == commands@.len(),
            k <= nc,
            nv == n@,
            views(lines@) == a + commands@.take(k as int).filter(|c: CommandDescriptor| command_hit(c, nv)).map_values(
                |c: CommandDescriptor| command_search_line(c, surface),
            ),
        decreases nc - k,
    {
        let c = &commands[k];
        proof {
            assert(commands@.take(k + 1).drop_last() =~= commands@.take(k as int));
        }
        let hit = lower_contains(c.synopsis.as_str(), n) || lower_contains(c.summary.as_str(), n)
            || any_contains_exec(&c.aliases, n);
        let ghost before = views(lines@);
        if hit {
            let line = command_search_text(c, surface);
            lines.push(line);
            proof {
                assert(views(lines@) =~= before.push(line@));
            }
        }
        proof {
            reveal_with_fuel(Seq::filter, 1);
            assert(commands@.take(k + 1).last() == commands@[k as int]);
            let cl = commands@.take(k + 1).filter(|c: CommandDescriptor| command_hit(c, nv));
            assert(cl == if command_hit(commands@[k as int], nv) {
                commands@.take(k as int).filter(|c: CommandDescriptor| command_hit(c, nv)).push(commands@[k as int])
            } else {
                commands@.take(k as int).filter(|c: CommandDescriptor| command_hit(c, nv))
            });
            assert(views(lines@) =~= a + cl.map_values(|c: CommandDescriptor| command_search_line(c, surface)));
        }
        k += 1;
    }
    proof {
        assert(commands@.take(nc as int) =~= commands@);
    }
    let ghost b = views(lines@);
    let np = packages.len();
    let mut j: usize = 0;
    assert(views(lines@) =~= b + packages@.take(0).filter(|p: ScriptPackageInfo| package_hit(p, nv)).map_values(
        |p: ScriptPackageInfo| package_search_line(p),
    ));
    while j < np
        invariant
            np == packages@.len(),
            j <= np,
            nv == n@,
            views(lines@) == b + packages@.take(j as int).filter(|p: ScriptPackageInfo| package_hit(p, nv)).map_values(
                |p: ScriptPackageInfo| package_search_line(p),
            ),
        decreases np - j,
    {
        let p = &packages[j];
        proof {
            assert(packages@.take(j + 1).drop_last() =~= packages@.take(j as int));
        }
        let names = export_names(p);
        let hit = lower_contains(p.name.as_str(), n) || lower_contains(p.summary.as_str(), n)
            || any_contains_exec(&p.aliases, n) || any_contains_exec(&names, n) || any_contains_exec(
            &p.legacy_references,
            n,
        );
        let ghost before = views(lines@);
        if hit {
            let line = package_search(p);
            lines.push(line);
            proof {
                assert(views(lines@) =~= before.push(line@));
            }
        }
        proof {
            reveal_with_fuel(Seq::filter, 1);
            assert(packages@.take(j + 1).last() == packages@[j as int]);
            let pl = packages@.take(j + 1).filter(|p: ScriptPackageInfo| package_hit(p, nv));
            assert(pl == if package_hit(packages@[j as int], nv) {
                packages@.take(j as int).filter(|p: ScriptPackageInfo| package_hit(p, nv)).push(packages@[j as int])
            } else {
                packages@.take(j as int).filter(|p: ScriptPackageInfo| package_hit(p, nv))
            });
            assert(views(lines@) =~= b + pl.map_values(|p: ScriptPackageInfo| package_search_line(p)));
        }
        j += 1;
    }
    proof {
        assert(packages@.take(np as int) =~= packages@);
        assert(views(lines@) =~= search_hits(families@, commands@, packages@, nv, surface));
    }
    if lines.len() == 0 {
        lines.push(owned("no command topics matched"));
        assert(views(lines@) =~= seq!["no command topics matched"@]);
    }
    let mut summary = owned("help search ");
    push_str(&mut summary, normalized);
    CommandOutput::new(summary, lines)
}

/// The candidates of `cands` that the lower-case prefix `nl` keeps: all
/// where it is empty, else those that start with it up to ASCII case.
pub open spec fn kept(cands: Seq<Seq<char>>, nl: Seq<char>) -> Seq<Seq<char>> {
    cands.filter(|c: Seq<char>| nl.len() == 0 || starts_with(ascii_lowercase(c), nl))
}

pub open spec fn family_candidates(f: CommandFamily) -> Seq<Seq<char>> {
    seq!["help "@ + f.topic@] + views(f.aliases@).map_values(|a: Seq<char>| "help "@ + a)
}

pub open spec fn families_kept(fs: Seq<CommandFamily>, nl: Seq<char>) -> Seq<Seq<char>>
    decreases fs.len(),
{
    if fs.len() == 0 {
        Seq::empty()
    } else {
        families_kept(fs.drop_last(), nl) + kept(family_candidates(fs.last()), nl)
    }
}

pub open spec fn command_candidates(c: CommandDescriptor) -> Seq<Seq<char>> {
    seq![c.synopsis@] + views(c.aliases@)
}

/// The candidates of the commands offered on `surface`.
pub open spec fn commands_kept(cs: Seq<CommandDescriptor>, nl: Seq<char>, surface: CommandSurface) -> Seq<
    Seq<char>,
>
    decreases cs.len(),
{
    if cs.len() == 0 {
        Seq::empty()
    } else {
        commands_kept(cs.drop_last(), nl, surface) + if surface == CommandSurface::Shell
            || cs.last().tui_supported {
            kept(command_candidates(cs.last()), nl)
        } else {
            Seq::empty()
        }
    }
}

pub open spec fn package_candidates(p: ScriptPackageInfo) -> Seq<Seq<char>> {
    seq!["script package load "@ + p.name@, "script package show "@ + p.name@, "help "@ + p.name@]
}

pub open spec fn packages_kept(ps: Seq<ScriptPackageInfo>, nl: Seq<char>) -> Seq<Seq<char>>
    decreases ps.len(),
{
    if ps.len() == 0 {
        Seq::empty()
    } else {
        packages_kept(ps.drop_last(), nl) + kept(package_candidates(ps.last()), nl)
    }
}

/// The completions of `prefix` before ordering: `help`, each topic and
/// topic alias after `help `, the synopsis and aliases of each command
/// offered on `surface`, and in the shell the commands of each script
/// package; each kept where it starts with the trimmed prefix, up to ASCII
/// case.
pub open spec fn completion_candidates(
    prefix: Seq<char>,
    fs: Seq<CommandFamily>,
    cs: Seq<CommandDescriptor>,
    ps: Seq<ScriptPackageInfo>,
    surface: CommandSurface,
) -> Seq<Seq<char>> {
    let nl = ascii_lowercase(trim(prefix));
    kept(seq!["help"@], nl) + families_kept(fs, nl) + commands_kept(cs, nl, surface) + if surface
        == CommandSurface::Shell {
        packages_kept(ps, nl)
    } else {
        Seq::empty()
    }
}

fn starts_lower(s: &str, nl: &str) -> (r: bool)
    ensures
        r == starts_with(ascii_lowercase(s@), nl@),
{
    let lower = to_ascii_lowercase(s);
    strip_prefix(lower.as_str(), nl).is_some()
}

fn push_kept(out: &mut Vec<String>, cands: &Vec<String>, nl: &str)
    ensures
        views(final(out)@) == views(old(out)@) + kept(views(cands@), nl@),
{
    let ghost start = views(out@);
    let ghost cv = views(cands@);
    let ghost nv = nl@;
    let n = cands.len();
    let mut i: usize = 0;
    assert(cv.take(0).filter(|c: Seq<char>| nv.len() == 0 || starts_with(ascii_lowercase(c), nv))
        =~= Seq::<Seq<char>>::empty());
    while i < n
        invariant
            n == cands@.len(),
            cv == views(cands@),
            nv == nl@,
            i <= n,
            views(out@) == start + cv.take(i as int).filter(
                |c: Seq<char>| nv.len() == 0 || starts_with(ascii_lowercase(c), nv),
            ),
        decreases n - i,
    {
        let keep = nl.unicode_len() == 0 || starts_lower(cands[i].as_str(), nl);
        let ghost before = views(out@);
        if keep {
            out.push(cands[i].clone());
            proof {
                assert(views(out@) =~= before.push(cands@[i as int]@));
            }
        }
        proof {
            reveal_with_fuel(Seq::filter, 1);
            assert(cv.take(i + 1).drop_last() =~= cv.take(i as int));
            assert(cv.take(i + 1).last() == cands@[i as int]@);
        }
        i += 1;
    }
    proof {
        assert(cv.take(n as int) =~= cv);
    }
}

fn prefixed(p: &str, s: &str) -> (r: String)
    ensures
        r@ == p@ + s@,
{
    let mut r = owned(p);
    push_str(&mut r, s);
    r
}

/// The completions of `prefix`: the candidates that
/// `completion_candidates` lists, in string order and each once.
pub fn command_completions(
    prefix: &str,
    surface: CommandSurface,
    families: &Vec<CommandFamily>,
    commands: &Vec<CommandDescriptor>,
    packages: &Vec<ScriptPackageInfo>,
) -> (r: Vec<String>)
    ensures
        views(r@) == members(with_members(Seq::empty(), completion_candidates(prefix@, families@, commands@, packages@, surface))),
{
    let normalized = trim_str(prefix);
    let lowered = to_ascii_lowercase(normalized);
    let nl = lowered.as_str();
    let ghost nv = nl@;
    let mut all: Vec<String> = Vec::new();
    let mut help: Vec<String> = Vec::new();
    help.push(owned("help"));
    assert(views(help@) =~= seq!["help"@]);
    push_kept(&mut all, &help, nl);
    let ghost a0 = views(all@);
    assert(a0 =~= kept(seq!["help"@], nv));
    let nf = families.len();
    let mut i: usize = 0;
    while i < nf
        invariant
            nf == families@.len(),
            i <= nf,
            nv == nl@,
            views(all@) == a0 + families_kept(families@.take(i as int), nv),
        decreases nf - i,
    {
        let f = &families[i];
        let mut cands: Vec<String> = Vec::new();
        cands.push(prefixed("help ", f.topic.as_str()));
        let na = f.aliases.len();
        let mut j: usize = 0;
        while j < na
            invariant
                na == f.aliases@.len(),
                j <= na,
                views(cands@) == seq!["help "@ + f.topic@] + views(f.aliases@).take(j as int).map_values(
                    |a: Seq<char>| "help "@ + a,
                ),
            decreases na - j,
        {
            let ghost before = views(cands@);
            let c = prefixed("help ", f.aliases[j].as_str());
            cands.push(c);
            proof {
                assert(views(cands@) =~= before.push(c@));
                assert(views(f.aliases@).take(j + 1).map_values(|a: Seq<char>| "help "@ + a) =~= views(
                    f.aliases@,
                ).take(j as int).map_values(|a: Seq<char>| "help "@ + a).push("help "@ + f.aliases@[j as int]@));
            }
            j += 1;
        }
        proof {
            assert(views(f.aliases@).take(na as int) =~= views(f.aliases@));
            assert(views(cands@) =~= family_candidates(*f));
            assert(families@.take(i + 1).drop_last() =~= families@.take(i as int));
        }
        let ghost before = views(all@);
        push_kept(&mut all, &cands, nl);
        proof {
            assert(views(all@) =~= a0 + families_kept(families@.take(i + 1), nv));
        }
        i += 1;
    }
    proof {
        assert(families@.take(nf as int) =~= families@);
    }
    let ghost a1 = views(all@);
    let nc = commands.len();
    let mut k: usize = 0;
    assert(commands_kept(commands@.take(0), nv, surface) =~= Seq::<Seq<char>>::empty());
    while k < nc
        invariant
            nc == commands@.len(),
            k <= nc,
            nv == nl@,
            views(all@) == a1 + commands_kept(commands@.take(k as int), nv, surface),
        decreases nc - k,
    {
        let c = &commands[k];
        proof {
            assert(commands@.take(k + 1).drop_last() =~= commands@.take(k as int));
        }
        let ghost before = views(all@);
        if crate::registry::command_available_for_completion(c, surface) {
            let mut cands: Vec<String> = Vec::new();
            cands.push(c.synopsis.clone());
            push_all(&mut cands, &c.aliases);
            assert(views(cands@) =~= command_candidates(*c));
            push_kept(&mut all, &cands, nl);
        }
        proof {
            assert(views(all@) =~= a1 + commands_kept(commands@.take(k + 1), nv, surface));
        }
        k += 1;
    }
    proof {
        assert(commands@.take(nc as int) =~= commands@);
    }
    let ghost a2 = views(all@);
    let is_shell = match surface {
        CommandSurface::Shell => true,
        CommandSurface::Tui => false,
    };
    if is_shell {
        let np = packages.len();
        let mut j: usize = 0;
        assert(packages_kept(packages@.take(0), nv) =~= Seq::<Seq<char>>::empty());
        while j < np
            invariant
                np == packages@.len(),
                j <= np,
                nv == nl@,
                views(all@) == a2 + packages_kept(packages@.take(j as int), nv),
            decreases np - j,
        {
            let p = &packages[j];
            let mut cands: Vec<String> = Vec::new();
            cands.push(prefixed("script package load ", p.name.as_str()));
            cands.push(prefixed("script package show ", p.name.as_str()));
            cands.push(prefixed("help ", p.name.as_str()));
            assert(views(cands@) =~= package_candidates(*p));
            proof {
                assert(packages@.take(j + 1).drop_last() =~= packages@.take(j as int));
            }
            push_kept(&mut all, &cands, nl);
            proof {
                assert(views(all@) =~= a2 + packages_kept(packages@.take(j + 1), nv));
            }
            j += 1;
        }
        proof {
            assert(packages@.take(np as int) =~= packages@);
        }
    }
    proof {
        assert(views(all@) =~= completion_candidates(prefix@, families@, commands@, packages@, surface));
    }
    sorted_unique(&all)
}

} // verus!
