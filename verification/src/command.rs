//! The debugger's command language: the commands, and the parser that
//! reads one from a line of input.
use vstd::prelude::*;
use crate::api::{WatchpointSpec, WatchpointSpecModel, new_watchpoint};
use crate::expr::{parse_expression, parse_expression_spec, parse_event_kind, event_kind_of, unknown_kind_msg};
use crate::model::{BoundaryId, EventId, EventKind, SnapshotId, SwatError, SwatResult, TriggerId};
use crate::text::{
    IntParseError, parse_uint, parse_uint_str, trim, trim_start, trim_end, starts_with, has_ws,
    split_ws_once, words, is_ws, is_whitespace, trim_str, trim_start_str, trim_end_str,
    strip_prefix, str_eq, split_once_ws, split_whitespace, contains_ws, char_len, substr, owned,
    push_str, split_once_at, split_once_str,
};

verus! {

/// Where a command is typed: the line shell or the terminal UI.
#[derive(Clone, Copy, Debug, PartialEq, Eq, Structural)]
pub enum CommandSurface {
    Shell,
    Tui,
}

/// The condition of a breakpoint: an expression, or a reference to a named
/// predicate.
#[derive(Clone, Debug, PartialEq, Eq)]
pub enum BreakpointConditionInput {
    Expression(String),
    PredicateRef(String),
}

pub enum ConditionModel {
    Expression(Seq<char>),
    PredicateRef(Seq<char>),
}

impl View for BreakpointConditionInput {
    type V = ConditionModel;

    open spec fn view(&self) -> ConditionModel {
        match self {
            BreakpointConditionInput::Expression(s) => ConditionModel::Expression(s@),
            BreakpointConditionInput::PredicateRef(s) => ConditionModel::PredicateRef(s@),
        }
    }
}

impl BreakpointConditionInput {
    /// The expression text, where the condition is an expression.
    pub fn as_expression(&self) -> (r: Option<&str>)
        ensures
            match self@ {
                ConditionModel::Expression(e) => r matches Some(x) && x@ == e,
                ConditionModel::PredicateRef(_) => r is None,
            },
    {
        match self {
            BreakpointConditionInput::Expression(expr) => Some(expr.as_str()),
            BreakpointConditionInput::PredicateRef(_) => None,
        }
    }

    /// The predicate name, where the condition refers to one.
    pub fn predicate_ref(&self) -> (r: Option<&str>)
        ensures
            match self@ {
                ConditionModel::Expression(_) => r is None,
                ConditionModel::PredicateRef(n) => r matches Some(x) && x@ == n,
            },
    {
        match self {
            BreakpointConditionInput::Expression(_) => None,
            BreakpointConditionInput::PredicateRef(name) => Some(name.as_str()),
        }
    }
}

/// A command of the debugger.
#[derive(Clone, Debug, PartialEq, Eq)]
pub enum Command {
    Help { topic: Option<String> },
    HelpSearch { needle: String },
    Attach,
    Session,
    Pump,
    Pause,
    Resume,
    Step,
    Snapshot { reason: String },
    Snapshots,
    SnapshotShow { snapshot_id: SnapshotId },
    Events { kind: Option<EventKind> },
    Event { event_id: EventId },
    Artifacts { event_id: EventId },
    ArtifactShow { event_id: EventId, index: usize },
    Query { expr: String },
    Entities { needle: String },
    Correlation { correlation_id: String },
    Breakpoints,
    BreakpointShow { trigger_id: TriggerId },
    BreakpointGroups,
    BreakpointDefinitionGroups,
    BreakpointPredicates,
    BreakpointPredicateAdd { name: String, expr: String },
    BreakpointPredicateRemove { name: String },
    BreakpointGroupEnable { group: String },
    BreakpointGroupDisable { group: String },
    Watchpoints,
    WatchpointShow { trigger_id: TriggerId },
    WatchpointAdd { spec: WatchpointSpec },
    WatchpointEnable { trigger_id: TriggerId },
    WatchpointDisable { trigger_id: TriggerId },
    WatchpointRemove { trigger_id: TriggerId },
    Triggers,
    TriggerExpr {
        name: String,
        condition: BreakpointConditionInput,
        fire_once: bool,
        group: Option<String>,
    },
    TriggerSnapshot {
        name: String,
        condition: BreakpointConditionInput,
        reason: String,
        group: Option<String>,
    },
    TriggerEnable { trigger_id: TriggerId },
    TriggerDisable { trigger_id: TriggerId },
    TriggerSave { path: String },
    TriggerLoad { path: String },
    TriggerRemove { trigger_id: TriggerId },
    Until { expr: String },
    Replay { selector_id: u64 },
    Spans,
    Frame { frame_index: usize },
    Span { boundary_id: BoundaryId },
    Source { event_id: EventId, before: usize, after: usize },
    SourceFiles,
    SourceFile { file: String },
    SourceView { file: String, line: usize, before: usize, after: usize },
    Script { script: String },
}

/// A command as a mathematical value; ids are their raw numbers.
pub enum CommandModel {
    Help { topic: Option<Seq<char>> },
    HelpSearch { needle: Seq<char> },
    Attach,
    Session,
    Pump,
    Pause,
    Resume,
    Step,
    Snapshot { reason: Seq<char> },
    Snapshots,
    SnapshotShow { snapshot_id: u64 },
    Events { kind: Option<EventKind> },
    Event { event_id: u64 },
    Artifacts { event_id: u64 },
    ArtifactShow { event_id: u64, index: nat },
    Query { expr: Seq<char> },
    Entities { needle: Seq<char> },
    Correlation { correlation_id: Seq<char> },
    Breakpoints,
    BreakpointShow { trigger_id: u64 },
    BreakpointGroups,
    BreakpointDefinitionGroups,
    BreakpointPredicates,
    BreakpointPredicateAdd { name: Seq<char>, expr: Seq<char> },
    BreakpointPredicateRemove { name: Seq<char> },
    BreakpointGroupEnable { group: Seq<char> },
    BreakpointGroupDisable { group: Seq<char> },
    Watchpoints,
    WatchpointShow { trigger_id: u64 },
    WatchpointAdd { spec: WatchpointSpecModel },
    WatchpointEnable { trigger_id: u64 },
    WatchpointDisable { trigger_id: u64 },
    WatchpointRemove { trigger_id: u64 },
    Triggers,
    TriggerExpr {
        name: Seq<char>,
        condition: ConditionModel,
        fire_once: bool,
        group: Option<Seq<char>>,
    },
    TriggerSnapshot {
        name: Seq<char>,
        condition: ConditionModel,
        reason: Seq<char>,
        group: Option<Seq<char>>,
    },
    TriggerEnable { trigger_id: u64 },
    TriggerDisable { trigger_id: u64 },
    TriggerSave { path: Seq<char> },
    TriggerLoad { path: Seq<char> },
    TriggerRemove { trigger_id: u64 },
    Until { expr: Seq<char> },
    Replay { selector_id: u64 },
    Spans,
    Frame { frame_index: nat },
    Span { boundary_id: u64 },
    Source { event_id: u64, before: nat, after: nat },
    SourceFiles,
    SourceFile { file: Seq<char> },
    SourceView { file: Seq<char>, line: nat, before: nat, after: nat },
    Script { script: Seq<char> },
}

pub open spec fn opt_text(o: Option<String>) -> Option<Seq<char>> {
    match o {
        Some(s) => Some(s@),
        None => None,
    }
}

impl View for Command {
    type V = CommandModel;

    open spec fn view(&self) -> CommandModel {
        match self {
            Command::Help { topic } => CommandModel::Help { topic: opt_text(*topic) },
            Command::HelpSearch { needle } => CommandModel::HelpSearch { needle: needle@ },
            Command::Attach => CommandModel::Attach,
            Command::Session => CommandModel::Session,
            Command::Pump => CommandModel::Pump,
            Command::Pause => CommandModel::Pause,
            Command::Resume => CommandModel::Resume,
            Command::Step => CommandModel::Step,
            Command::Snapshot { reason } => CommandModel::Snapshot { reason: reason@ },
            Command::Snapshots => CommandModel::Snapshots,
            Command::SnapshotShow { snapshot_id } => CommandModel::SnapshotShow {
                snapshot_id: snapshot_id.0,
            },
            Command::Events { kind } => CommandModel::Events { kind: *kind },
            Command::Event { event_id } => CommandModel::Event { event_id: event_id.0 },
            Command::Artifacts { event_id } => CommandModel::Artifacts { event_id: event_id.0 },
            Command::ArtifactShow { event_id, index } => CommandModel::ArtifactShow {
                event_id: event_id.0,
                index: *index as nat,
            },
            Command::Query { expr } => CommandModel::Query { expr: expr@ },
            Command::Entities { needle } => CommandModel::Entities { needle: needle@ },
            Command::Correlation { correlation_id } => CommandModel::Correlation {
                correlation_id: correlation_id@,
            },
            Command::Breakpoints => CommandModel::Breakpoints,
            Command::BreakpointShow { trigger_id } => CommandModel::BreakpointShow {
                trigger_id: trigger_id.0,
            },
            Command::BreakpointGroups => CommandModel::BreakpointGroups,
            Command::BreakpointDefinitionGroups => CommandModel::BreakpointDefinitionGroups,
            Command::BreakpointPredicates => CommandModel::BreakpointPredicates,
            Command::BreakpointPredicateAdd { name, expr } => CommandModel::BreakpointPredicateAdd {
                name: name@,
                expr: expr@,
            },
            Command::BreakpointPredicateRemove { name } => CommandModel::BreakpointPredicateRemove {
                name: name@,
            },
            Command::BreakpointGroupEnable { group } => CommandModel::BreakpointGroupEnable {
                group: group@,
            },
            Command::BreakpointGroupDisable { group } => CommandModel::BreakpointGroupDisable {
                group: group@,
            },
            Command::Watchpoints => CommandModel::Watchpoints,
            Command::WatchpointShow { trigger_id } => CommandModel::WatchpointShow {
                trigger_id: trigger_id.0,
            },
            Command::WatchpointAdd { spec } => CommandModel::WatchpointAdd { spec: spec@ },
            Command::WatchpointEnable { trigger_id } => CommandModel::WatchpointEnable {
                trigger_id: trigger_id.0,
            },
            Command::WatchpointDisable { trigger_id } => CommandModel::WatchpointDisable {
                trigger_id: trigger_id.0,
            },
            Command::WatchpointRemove { trigger_id } => CommandModel::WatchpointRemove {
                trigger_id: trigger_id.0,
            },
            Command::Triggers => CommandModel::Triggers,
            Command::TriggerExpr { name, condition, fire_once, group } => CommandModel::TriggerExpr {
                name: name@,
                condition: condition@,
                fire_once: *fire_once,
                group: opt_text(*group),
            },
            Command::TriggerSnapshot { name, condition, reason, group } => CommandModel::TriggerSnapshot {
                name: name@,
                condition: condition@,
                reason: reason@,
                group: opt_text(*group),
            },
            Command::TriggerEnable { trigger_id } => CommandModel::TriggerEnable {
                trigger_id: trigger_id.0,
            },
            Command::TriggerDisable { trigger_id } => CommandModel::TriggerDisable {
                trigger_id: trigger_id.0,
            },
            Command::TriggerSave { path } => CommandModel::TriggerSave { path: path@ },
            Command::TriggerLoad { path } => CommandModel::TriggerLoad { path: path@ },
            Command::TriggerRemove { trigger_id } => CommandModel::TriggerRemove {
                trigger_id: trigger_id.0,
            },
            Command::Until { expr } => CommandModel::Until { expr: expr@ },
            Command::Replay { selector_id } => CommandModel::Replay { selector_id: *selector_id },
            Command::Spans => CommandModel::Spans,
            Command::Frame { frame_index } => CommandModel::Frame { frame_index: *frame_index as nat },
            Command::Span { boundary_id } => CommandModel::Span { boundary_id: boundary_id.0 },
            Command::Source { event_id, before, after } => CommandModel::Source {
                event_id: event_id.0,
                before: *before as nat,
                after: *after as nat,
            },
            Command::SourceFiles => CommandModel::SourceFiles,
            Command::SourceFile { file } => CommandModel::SourceFile { file: file@ },
            Command::SourceView { file, line, before, after } => CommandModel::SourceView {
                file: file@,
                line: *line as nat,
                before: *before as nat,
                after: *after as nat,
            },
            Command::Script { script } => CommandModel::Script { script: script@ },
        }
    }
}

/// The result of a command: a summary line and detail lines.
#[derive(Clone, Debug, PartialEq, Eq)]
pub struct CommandOutput {
    pub summary: String,
    pub lines: Vec<String>,
}

impl CommandOutput {
    pub fn new(summary: String, lines: Vec<String>) -> (r: Self)
        ensures
            r.summary == summary,
            r.lines == lines,
    {
        CommandOutput { summary, lines }
    }
}

// ----- numbers and small pieces -----

/// What `ParseIntError` prints.
pub open spec fn int_error_text(e: IntParseError) -> Seq<char> {
    match e {
        IntParseError::Empty => "cannot parse integer from empty string"@,
        IntParseError::InvalidDigit => "invalid digit found in string"@,
        IntParseError::PosOverflow => "number too large to fit in target type"@,
    }
}

/// An unsigned number no larger than `max` read from `value`, or the
/// message naming `label`.
pub open spec fn uint_field(value: Seq<char>, label: Seq<char>, max: nat) -> Result<nat, Seq<char>> {
    match parse_uint(value, max) {
        Ok(v) => Ok(v),
        Err(e) => Err("invalid "@ + label + " '"@ + value + "': "@ + int_error_text(e)),
    }
}

pub open spec fn u64_field(value: Seq<char>, label: Seq<char>) -> Result<nat, Seq<char>> {
    uint_field(value, label, u64::MAX as nat)
}

pub open spec fn usize_field(value: Seq<char>, label: Seq<char>) -> Result<nat, Seq<char>> {
    uint_field(value, label, usize::MAX as nat)
}

/// The text of `s` after its prefix `p`.
pub open spec fn after(s: Seq<char>, p: Seq<char>) -> Seq<char> {
    s.subrange(p.len() as int, s.len() as int)
}

pub(crate) fn int_error_message(value: &str, label: &str, e: IntParseError) -> (r: SwatError)
    ensures
        r@ == "invalid "@ + label@ + " '"@ + value@ + "': "@ + int_error_text(e),
{
    let mut m = String::new();
    push_str(&mut m, "invalid ");
    push_str(&mut m, label);
    push_str(&mut m, " '");
    push_str(&mut m, value);
    push_str(&mut m, "': ");
    match e {
        IntParseError::Empty => push_str(&mut m, "cannot parse integer from empty string"),
        IntParseError::InvalidDigit => push_str(&mut m, "invalid digit found in string"),
        IntParseError::PosOverflow => push_str(&mut m, "number too large to fit in target type"),
    }
    SwatError::new(m)
}

fn parse_u64(value: &str, label: &str) -> (r: SwatResult<u64>)
    ensures
        match u64_field(value@, label@) {
            Ok(v) => r matches Ok(x) && x == v,
            Err(m) => r matches Err(e) && e@ == m,
        },
{
    match parse_uint_str(value, u64::MAX) {
        Ok(v) => Ok(v),
        Err(e) => Err(int_error_message(value, label, e)),
    }
}

fn parse_usize(value: &str, label: &str) -> (r: SwatResult<usize>)
    ensures
        match usize_field(value@, label@) {
            Ok(v) => r matches Ok(x) && x == v,
            Err(m) => r matches Err(e) && e@ == m,
        },
{
    let max: u64 = usize::MAX as u64;
    assert(max == usize::MAX);
    match parse_uint_str(value, max) {
        Ok(v) => Ok(v as usize),
        Err(e) => Err(int_error_message(value, label, e)),
    }
}

fn message(text: &str) -> (r: SwatError)
    ensures
        r@ == text@,
{
    SwatError::new(owned(text))
}

fn prefixed_message(first: &str, second: &str) -> (r: SwatError)
    ensures
        r@ == first@ + second@,
{
    let mut m = String::new();
    push_str(&mut m, first);
    push_str(&mut m, second);
    SwatError::new(m)
}

// ----- breakpoint conditions and groups -----

/// An optional leading `group=<name>` word of `rest`, and the text that
/// follows it.
pub open spec fn split_optional_group(rest: Seq<char>) -> (Option<Seq<char>>, Seq<char>) {
    let t = trim(rest);
    match split_ws_once(t) {
        None => if starts_with(t, "group="@) {
            (Some(after(t, "group="@)), seq![])
        } else {
            (None, t)
        },
        Some((head, tail)) => if starts_with(head, "group="@) {
            (Some(after(head, "group="@)), trim_start(tail))
        } else {
            (None, t)
        },
    }
}

fn split_optional_breakpoint_group<'a>(rest: &'a str) -> (r: (Option<String>, &'a str))
    ensures
        (opt_text(r.0), r.1@) == split_optional_group(rest@),
{
    let trimmed = trim_str(rest);
    match split_once_ws(trimmed) {
        None => match strip_prefix(trimmed, "group=") {
            Some(group) => {
                proof {
                    reveal_strlit("");
                }
                (Some(owned(group)), "")
            },
            None => (None, trimmed),
        },
        Some((head, tail)) => match strip_prefix(head, "group=") {
            Some(group) => (Some(owned(group)), trim_start_str(tail)),
            None => (None, trimmed),
        },
    }
}

/// A breakpoint condition: `@name` for a named predicate, else an
/// expression that must parse.
pub open spec fn condition_input(rest: Seq<char>) -> Result<ConditionModel, Seq<char>> {
    let t = trim(rest);
    if t.len() == 0 {
        Err("breakpoint condition requires an expression or @predicate reference"@)
    } else if starts_with(t, "@"@) {
        let p = after(t, "@"@);
        if p.len() == 0 || has_ws(p) {
            Err("predicate references must use a single token like @search_tool"@)
        } else {
            Ok(ConditionModel::PredicateRef(p))
        }
    } else {
        match parse_expression_spec(t) {
            Err(m) => Err(m),
            Ok(_) => Ok(ConditionModel::Expression(t)),
        }
    }
}

fn parse_breakpoint_condition_input(rest: &str) -> (r: SwatResult<BreakpointConditionInput>)
    ensures
        match condition_input(rest@) {
            Ok(c) => r matches Ok(x) && x@ == c,
            Err(m) => r matches Err(e) && e@ == m,
        },
{
    let trimmed = trim_str(rest);
    if char_len(trimmed) == 0 {
        return Err(message("breakpoint condition requires an expression or @predicate reference"));
    }
    if let Some(predicate) = strip_prefix(trimmed, "@") {
        if char_len(predicate) == 0 || contains_ws(predicate) {
            return Err(message("predicate references must use a single token like @search_tool"));
        }
        return Ok(BreakpointConditionInput::PredicateRef(owned(predicate)));
    }
    match parse_expression(trimmed) {
        Ok(_) => Ok(BreakpointConditionInput::Expression(owned(trimmed))),
        Err(e) => Err(e),
    }
}

/// `@name reason`: a predicate reference and a non-empty reason.
pub open spec fn split_predicate_reason(rest: Seq<char>) -> Option<(Seq<char>, Seq<char>)> {
    match split_ws_once(rest) {
        None => None,
        Some((head, tail)) => if !starts_with(head, "@"@) {
            None
        } else {
            let predicate = after(head, "@"@);
            let reason = trim(tail);
            if predicate.len() == 0 || reason.len() == 0 {
                None
            } else {
                Some((predicate, reason))
            }
        },
    }
}

fn split_predicate_ref_and_reason<'a>(rest: &'a str) -> (r: Option<(&'a str, &'a str)>)
    ensures
        match split_predicate_reason(rest@) {
            Some((p, q)) => r matches Some((x, y)) && x@ == p && y@ == q,
            None => r is None,
        },
{
    let (head, tail) = match split_once_ws(rest) {
        Some(pair) => pair,
        None => {
            return None;
        },
    };
    let predicate = match strip_prefix(head, "@") {
        Some(p) => p,
        None => {
            return None;
        },
    };
    let reason = trim_str(tail);
    if char_len(predicate) == 0 || char_len(reason) == 0 {
        None
    } else {
        Some((predicate, reason))
    }
}

/// The file path argument of `command`.
pub open spec fn trigger_path(rest: Seq<char>, command: Seq<char>) -> Result<Seq<char>, Seq<char>> {
    let p = trim(rest);
    if p.len() == 0 {
        Err(command + " requires a file path"@)
    } else {
        Ok(p)
    }
}

fn parse_trigger_path(rest: &str, command: &str) -> (r: SwatResult<String>)
    ensures
        match trigger_path(rest@, command@) {
            Ok(p) => r matches Ok(x) && x@ == p,
            Err(m) => r matches Err(e) && e@ == m,
        },
{
    let path = trim_str(rest);
    if char_len(path) == 0 {
        return Err(prefixed_message(command, " requires a file path"));
    }
    Ok(owned(path))
}

/// The group-name argument of `command`.
pub open spec fn group_name(rest: Seq<char>, command: Seq<char>) -> Result<Seq<char>, Seq<char>> {
    let g = trim(rest);
    if g.len() == 0 {
        Err(command + " requires a group name"@)
    } else {
        Ok(g)
    }
}

fn parse_breakpoint_group_name(rest: &str, command: &str) -> (r: SwatResult<String>)
    ensures
        match group_name(rest@, command@) {
            Ok(p) => r matches Ok(x) && x@ == p,
            Err(m) => r matches Err(e) && e@ == m,
        },
{
    let group = trim_str(rest);
    if char_len(group) == 0 {
        return Err(prefixed_message(command, " requires a group name"));
    }
    Ok(owned(group))
}

// ----- triggers -----

/// `<name> [group=<g>] <condition>`: a breakpoint on an expression or a
/// named predicate.
pub open spec fn trigger_expr(rest: Seq<char>, fire_once: bool) -> Result<CommandModel, Seq<char>> {
    let t = trim(rest);
    match split_ws_once(t) {
        None => Err("trigger-expr requires a name followed by an expression"@),
        Some((name, tail)) => {
            let (group, tail2) = split_optional_group(tail);
            match condition_input(tail2) {
                Err(m) => Err(m),
                Ok(c) => if c matches ConditionModel::Expression(e) && e.len() == 0 {
                    Err("trigger-expr requires a non-empty expression"@)
                } else {
                    Ok(CommandModel::TriggerExpr { name, condition: c, fire_once, group })
                },
            }
        },
    }
}

fn parse_trigger_expr(rest: &str, fire_once: bool) -> (r: SwatResult<Command>)
    ensures
        match trigger_expr(rest@, fire_once) {
            Ok(c) => r matches Ok(x) && x@ == c,
            Err(m) => r matches Err(e) && e@ == m,
        },
{
    let trimmed = trim_str(rest);
    let (name, tail) = match split_once_ws(trimmed) {
        Some(pair) => pair,
        None => {
            return Err(message("trigger-expr requires a name followed by an expression"));
        },
    };
    let (group, tail2) = split_optional_breakpoint_group(tail);
    let condition = match parse_breakpoint_condition_input(tail2) {
        Ok(c) => c,
        Err(e) => {
            return Err(e);
        },
    };
    let empty_expression = match &condition {
        BreakpointConditionInput::Expression(expr) => char_len(expr.as_str()) == 0,
        BreakpointConditionInput::PredicateRef(_) => false,
    };
    if empty_expression {
        return Err(message("trigger-expr requires a non-empty expression"));
    }
    Ok(Command::TriggerExpr { name: owned(name), condition, fire_once, group })
}

/// Scans the whitespace positions of `tail` from `k` down for a split
/// into an expression that parses and a non-empty reason.
pub open spec fn snapshot_scan(
    name: Seq<char>,
    group: Option<Seq<char>>,
    tail: Seq<char>,
    k: int,
) -> Result<CommandModel, Seq<char>>
    decreases k + 1,
{
    if k < 0 || k >= tail.len() {
        Err("trigger-snapshot requires a valid expression followed by a reason"@)
    } else if !is_ws(tail[k]) {
        snapshot_scan(name, group, tail, k - 1)
    } else {
        let expr = trim_end(tail.subrange(0, k));
        let reason = trim_start(tail.subrange(k, tail.len() as int));
        if expr.len() == 0 || reason.len() == 0 {
            snapshot_scan(name, group, tail, k - 1)
        } else if parse_expression_spec(expr) is Ok {
            Ok(
                CommandModel::TriggerSnapshot {
                    name,
                    condition: ConditionModel::Expression(expr),
                    reason,
                    group,
                },
            )
        } else {
            snapshot_scan(name, group, tail, k - 1)
        }
    }
}

/// `<name> [group=<g>] <condition> <reason>`: a breakpoint that takes a
/// snapshot. The condition is `@name`, or the longest prefix before a
/// whitespace that parses as an expression.
pub open spec fn trigger_snapshot(rest: Seq<char>) -> Result<CommandModel, Seq<char>> {
    let t = trim(rest);
    match split_ws_once(t) {
        None => Err("trigger-snapshot requires a name, expression, and reason"@),
        Some((name, tail0)) => {
            let tail1 = trim(tail0);
            if tail1.len() == 0 {
                Err("trigger-snapshot requires a name, expression, and reason"@)
            } else {
                let (group, tail2) = split_optional_group(tail1);
                let tail = trim(tail2);
                match split_predicate_reason(tail) {
                    Some((predicate, reason)) => Ok(
                        CommandModel::TriggerSnapshot {
                            name,
                            condition: ConditionModel::PredicateRef(predicate),
                            reason,
                            group,
                        },
                    ),
                    None => snapshot_scan(name, group, tail, tail.len() - 1),
                }
            }
        },
    }
}

fn parse_trigger_snapshot(rest: &str) -> (r: SwatResult<Command>)
    ensures
        match trigger_snapshot(rest@) {
            Ok(c) => r matches Ok(x) && x@ == c,
            Err(m) => r matches Err(e) && e@ == m,
        },
{
    let trimmed = trim_str(rest);
    let (name, tail0) = match split_once_ws(trimmed) {
        Some(pair) => pair,
        None => {
            return Err(message("trigger-snapshot requires a name, expression, and reason"));
        },
    };
    let tail1 = trim_str(tail0);
    if char_len(tail1) == 0 {
        return Err(message("trigger-snapshot requires a name, expression, and reason"));
    }
    let (group, tail2) = split_optional_breakpoint_group(tail1);
    let tail = trim_str(tail2);
    if let Some((predicate, reason)) = split_predicate_ref_and_reason(tail) {
        return Ok(
            Command::TriggerSnapshot {
                name: owned(name),
                condition: BreakpointConditionInput::PredicateRef(owned(predicate)),
                reason: owned(reason),
                group,
            },
        );
    }
    let n = char_len(tail);
    let ghost gm = opt_text(group);
    let mut k = n;
    while k > 0
        invariant
            k <= n,
            n == tail@.len(),
            opt_text(group) == gm,
            trigger_snapshot(rest@) == snapshot_scan(name@, gm, tail@, n - 1),
            snapshot_scan(name@, gm, tail@, n - 1) == snapshot_scan(name@, gm, tail@, k - 1),
        decreases k,
    {
        let index = k - 1;
        if is_whitespace(tail.get_char(index)) {
            let expr = trim_end_str(substr(tail, 0, index));
            let reason = trim_start_str(substr(tail, index, n));
            if char_len(expr) != 0 && char_len(reason) != 0 {
                if parse_expression(expr).is_ok() {
                    return Ok(
                        Command::TriggerSnapshot {
                            name: owned(name),
                            condition: BreakpointConditionInput::Expression(owned(expr)),
                            reason: owned(reason),
                            group,
                        },
                    );
                }
            }
        }
        k = index;
    }
    Err(message("trigger-snapshot requires a valid expression followed by a reason"))
}

// ----- watchpoints -----

/// Applies the `key=value` options `ws[i..]` to `spec`.
pub open spec fn apply_options(spec: WatchpointSpecModel, ws: Seq<Seq<char>>, i: int) -> Result<
    WatchpointSpecModel,
    Seq<char>,
>
    decreases ws.len() - i,
{
    if i >= ws.len() || i < 0 {
        Ok(spec)
    } else {
        let tok = ws[i];
        if starts_with(tok, "group="@) {
            let v = after(tok, "group="@);
            if v.len() == 0 {
                Err("watchpoint group cannot be empty"@)
            } else {
                apply_options(WatchpointSpecModel { group: Some(v), ..spec }, ws, i + 1)
            }
        } else if starts_with(tok, "path="@) {
            let v = after(tok, "path="@);
            if v.len() == 0 {
                Err("watchpoint path cannot be empty"@)
            } else {
                apply_options(WatchpointSpecModel { path: Some(v), ..spec }, ws, i + 1)
            }
        } else if starts_with(tok, "after="@) {
            match u64_field(after(tok, "after="@), "watchpoint after value"@) {
                Err(m) => Err(m),
                Ok(v) => apply_options(
                    WatchpointSpecModel { after_millis: Some(v as u64), ..spec },
                    ws,
                    i + 1,
                ),
            }
        } else if starts_with(tok, "kind="@) {
            let v = after(tok, "kind="@);
            match event_kind_of(v) {
                None => Err(unknown_kind_msg(v)),
                Some(k) => apply_options(WatchpointSpecModel { event_kind: Some(k), ..spec }, ws, i + 1),
            }
        } else if starts_with(tok, "summary="@) {
            let v = after(tok, "summary="@);
            if v.len() == 0 {
                Err("watchpoint summary cannot be empty"@)
            } else {
                apply_options(WatchpointSpecModel { summary_contains: Some(v), ..spec }, ws, i + 1)
            }
        } else {
            Err("unknown watchpoint option '"@ + tok + "'"@)
        }
    }
}

fn apply_watchpoint_options(initial: WatchpointSpec, options: &str) -> (r: SwatResult<WatchpointSpec>)
    ensures
        match apply_options(initial@, words(options@), 0) {
            Ok(w) => r matches Ok(x) && x@ == w,
            Err(m) => r matches Err(e) && e@ == m,
        },
{
    let tokens = split_whitespace(options);
    let ghost ws = words(options@);
    let mut spec = initial;
    let ghost s0 = spec@;
    let n = tokens.len();
    let mut i: usize = 0;
    while i < n
        invariant
            i <= n,
            n == tokens@.len(),
            n == ws.len(),
            ws == words(options@),
            forall|k: int| 0 <= k < n ==> (#[trigger] tokens@[k])@ == ws[k],
            s0 == initial@,
            apply_options(s0, ws, 0) == apply_options(spec@, ws, i as int),
        decreases n - i,
    {
        let token = tokens[i];
        assert(token@ == ws[i as int]);
        if let Some(group) = strip_prefix(token, "group=") {
            if char_len(group) == 0 {
                return Err(message("watchpoint group cannot be empty"));
            }
            spec.group = Some(owned(group));
        } else if let Some(path) = strip_prefix(token, "path=") {
            if char_len(path) == 0 {
                return Err(message("watchpoint path cannot be empty"));
            }
            spec.path = Some(owned(path));
        } else if let Some(value) = strip_prefix(token, "after=") {
            match parse_u64(value, "watchpoint after value") {
                Ok(v) => {
                    spec.after_millis = Some(v);
                },
                Err(e) => {
                    return Err(e);
                },
            }
        } else if let Some(kind) = strip_prefix(token, "kind=") {
            match parse_event_kind(kind) {
                Ok(k) => {
                    spec.event_kind = Some(k);
                },
                Err(e) => {
                    return Err(e);
                },
            }
        } else if let Some(summary) = strip_prefix(token, "summary=") {
            if char_len(summary) == 0 {
                return Err(message("watchpoint summary cannot be empty"));
            }
            spec.summary_contains = Some(owned(summary));
        } else {
            let mut m = String::new();
            push_str(&mut m, "unknown watchpoint option '");
            push_str(&mut m, token);
            push_str(&mut m, "'");
            return Err(SwatError::new(m));
        }
        i += 1;
    }
    Ok(spec)
}

/// `<name> <value_key> [options]`: a watchpoint definition.
pub open spec fn watchpoint_spec(rest: Seq<char>, fire_once: bool) -> Result<WatchpointSpecModel, Seq<char>> {
    let t = trim(rest);
    match split_ws_once(t) {
        None => Err("watchpoint requires a name followed by a value key"@),
        Some((name, tail0)) => {
            let tail = trim(tail0);
            let pair: Option<(Seq<char>, Seq<char>)> = match split_ws_once(tail) {
                Some((key, options)) => Some((key, trim(options))),
                None => if tail.len() > 0 {
                    Some((tail, seq![]))
                } else {
                    None
                },
            };
            match pair {
                None => Err("watchpoint requires a name followed by a value key"@),
                Some((key, options)) => {
                    let base = new_watchpoint(name, key);
                    let base = if fire_once {
                        WatchpointSpecModel { fire_once: true, ..base }
                    } else {
                        base
                    };
                    apply_options(base, words(options), 0)
                },
            }
        },
    }
}

fn parse_watchpoint_spec(rest: &str, fire_once: bool) -> (r: SwatResult<WatchpointSpec>)
    ensures
        match watchpoint_spec(rest@, fire_once) {
            Ok(w) => r matches Ok(x) && x@ == w,
            Err(m) => r matches Err(e) && e@ == m,
        },
{
    let trimmed = trim_str(rest);
    let (name, tail0) = match split_once_ws(trimmed) {
        Some(pair) => pair,
        None => {
            return Err(message("watchpoint requires a name followed by a value key"));
        },
    };
    let tail = trim_str(tail0);
    let (value_key, options) = match split_once_ws(tail) {
        Some((key, opts)) => (key, trim_str(opts)),
        None => {
            if char_len(tail) == 0 {
                return Err(message("watchpoint requires a name followed by a value key"));
            }
            proof {
                reveal_strlit("");
            }
            (tail, "")
        },
    };
    let mut spec = WatchpointSpec::new(owned(name), owned(value_key));
    if fire_once {
        spec = spec.fire_once();
    }
    apply_watchpoint_options(spec, options)
}

/// `<definition> -- <reason>`: a watchpoint that takes a snapshot.
pub open spec fn watchpoint_snapshot_spec(rest: Seq<char>) -> Result<WatchpointSpecModel, Seq<char>> {
    let t = trim(rest);
    match split_once_at(t, " -- "@) {
        None => Err("watchpoint snapshot requires options followed by ' -- <reason>'"@),
        Some((definition, reason0)) => {
            let reason = trim(reason0);
            if reason.len() == 0 {
                Err("watchpoint snapshot requires a non-empty reason"@)
            } else {
                match watchpoint_spec(definition, false) {
                    Err(m) => Err(m),
                    Ok(w) => Ok(WatchpointSpecModel { snapshot_reason: Some(reason), ..w }),
                }
            }
        },
    }
}

fn parse_watchpoint_snapshot_spec(rest: &str) -> (r: SwatResult<WatchpointSpec>)
    ensures
        match watchpoint_snapshot_spec(rest@) {
            Ok(w) => r matches Ok(x) && x@ == w,
            Err(m) => r matches Err(e) && e@ == m,
        },
{
    let trimmed = trim_str(rest);
    let (definition, reason0) = match split_once_str(trimmed, " -- ") {
        Some(pair) => pair,
        None => {
            return Err(message("watchpoint snapshot requires options followed by ' -- <reason>'"));
        },
    };
    let reason = trim_str(reason0);
    if char_len(reason) == 0 {
        return Err(message("watchpoint snapshot requires a non-empty reason"));
    }
    match parse_watchpoint_spec(definition, false) {
        Ok(spec) => Ok(spec.create_snapshot(owned(reason))),
        Err(e) => Err(e),
    }
}

// ----- the families -----

/// `<name> <expression>`: a named predicate; the expression must parse.
pub open spec fn predicate_add(rest: Seq<char>) -> Result<CommandModel, Seq<char>> {
    let t = trim(rest);
    match split_ws_once(t) {
        None => Err("breakpoint predicate add requires a name followed by an expression"@),
        Some((name, expr0)) => {
            let expr = trim(expr0);
            if expr.len() == 0 {
                Err("breakpoint predicate add requires a non-empty expression"@)
            } else {
                match parse_expression_spec(expr) {
                    Err(m) => Err(m),
                    Ok(_) => Ok(CommandModel::BreakpointPredicateAdd { name, expr }),
                }
            }
        },
    }
}

fn parse_breakpoint_predicate_add(rest: &str) -> (r: SwatResult<Command>)
    ensures
        match predicate_add(rest@) {
            Ok(c) => r matches Ok(x) && x@ == c,
            Err(m) => r matches Err(e) && e@ == m,
        },
{
    let trimmed = trim_str(rest);
    let (name, expr0) = match split_once_ws(trimmed) {
        Some(pair) => pair,
        None => {
            return Err(
                message("breakpoint predicate add requires a name followed by an expression"),
            );
        },
    };
    let expr = trim_str(expr0);
    if char_len(expr) == 0 {
        return Err(message("breakpoint predicate add requires a non-empty expression"));
    }
    match parse_expression(expr) {
        Ok(_) => Ok(Command::BreakpointPredicateAdd { name: owned(name), expr: owned(expr) }),
        Err(e) => Err(e),
    }
}

/// The `i`-th word of `ws` read as a `usize` named `label`, or `default`
/// where there is no such word.
pub open spec fn usize_word(ws: Seq<Seq<char>>, i: int, label: Seq<char>, default: nat) -> Result<
    nat,
    Seq<char>,
> {
    if i < ws.len() {
        usize_field(ws[i], label, )
    } else {
        Ok(default)
    }
}

fn usize_word_at(ws: &Vec<&str>, i: usize, label: &str, default: usize) -> (r: SwatResult<usize>)
    ensures
        match usize_word(ws@.map_values(|w: &str| w@), i as int, label@, default as nat) {
            Ok(v) => r matches Ok(x) && x == v,
            Err(m) => r matches Err(e) && e@ == m,
        },
{
    if i < ws.len() {
        parse_usize(ws[i], label)
    } else {
        Ok(default)
    }
}

/// `<event_id> [before] [after]`: the source around an event.
pub open spec fn source_show(rest: Seq<char>) -> Result<CommandModel, Seq<char>> {
    let ws = words(rest);
    if ws.len() == 0 {
        Err("source requires an event id"@)
    } else {
        match usize_word(ws, 1, "before context"@, 2) {
            Err(m) => Err(m),
            Ok(before) => match usize_word(ws, 2, "after context"@, 2) {
                Err(m) => Err(m),
                Ok(after) => match u64_field(ws[0], "event id"@) {
                    Err(m) => Err(m),
                    Ok(id) => Ok(CommandModel::Source { event_id: id as u64, before, after }),
                },
            },
        }
    }
}

proof fn lemma_words_view(parts: Seq<&str>, ws: Seq<Seq<char>>)
    requires
        parts.len() == ws.len(),
        forall|k: int| 0 <= k < parts.len() ==> (#[trigger] parts[k])@ == ws[k],
    ensures
        parts.map_values(|w: &str| w@) == ws,
{
    assert(parts.map_values(|w: &str| w@) =~= ws);
}

fn parse_source_show(rest: &str) -> (r: SwatResult<Command>)
    ensures
        match source_show(rest@) {
            Ok(c) => r matches Ok(x) && x@ == c,
            Err(m) => r matches Err(e) && e@ == m,
        },
{
    let parts = split_whitespace(rest);
    proof {
        lemma_words_view(parts@, words(rest@));
    }
    if parts.len() == 0 {
        return Err(message("source requires an event id"));
    }
    let before = match usize_word_at(&parts, 1, "before context", 2) {
        Ok(v) => v,
        Err(e) => {
            return Err(e);
        },
    };
    let after = match usize_word_at(&parts, 2, "after context", 2) {
        Ok(v) => v,
        Err(e) => {
            return Err(e);
        },
    };
    match parse_u64(parts[0], "event id") {
        Ok(id) => Ok(Command::Source { event_id: EventId(id), before, after }),
        Err(e) => Err(e),
    }
}

/// `<file> [line] [before] [after]`: a window of a source file.
pub open spec fn source_view(rest: Seq<char>) -> Result<CommandModel, Seq<char>> {
    let ws = words(rest);
    if ws.len() == 0 {
        Err("source view requires a path"@)
    } else {
        match usize_word(ws, 1, "source line"@, 1) {
            Err(m) => Err(m),
            Ok(line) => match usize_word(ws, 2, "before context"@, 2) {
                Err(m) => Err(m),
                Ok(before) => match usize_word(ws, 3, "after context"@, 8) {
                    Err(m) => Err(m),
                    Ok(after) => Ok(CommandModel::SourceView { file: ws[0], line, before, after }),
                },
            },
        }
    }
}

fn parse_source_view(rest: &str) -> (r: SwatResult<Command>)
    ensures
        match source_view(rest@) {
            Ok(c) => r matches Ok(x) && x@ == c,
            Err(m) => r matches Err(e) && e@ == m,
        },
{
    let parts = split_whitespace(rest);
    proof {
        lemma_words_view(parts@, words(rest@));
    }
    if parts.len() == 0 {
        return Err(message("source view requires a path"));
    }
    let line = match usize_word_at(&parts, 1, "source line", 1) {
        Ok(v) => v,
        Err(e) => {
            return Err(e);
        },
    };
    let before = match usize_word_at(&parts, 2, "before context", 2) {
        Ok(v) => v,
        Err(e) => {
            return Err(e);
        },
    };
    let after = match usize_word_at(&parts, 3, "after context", 8) {
        Ok(v) => v,
        Err(e) => {
            return Err(e);
        },
    };
    Ok(Command::SourceView { file: owned(parts[0]), line, before, after })
}

/// `stack [list | frame <index> | [show] <boundary_id>]`.
pub open spec fn stack_command(rest: Seq<char>) -> Result<CommandModel, Seq<char>> {
    let t = trim(rest);
    if t.len() == 0 || t == "list"@ {
        Ok(CommandModel::Spans)
    } else if starts_with(t, "frame "@) {
        match usize_field(trim(after(t, "frame "@)), "frame index"@) {
            Ok(v) => Ok(CommandModel::Frame { frame_index: v }),
            Err(m) => Err(m),
        }
    } else {
        let boundary = if starts_with(t, "show "@) {
            trim(after(t, "show "@))
        } else {
            t
        };
        match u64_field(boundary, "boundary id"@) {
            Ok(v) => Ok(CommandModel::Span { boundary_id: v as u64 }),
            Err(m) => Err(m),
        }
    }
}

fn parse_stack_command(rest: &str) -> (r: SwatResult<Command>)
    ensures
        match stack_command(rest@) {
            Ok(c) => r matches Ok(x) && x@ == c,
            Err(m) => r matches Err(e) && e@ == m,
        },
{
    let trimmed = trim_str(rest);
    if char_len(trimmed) == 0 || str_eq(trimmed, "list") {
        return Ok(Command::Spans);
    }
    if let Some(rest) = strip_prefix(trimmed, "frame ") {
        return match parse_usize(trim_str(rest), "frame index") {
            Ok(v) => Ok(Command::Frame { frame_index: v }),
            Err(e) => Err(e),
        };
    }
    let boundary = match strip_prefix(trimmed, "show ") {
        Some(rest) => trim_str(rest),
        None => trimmed,
    };
    match parse_u64(boundary, "boundary id") {
        Ok(v) => Ok(Command::Span { boundary_id: BoundaryId(v) }),
        Err(e) => Err(e),
    }
}

/// A `<label>` id argument read as a trigger id.
pub open spec fn trigger_id_arg(rest: Seq<char>, label: Seq<char>) -> Result<u64, Seq<char>> {
    match u64_field(trim(rest), label) {
        Ok(v) => Ok(v as u64),
        Err(m) => Err(m),
    }
}

fn parse_id_arg(rest: &str, label: &str) -> (r: SwatResult<u64>)
    ensures
        match trigger_id_arg(rest@, label@) {
            Ok(v) => r matches Ok(x) && x == v,
            Err(m) => r matches Err(e) && e@ == m,
        },
{
    parse_u64(trim_str(rest), label)
}

/// Builds `Ok(c)` of a command from an id, or passes the error on.
pub open spec fn with_id(r: Result<u64, Seq<char>>, c: spec_fn(u64) -> CommandModel) -> Result<
    CommandModel,
    Seq<char>,
> {
    match r {
        Ok(v) => Ok(c(v)),
        Err(m) => Err(m),
    }
}

/// The `breakpoint` family: listing, groups, predicates, definitions and
/// per-breakpoint actions.
pub open spec fn breakpoint_command(rest: Seq<char>) -> Result<CommandModel, Seq<char>> {
    let t = trim(rest);
    if t.len() == 0 || t == "list"@ {
        Ok(CommandModel::Breakpoints)
    } else if t == "groups"@ {
        Ok(CommandModel::BreakpointGroups)
    } else if t == "predicates"@ {
        Ok(CommandModel::BreakpointPredicates)
    } else if t == "group list"@ {
        Ok(CommandModel::BreakpointDefinitionGroups)
    } else if starts_with(t, "show "@) {
        with_id(
            trigger_id_arg(after(t, "show "@), "breakpoint id"@),
            |v: u64| CommandModel::BreakpointShow { trigger_id: v },
        )
    } else if starts_with(t, "predicate add "@) {
        predicate_add(after(t, "predicate add "@))
    } else if starts_with(t, "predicate remove "@) {
        let name = trim(after(t, "predicate remove "@));
        if name.len() == 0 {
            Err("breakpoint predicate remove requires a predicate name"@)
        } else {
            Ok(CommandModel::BreakpointPredicateRemove { name })
        }
    } else if starts_with(t, "group enable "@) {
        match group_name(after(t, "group enable "@), "breakpoint group enable"@) {
            Ok(g) => Ok(CommandModel::BreakpointGroupEnable { group: g }),
            Err(m) => Err(m),
        }
    } else if starts_with(t, "group disable "@) {
        match group_name(after(t, "group disable "@), "breakpoint group disable"@) {
            Ok(g) => Ok(CommandModel::BreakpointGroupDisable { group: g }),
            Err(m) => Err(m),
        }
    } else if starts_with(t, "add "@) {
        trigger_expr(after(t, "add "@), false)
    } else if starts_with(t, "once "@) {
        trigger_expr(after(t, "once "@), true)
    } else if starts_with(t, "snapshot "@) {
        trigger_snapshot(after(t, "snapshot "@))
    } else if starts_with(t, "enable "@) {
        with_id(
            trigger_id_arg(after(t, "enable "@), "breakpoint id"@),
            |v: u64| CommandModel::TriggerEnable { trigger_id: v },
        )
    } else if starts_with(t, "disable "@) {
        with_id(
            trigger_id_arg(after(t, "disable "@), "breakpoint id"@),
            |v: u64| CommandModel::TriggerDisable { trigger_id: v },
        )
    } else if starts_with(t, "save "@) {
        match trigger_path(after(t, "save "@), "breakpoint save"@) {
            Ok(p) => Ok(CommandModel::TriggerSave { path: p }),
            Err(m) => Err(m),
        }
    } else if starts_with(t, "load "@) {
        match trigger_path(after(t, "load "@), "breakpoint load"@) {
            Ok(p) => Ok(CommandModel::TriggerLoad { path: p }),
            Err(m) => Err(m),
        }
    } else if starts_with(t, "remove "@) {
        with_id(
            trigger_id_arg(after(t, "remove "@), "breakpoint id"@),
            |v: u64| CommandModel::TriggerRemove { trigger_id: v },
        )
    } else if starts_with(t, "until "@) {
        let expr = trim(after(t, "until "@));
        if expr.len() == 0 {
            Err("breakpoint until requires a non-empty expression"@)
        } else {
            Ok(CommandModel::Until { expr })
        }
    } else {
        Err("unknown breakpoint command: "@ + t)
    }
}

fn parse_breakpoint_command(rest: &str) -> (r: SwatResult<Command>)
    ensures
        match breakpoint_command(rest@) {
            Ok(c) => r matches Ok(x) && x@ == c,
            Err(m) => r matches Err(e) && e@ == m,
        },
{
    let trimmed = trim_str(rest);
    if char_len(trimmed) == 0 || str_eq(trimmed, "list") {
        return Ok(Command::Breakpoints);
    }
    if str_eq(trimmed, "groups") {
        return Ok(Command::BreakpointGroups);
    }
    if str_eq(trimmed, "predicates") {
        return Ok(Command::BreakpointPredicates);
    }
    if str_eq(trimmed, "group list") {
        return Ok(Command::BreakpointDefinitionGroups);
    }
    if let Some(rest) = strip_prefix(trimmed, "show ") {
        return match parse_id_arg(rest, "breakpoint id") {
            Ok(v) => Ok(Command::BreakpointShow { trigger_id: TriggerId(v) }),
            Err(e) => Err(e),
        };
    }
    if let Some(rest) = strip_prefix(trimmed, "predicate add ") {
        return parse_breakpoint_predicate_add(rest);
    }
    if let Some(rest) = strip_prefix(trimmed, "predicate remove ") {
        let name = trim_str(rest);
        if char_len(name) == 0 {
            return Err(message("breakpoint predicate remove requires a predicate name"));
        }
        return Ok(Command::BreakpointPredicateRemove { name: owned(name) });
    }
    if let Some(rest) = strip_prefix(trimmed, "group enable ") {
        return match parse_breakpoint_group_name(rest, "breakpoint group enable") {
            Ok(g) => Ok(Command::BreakpointGroupEnable { group: g }),
            Err(e) => Err(e),
        };
    }
    if let Some(rest) = strip_prefix(trimmed, "group disable ") {
        return match parse_breakpoint_group_name(rest, "breakpoint group disable") {
            Ok(g) => Ok(Command::BreakpointGroupDisable { group: g }),
            Err(e) => Err(e),
        };
    }
    if let Some(rest) = strip_prefix(trimmed, "add ") {
        return parse_trigger_expr(rest, false);
    }
    if let Some(rest) = strip_prefix(trimmed, "once ") {
        return parse_trigger_expr(rest, true);
    }
    if let Some(rest) = strip_prefix(trimmed, "snapshot ") {
        return parse_trigger_snapshot(rest);
    }
    if let Some(rest) = strip_prefix(trimmed, "enable ") {
        return match parse_id_arg(rest, "breakpoint id") {
            Ok(v) => Ok(Command::TriggerEnable { trigger_id: TriggerId(v) }),
            Err(e) => Err(e),
        };
    }
    if let Some(rest) = strip_prefix(trimmed, "disable ") {
        return match parse_id_arg(rest, "breakpoint id") {
            Ok(v) => Ok(Command::TriggerDisable { trigger_id: TriggerId(v) }),
            Err(e) => Err(e),
        };
    }
    if let Some(rest) = strip_prefix(trimmed, "save ") {
        return match parse_trigger_path(rest, "breakpoint save") {
            Ok(p) => Ok(Command::TriggerSave { path: p }),
            Err(e) => Err(e),
        };
    }
    if let Some(rest) = strip_prefix(trimmed, "load ") {
        return match parse_trigger_path(rest, "breakpoint load") {
            Ok(p) => Ok(Command::TriggerLoad { path: p }),
            Err(e) => Err(e),
        };
    }
    if let Some(rest) = strip_prefix(trimmed, "remove ") {
        return match parse_id_arg(rest, "breakpoint id") {
            Ok(v) => Ok(Command::TriggerRemove { trigger_id: TriggerId(v) }),
            Err(e) => Err(e),
        };
    }
    if let Some(rest) = strip_prefix(trimmed, "until ") {
        let expr = trim_str(rest);
        if char_len(expr) == 0 {
            return Err(message("breakpoint until requires a non-empty expression"));
        }
        return Ok(Command::Until { expr: owned(expr) });
    }
    Err(prefixed_message("unknown breakpoint command: ", trimmed))
}

/// The `watchpoint` family.
pub open spec fn watchpoint_command(rest: Seq<char>) -> Result<CommandModel, Seq<char>> {
    let t = trim(rest);
    if t.len() == 0 || t == "list"@ {
        Ok(CommandModel::Watchpoints)
    } else if starts_with(t, "show "@) {
        with_id(
            trigger_id_arg(after(t, "show "@), "watchpoint id"@),
            |v: u64| CommandModel::WatchpointShow { trigger_id: v },
        )
    } else if starts_with(t, "add "@) {
        match watchpoint_spec(after(t, "add "@), false) {
            Ok(w) => Ok(CommandModel::WatchpointAdd { spec: w }),
            Err(m) => Err(m),
        }
    } else if starts_with(t, "once "@) {
        match watchpoint_spec(after(t, "once "@), true) {
            Ok(w) => Ok(CommandModel::WatchpointAdd { spec: w }),
            Err(m) => Err(m),
        }
    } else if starts_with(t, "snapshot "@) {
        match watchpoint_snapshot_spec(after(t, "snapshot "@)) {
            Ok(w) => Ok(CommandModel::WatchpointAdd { spec: w }),
            Err(m) => Err(m),
        }
    } else if starts_with(t, "enable "@) {
        with_id(
            trigger_id_arg(after(t, "enable "@), "watchpoint id"@),
            |v: u64| CommandModel::WatchpointEnable { trigger_id: v },
        )
    } else if starts_with(t, "disable "@) {
        with_id(
            trigger_id_arg(after(t, "disable "@), "watchpoint id"@),
            |v: u64| CommandModel::WatchpointDisable { trigger_id: v },
        )
    } else if starts_with(t, "remove "@) {
        with_id(
            trigger_id_arg(after(t, "remove "@), "watchpoint id"@),
            |v: u64| CommandModel::WatchpointRemove { trigger_id: v },
        )
    } else if starts_with(t, "save "@) {
        match trigger_path(after(t, "save "@), "watchpoint save"@) {
            Ok(p) => Ok(CommandModel::TriggerSave { path: p }),
            Err(m) => Err(m),
        }
    } else if starts_with(t, "load "@) {
        match trigger_path(after(t, "load "@), "watchpoint load"@) {
            Ok(p) => Ok(CommandModel::TriggerLoad { path: p }),
            Err(m) => Err(m),
        }
    } else {
        Err("unknown watchpoint command: "@ + t)
    }
}

fn parse_watchpoint_command(rest: &str) -> (r: SwatResult<Command>)
    ensures
        match watchpoint_command(rest@) {
            Ok(c) => r matches Ok(x) && x@ == c,
            Err(m) => r matches Err(e) && e@ == m,
        },
{
    let trimmed = trim_str(rest);
    if char_len(trimmed) == 0 || str_eq(trimmed, "list") {
        return Ok(Command::Watchpoints);
    }
    if let Some(rest) = strip_prefix(trimmed, "show ") {
        return match parse_id_arg(rest, "watchpoint id") {
            Ok(v) => Ok(Command::WatchpointShow { trigger_id: TriggerId(v) }),
            Err(e) => Err(e),
        };
    }
    if let Some(rest) = strip_prefix(trimmed, "add ") {
        return match parse_watchpoint_spec(rest, false) {
            Ok(w) => Ok(Command::WatchpointAdd { spec: w }),
            Err(e) => Err(e),
        };
    }
    if let Some(rest) = strip_prefix(trimmed, "once ") {
        return match parse_watchpoint_spec(rest, true) {
            Ok(w) => Ok(Command::WatchpointAdd { spec: w }),
            Err(e) => Err(e),
        };
    }
    if let Some(rest) = strip_prefix(trimmed, "snapshot ") {
        return match parse_watchpoint_snapshot_spec(rest) {
            Ok(w) => Ok(Command::WatchpointAdd { spec: w }),
            Err(e) => Err(e),
        };
    }
    if let Some(rest) = strip_prefix(trimmed, "enable ") {
        return match parse_id_arg(rest, "watchpoint id") {
            Ok(v) => Ok(Command::WatchpointEnable { trigger_id: TriggerId(v) }),
            Err(e) => Err(e),
        };
    }
    if let Some(rest) = strip_prefix(trimmed, "disable ") {
        return match parse_id_arg(rest, "watchpoint id") {
            Ok(v) => Ok(Command::WatchpointDisable { trigger_id: TriggerId(v) }),
            Err(e) => Err(e),
        };
    }
    if let Some(rest) = strip_prefix(trimmed, "remove ") {
        return match parse_id_arg(rest, "watchpoint id") {
            Ok(v) => Ok(Command::WatchpointRemove { trigger_id: TriggerId(v) }),
            Err(e) => Err(e),
        };
    }
    if let Some(rest) = strip_prefix(trimmed, "save ") {
        return match parse_trigger_path(rest, "watchpoint save") {
            Ok(p) => Ok(Command::TriggerSave { path: p }),
            Err(e) => Err(e),
        };
    }
    if let Some(rest) = strip_prefix(trimmed, "load ") {
        return match parse_trigger_path(rest, "watchpoint load") {
            Ok(p) => Ok(Command::TriggerLoad { path: p }),
            Err(e) => Err(e),
        };
    }
    Err(prefixed_message("unknown watchpoint command: ", trimmed))
}

/// The `source` family, after `source `.
pub open spec fn source_command(rest0: Seq<char>) -> Result<CommandModel, Seq<char>> {
    let rest = trim(rest0);
    if rest == "files"@ {
        Ok(CommandModel::SourceFiles)
    } else if starts_with(rest, "show "@) {
        source_show(after(rest, "show "@))
    } else if starts_with(rest, "view "@) {
        source_view(after(rest, "view "@))
    } else if starts_with(rest, "file "@) {
        let file = trim(after(rest, "file "@));
        if file.len() == 0 {
            Err("source file requires a path"@)
        } else {
            Ok(CommandModel::SourceFile { file })
        }
    } else {
        source_show(rest)
    }
}

/// What reading the trimmed line `t` gives, for the commands from
/// `triggers` on.
pub open spec fn command_tail(t: Seq<char>) -> Result<CommandModel, Seq<char>> {
    if t == "triggers"@ {
        Ok(CommandModel::Triggers)
    } else if starts_with(t, "trigger-expr-once "@) {
        trigger_expr(after(t, "trigger-expr-once "@), true)
    } else if starts_with(t, "trigger-expr "@) {
        trigger_expr(after(t, "trigger-expr "@), false)
    } else if starts_with(t, "trigger-snapshot "@) {
        trigger_snapshot(after(t, "trigger-snapshot "@))
    } else if starts_with(t, "trigger-enable "@) {
        with_id(
            trigger_id_arg(after(t, "trigger-enable "@), "trigger id"@),
            |v: u64| CommandModel::TriggerEnable { trigger_id: v },
        )
    } else if starts_with(t, "trigger-disable "@) {
        with_id(
            trigger_id_arg(after(t, "trigger-disable "@), "trigger id"@),
            |v: u64| CommandModel::TriggerDisable { trigger_id: v },
        )
    } else if starts_with(t, "trigger-save "@) {
        match trigger_path(after(t, "trigger-save "@), "trigger-save"@) {
            Ok(p) => Ok(CommandModel::TriggerSave { path: p }),
            Err(m) => Err(m),
        }
    } else if starts_with(t, "trigger-load "@) {
        match trigger_path(after(t, "trigger-load "@), "trigger-load"@) {
            Ok(p) => Ok(CommandModel::TriggerLoad { path: p }),
            Err(m) => Err(m),
        }
    } else if starts_with(t, "trigger-remove "@) {
        with_id(
            trigger_id_arg(after(t, "trigger-remove "@), "trigger id"@),
            |v: u64| CommandModel::TriggerRemove { trigger_id: v },
        )
    } else if starts_with(t, "until "@) {
        let expr = trim(after(t, "until "@));
        if expr.len() == 0 {
            Err("until requires a non-empty expression"@)
        } else {
            Ok(CommandModel::Until { expr })
        }
    } else if starts_with(t, "replay "@) {
        with_id(
            trigger_id_arg(after(t, "replay "@), "snapshot or boundary id"@),
            |v: u64| CommandModel::Replay { selector_id: v },
        )
    } else if t == "spans"@ {
        Ok(CommandModel::Spans)
    } else if starts_with(t, "span "@) {
        with_id(
            trigger_id_arg(after(t, "span "@), "boundary id"@),
            |v: u64| CommandModel::Span { boundary_id: v },
        )
    } else if starts_with(t, "source "@) {
        source_command(after(t, "source "@))
    } else if starts_with(t, "script "@) {
        Ok(CommandModel::Script { script: after(t, "script "@) })
    } else {
        Err("unknown command: "@ + t)
    }
}

/// What reading the trimmed line `t` gives, for the commands before
/// `triggers`.
pub open spec fn command_head(t: Seq<char>) -> Result<CommandModel, Seq<char>> {
    if t.len() == 0 {
        Err("command is empty"@)
    } else if t == "help search"@ {
        Err("help search requires a non-empty pattern"@)
    } else if starts_with(t, "help search "@) {
        let needle = trim(after(t, "help search "@));
        if needle.len() == 0 {
            Err("help search requires a non-empty pattern"@)
        } else {
            Ok(CommandModel::HelpSearch { needle })
        }
    } else if t == "help"@ {
        Ok(CommandModel::Help { topic: None })
    } else if starts_with(t, "help "@) {
        Ok(CommandModel::Help { topic: Some(trim(after(t, "help "@))) })
    } else if t == "attach"@ {
        Ok(CommandModel::Attach)
    } else if t == "session"@ || t == "status"@ {
        Ok(CommandModel::Session)
    } else if t == "stack"@ || t == "stack list"@ {
        Ok(CommandModel::Spans)
    } else if starts_with(t, "stack "@) {
        stack_command(after(t, "stack "@))
    } else if t == "breakpoint"@ || t == "breakpoints"@ || t == "breakpoint list"@ {
        Ok(CommandModel::Breakpoints)
    } else if starts_with(t, "breakpoint "@) {
        breakpoint_command(after(t, "breakpoint "@))
    } else if t == "watchpoint"@ || t == "watchpoints"@ || t == "watchpoint list"@ {
        Ok(CommandModel::Watchpoints)
    } else if starts_with(t, "watchpoint "@) {
        watchpoint_command(after(t, "watchpoint "@))
    } else if t == "pump"@ {
        Ok(CommandModel::Pump)
    } else if t == "pause"@ {
        Ok(CommandModel::Pause)
    } else if t == "resume"@ {
        Ok(CommandModel::Resume)
    } else if t == "step"@ {
        Ok(CommandModel::Step)
    } else if starts_with(t, "snapshot "@) {
        Ok(CommandModel::Snapshot { reason: trim(after(t, "snapshot "@)) })
    } else if t == "snapshots"@ {
        Ok(CommandModel::Snapshots)
    } else if starts_with(t, "snapshot-show "@) {
        with_id(
            trigger_id_arg(after(t, "snapshot-show "@), "snapshot id"@),
            |v: u64| CommandModel::SnapshotShow { snapshot_id: v },
        )
    } else if starts_with(t, "events"@) {
        let rest = trim(after(t, "events"@));
        if rest.len() == 0 {
            Ok(CommandModel::Events { kind: None })
        } else {
            match event_kind_of(rest) {
                Some(k) => Ok(CommandModel::Events { kind: Some(k) }),
                None => Err(unknown_kind_msg(rest)),
            }
        }
    } else if starts_with(t, "event "@) {
        with_id(
            trigger_id_arg(after(t, "event "@), "event id"@),
            |v: u64| CommandModel::Event { event_id: v },
        )
    } else if starts_with(t, "artifacts "@) {
        with_id(
            trigger_id_arg(after(t, "artifacts "@), "event id"@),
            |v: u64| CommandModel::Artifacts { event_id: v },
        )
    } else if starts_with(t, "artifact-show "@) {
        let ws = words(after(t, "artifact-show "@));
        if ws.len() == 0 {
            Err("artifact-show requires an event id"@)
        } else {
            match usize_word(ws, 1, "artifact index"@, 0) {
                Err(m) => Err(m),
                Ok(index) => match u64_field(ws[0], "event id"@) {
                    Err(m) => Err(m),
                    Ok(id) => Ok(CommandModel::ArtifactShow { event_id: id as u64, index }),
                },
            }
        }
    } else if starts_with(t, "query "@) {
        Ok(CommandModel::Query { expr: trim(after(t, "query "@)) })
    } else if starts_with(t, "entities "@) {
        Ok(CommandModel::Entities { needle: trim(after(t, "entities "@)) })
    } else if starts_with(t, "correlation "@) {
        Ok(CommandModel::Correlation { correlation_id: trim(after(t, "correlation "@)) })
    } else {
        command_tail(t)
    }
}

/// What reading `input` as a command gives.
pub open spec fn command_spec(input: Seq<char>) -> Result<CommandModel, Seq<char>> {
    command_head(trim(input))
}

fn parse_source_command(rest0: &str) -> (r: SwatResult<Command>)
    ensures
        match source_command(rest0@) {
            Ok(c) => r matches Ok(x) && x@ == c,
            Err(m) => r matches Err(e) && e@ == m,
        },
{
    let rest = trim_str(rest0);
    if str_eq(rest, "files") {
        return Ok(Command::SourceFiles);
    }
    if let Some(rest) = strip_prefix(rest, "show ") {
        return parse_source_show(rest);
    }
    if let Some(rest) = strip_prefix(rest, "view ") {
        return parse_source_view(rest);
    }
    if let Some(rest) = strip_prefix(rest, "file ") {
        let file = trim_str(rest);
        if char_len(file) == 0 {
            return Err(message("source file requires a path"));
        }
        return Ok(Command::SourceFile { file: owned(file) });
    }
    parse_source_show(rest)
}

fn parse_command_tail(trimmed: &str) -> (r: SwatResult<Command>)
    ensures
        match command_tail(trimmed@) {
            Ok(c) => r matches Ok(x) && x@ == c,
            Err(m) => r matches Err(e) && e@ == m,
        },
{
    if str_eq(trimmed, "triggers") {
        return Ok(Command::Triggers);
    }
    if let Some(rest) = strip_prefix(trimmed, "trigger-expr-once ") {
        return parse_trigger_expr(rest, true);
    }
    if let Some(rest) = strip_prefix(trimmed, "trigger-expr ") {
        return parse_trigger_expr(rest, false);
    }
    if let Some(rest) = strip_prefix(trimmed, "trigger-snapshot ") {
        return parse_trigger_snapshot(rest);
    }
    if let Some(rest) = strip_prefix(trimmed, "trigger-enable ") {
        return match parse_id_arg(rest, "trigger id") {
            Ok(v) => Ok(Command::TriggerEnable { trigger_id: TriggerId(v) }),
            Err(e) => Err(e),
        };
    }
    if let Some(rest) = strip_prefix(trimmed, "trigger-disable ") {
        return match parse_id_arg(rest, "trigger id") {
            Ok(v) => Ok(Command::TriggerDisable { trigger_id: TriggerId(v) }),
            Err(e) => Err(e),
        };
    }
    if let Some(rest) = strip_prefix(trimmed, "trigger-save ") {
        return match parse_trigger_path(rest, "trigger-save") {
            Ok(p) => Ok(Command::TriggerSave { path: p }),
            Err(e) => Err(e),
        };
    }
    if let Some(rest) = strip_prefix(trimmed, "trigger-load ") {
        return match parse_trigger_path(rest, "trigger-load") {
            Ok(p) => Ok(Command::TriggerLoad { path: p }),
            Err(e) => Err(e),
        };
    }
    if let Some(rest) = strip_prefix(trimmed, "trigger-remove ") {
        return match parse_id_arg(rest, "trigger id") {
            Ok(v) => Ok(Command::TriggerRemove { trigger_id: TriggerId(v) }),
            Err(e) => Err(e),
        };
    }
    if let Some(rest) = strip_prefix(trimmed, "until ") {
        let expr = trim_str(rest);
        if char_len(expr) == 0 {
            return Err(message("until requires a non-empty expression"));
        }
        return Ok(Command::Until { expr: owned(expr) });
    }
    if let Some(rest) = strip_prefix(trimmed, "replay ") {
        return match parse_id_arg(rest, "snapshot or boundary id") {
            Ok(v) => Ok(Command::Replay { selector_id: v }),
            Err(e) => Err(e),
        };
    }
    if str_eq(trimmed, "spans") {
        return Ok(Command::Spans);
    }
    if let Some(rest) = strip_prefix(trimmed, "span ") {
        return match parse_id_arg(rest, "boundary id") {
            Ok(v) => Ok(Command::Span { boundary_id: BoundaryId(v) }),
            Err(e) => Err(e),
        };
    }
    if let Some(rest) = strip_prefix(trimmed, "source ") {
        return parse_source_command(rest);
    }
    if let Some(rest) = strip_prefix(trimmed, "script ") {
        return Ok(Command::Script { script: owned(rest) });
    }
    Err(prefixed_message("unknown command: ", trimmed))
}

/// Reads one command from a line of input. Leading and trailing
/// whitespace is ignored; the first matching form wins.
pub fn parse_command(input: &str) -> (r: SwatResult<Command>)
    ensures
        match command_spec(input@) {
            Ok(c) => r matches Ok(x) && x@ == c,
            Err(m) => r matches Err(e) && e@ == m,
        },
{
    let trimmed = trim_str(input);
    if char_len(trimmed) == 0 {
        return Err(message("command is empty"));
    }
    if str_eq(trimmed, "help search") {
        return Err(message("help search requires a non-empty pattern"));
    }
    if let Some(rest) = strip_prefix(trimmed, "help search ") {
        let needle = trim_str(rest);
        if char_len(needle) == 0 {
            return Err(message("help search requires a non-empty pattern"));
        }
        return Ok(Command::HelpSearch { needle: owned(needle) });
    }
    if str_eq(trimmed, "help") {
        return Ok(Command::Help { topic: None });
    }
    if let Some(rest) = strip_prefix(trimmed, "help ") {
        return Ok(Command::Help { topic: Some(owned(trim_str(rest))) });
    }
    if str_eq(trimmed, "attach") {
        return Ok(Command::Attach);
    }
    if str_eq(trimmed, "session") || str_eq(trimmed, "status") {
        return Ok(Command::Session);
    }
    if str_eq(trimmed, "stack") || str_eq(trimmed, "stack list") {
        return Ok(Command::Spans);
    }
    if let Some(rest) = strip_prefix(trimmed, "stack ") {
        return parse_stack_command(rest);
    }
    if str_eq(trimmed, "breakpoint") || str_eq(trimmed, "breakpoints") || str_eq(
        trimmed,
        "breakpoint list",
    ) {
        return Ok(Command::Breakpoints);
    }
    if let Some(rest) = strip_prefix(trimmed, "breakpoint ") {
        return parse_breakpoint_command(rest);
    }
    if str_eq(trimmed, "watchpoint") || str_eq(trimmed, "watchpoints") || str_eq(
        trimmed,
        "watchpoint list",
    ) {
        return Ok(Command::Watchpoints);
    }
    if let Some(rest) = strip_prefix(trimmed, "watchpoint ") {
        return parse_watchpoint_command(rest);
    }
    if str_eq(trimmed, "pump") {
        return Ok(Command::Pump);
    }
    if str_eq(trimmed, "pause") {
        return Ok(Command::Pause);
    }
    if str_eq(trimmed, "resume") {
        return Ok(Command::Resume);
    }
    if str_eq(trimmed, "step") {
        return Ok(Command::Step);
    }
    if let Some(reason) = strip_prefix(trimmed, "snapshot ") {
        return Ok(Command::Snapshot { reason: owned(trim_str(reason)) });
    }
    if str_eq(trimmed, "snapshots") {
        return Ok(Command::Snapshots);
    }
    if let Some(rest) = strip_prefix(trimmed, "snapshot-show ") {
        return match parse_id_arg(rest, "snapshot id") {
            Ok(v) => Ok(Command::SnapshotShow { snapshot_id: SnapshotId(v) }),
            Err(e) => Err(e),
        };
    }
    if let Some(rest) = strip_prefix(trimmed, "events") {
        let rest = trim_str(rest);
        if char_len(rest) == 0 {
            return Ok(Command::Events { kind: None });
        }
        return match parse_event_kind(rest) {
            Ok(k) => Ok(Command::Events { kind: Some(k) }),
            Err(e) => Err(e),
        };
    }
    if let Some(rest) = strip_prefix(trimmed, "event ") {
        return match parse_id_arg(rest, "event id") {
            Ok(v) => Ok(Command::Event { event_id: EventId(v) }),
            Err(e) => Err(e),
        };
    }
    if let Some(rest) = strip_prefix(trimmed, "artifacts ") {
        return match parse_id_arg(rest, "event id") {
            Ok(v) => Ok(Command::Artifacts { event_id: EventId(v) }),
            Err(e) => Err(e),
        };
    }
    if let Some(rest) = strip_prefix(trimmed, "artifact-show ") {
        let parts = split_whitespace(rest);
        proof {
            lemma_words_view(parts@, words(rest@));
        }
        if parts.len() == 0 {
            return Err(message("artifact-show requires an event id"));
        }
        let index = match usize_word_at(&parts, 1, "artifact index", 0) {
            Ok(v) => v,
            Err(e) => {
                return Err(e);
            },
        };
        return match parse_u64(parts[0], "event id") {
            Ok(id) => Ok(Command::ArtifactShow { event_id: EventId(id), index }),
            Err(e) => Err(e),
        };
    }
    if let Some(rest) = strip_prefix(trimmed, "query ") {
        return Ok(Command::Query { expr: owned(trim_str(rest)) });
    }
    if let Some(rest) = strip_prefix(trimmed, "entities ") {
        return Ok(Command::Entities { needle: owned(trim_str(rest)) });
    }
    if let Some(rest) = strip_prefix(trimmed, "correlation ") {
        return Ok(Command::Correlation { correlation_id: owned(trim_str(rest)) });
    }
    parse_command_tail(trimmed)
}

/// `breakpoint once <name> <expr>` reads as `breakpoint add <name> <expr>`
/// does, the same breakpoint or the same error, except that it fires once.
pub proof fn law_once_is_add_firing_once(once_line: Seq<char>, add_line: Seq<char>, r: Seq<char>)
    requires
        trim(once_line) == "once "@ + r,
        trim(add_line) == "add "@ + r,
    ensures
        match breakpoint_command(add_line) {
            Ok(CommandModel::TriggerExpr { name, condition, fire_once, group }) => !fire_once
                && breakpoint_command(once_line) == Ok::<CommandModel, Seq<char>>(
                CommandModel::TriggerExpr { name, condition, fire_once: true, group },
            ),
            Ok(_) => false,
            Err(m) => breakpoint_command(once_line) == Err::<CommandModel, Seq<char>>(m),
        },
{
    reveal_strlit("list");
    reveal_strlit("groups");
    reveal_strlit("predicates");
    reveal_strlit("group list");
    reveal_strlit("show ");
    reveal_strlit("predicate add ");
    reveal_strlit("predicate remove ");
    reveal_strlit("group enable ");
    reveal_strlit("group disable ");
    reveal_strlit("add ");
    reveal_strlit("once ");
    let t1 = trim(once_line);
    let t2 = trim(add_line);
    assert(t1[0] == 'o');
    assert(t2[0] == 'a');
    assert(t1.subrange(0, 5) =~= "once "@);
    assert(t2.subrange(0, 4) =~= "add "@);
    assert(after(t1, "once "@) =~= r);
    assert(after(t2, "add "@) =~= r);
    assert(t1 != "list"@);
    assert(t2 != "list"@);
    assert(!starts_with(t1, "add "@));
}

} // verus!
