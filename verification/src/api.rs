//! Inspection and control views over a session: breakpoint and watchpoint
//! summaries with their labels, watchpoint definitions, stack frames and
//! source-file summaries.
use vstd::prelude::*;
use crate::model::{BoundaryId, EventEnvelope, EventId, EventKind, TriggerId};

verus! {

/// Whether a breakpoint is armed.
#[derive(Clone, Copy, Debug, PartialEq, Eq, Structural)]
pub enum BreakpointState {
    Enabled,
    Disabled,
}

impl BreakpointState {
    pub open spec fn label_spec(self) -> Seq<char> {
        match self {
            BreakpointState::Enabled => "enabled"@,
            BreakpointState::Disabled => "disabled"@,
        }
    }

    pub fn label(self) -> (r: &'static str)
        ensures
            r@ == self.label_spec(),
    {
        match self {
            BreakpointState::Enabled => "enabled",
            BreakpointState::Disabled => "disabled",
        }
    }
}

/// Whether a breakpoint stays after its first hit.
#[derive(Clone, Copy, Debug, PartialEq, Eq, Structural)]
pub enum BreakpointLifetime {
    Persistent,
    Once,
}

impl BreakpointLifetime {
    pub open spec fn label_spec(self) -> Seq<char> {
        match self {
            BreakpointLifetime::Persistent => "persistent"@,
            BreakpointLifetime::Once => "once"@,
        }
    }

    pub fn label(self) -> (r: &'static str)
        ensures
            r@ == self.label_spec(),
    {
        match self {
            BreakpointLifetime::Persistent => "persistent",
            BreakpointLifetime::Once => "once",
        }
    }
}

/// What a breakpoint does when it fires.
#[derive(Clone, Copy, Debug, PartialEq, Eq, Structural)]
pub enum BreakpointDisposition {
    Passive,
    Pause,
    Snapshot,
    Mixed,
}

impl BreakpointDisposition {
    pub open spec fn label_spec(self) -> Seq<char> {
        match self {
            BreakpointDisposition::Passive => "passive"@,
            BreakpointDisposition::Pause => "pause"@,
            BreakpointDisposition::Snapshot => "snapshot"@,
            BreakpointDisposition::Mixed => "mixed"@,
        }
    }

    pub fn label(self) -> (r: &'static str)
        ensures
            r@ == self.label_spec(),
    {
        match self {
            BreakpointDisposition::Passive => "passive",
            BreakpointDisposition::Pause => "pause",
            BreakpointDisposition::Snapshot => "snapshot",
            BreakpointDisposition::Mixed => "mixed",
        }
    }
}

/// Whether a breakpoint has fired yet.
#[derive(Clone, Copy, Debug, PartialEq, Eq, Structural)]
pub enum BreakpointActivity {
    NeverHit,
    Hit,
}

impl BreakpointActivity {
    pub open spec fn label_spec(self) -> Seq<char> {
        match self {
            BreakpointActivity::NeverHit => "never-hit"@,
            BreakpointActivity::Hit => "hit"@,
        }
    }

    pub fn label(self) -> (r: &'static str)
        ensures
            r@ == self.label_spec(),
    {
        match self {
            BreakpointActivity::NeverHit => "never-hit",
            BreakpointActivity::Hit => "hit",
        }
    }
}

/// The property by which breakpoints are grouped.
#[derive(Clone, Copy, Debug, PartialEq, Eq, Structural)]
pub enum BreakpointGroupKind {
    State,
    Lifetime,
    Disposition,
    Activity,
}

impl BreakpointGroupKind {
    pub open spec fn label_spec(self) -> Seq<char> {
        match self {
            BreakpointGroupKind::State => "state"@,
            BreakpointGroupKind::Lifetime => "lifetime"@,
            BreakpointGroupKind::Disposition => "disposition"@,
            BreakpointGroupKind::Activity => "activity"@,
        }
    }

    pub fn label(self) -> (r: &'static str)
        ensures
            r@ == self.label_spec(),
    {
        match self {
            BreakpointGroupKind::State => "state",
            BreakpointGroupKind::Lifetime => "lifetime",
            BreakpointGroupKind::Disposition => "disposition",
            BreakpointGroupKind::Activity => "activity",
        }
    }
}

/// An event whose summary or artifact text matched a search.
#[derive(Clone, Debug, PartialEq)]
pub struct TraceMatch {
    pub event: EventEnvelope,
    pub matched_text: String,
}

/// One frame of the boundary stack.
#[derive(Clone, Debug, PartialEq, Eq)]
pub struct StackFrame {
    pub frame_index: usize,
    pub depth: usize,
    pub boundary_id: BoundaryId,
    pub event_kind: EventKind,
    pub label: String,
    pub event_ids: Vec<EventId>,
    pub first_event_id: EventId,
    pub last_event_id: EventId,
    pub sequence_start: u64,
    pub sequence_end: u64,
    pub correlation_id: Option<String>,
    pub span_id: Option<String>,
    pub function: Option<String>,
    pub source_file: Option<String>,
    pub source_line: Option<u64>,
    pub entry_summary: String,
    pub latest_summary: String,
}

/// A source file that events point at.
#[derive(Clone, Debug, PartialEq, Eq)]
pub struct SourceFileSummary {
    pub file: String,
    pub event_count: usize,
    pub first_line: Option<usize>,
    pub last_line: Option<usize>,
    pub functions: Vec<String>,
    pub is_real_path: bool,
}

/// A breakpoint as listed.
#[derive(Clone, Debug, PartialEq, Eq)]
pub struct BreakpointSummary {
    pub trigger_id: TriggerId,
    pub name: String,
    pub group: Option<String>,
    pub group_enabled: Option<bool>,
    pub configured_state: BreakpointState,
    pub predicate_name: Option<String>,
    pub predicate: String,
    pub actions: Vec<String>,
    pub state: BreakpointState,
    pub lifetime: BreakpointLifetime,
    pub disposition: BreakpointDisposition,
    pub activity: BreakpointActivity,
    pub hit_count: u64,
    pub last_hit_event_id: Option<EventId>,
    pub last_hit_sequence_no: Option<u64>,
}

/// A breakpoint with the event that it last fired on.
#[derive(Clone, Debug, PartialEq, Eq)]
pub struct BreakpointDetail {
    pub breakpoint: BreakpointSummary,
    pub last_hit_event: Option<EventEnvelope>,
}

/// Breakpoints that share a label of one kind.
#[derive(Clone, Debug, PartialEq, Eq)]
pub struct BreakpointGroup {
    pub kind: BreakpointGroupKind,
    pub label: String,
    pub breakpoints: Vec<BreakpointSummary>,
}

/// A named group of breakpoints that is enabled or disabled together.
#[derive(Clone, Debug, PartialEq, Eq)]
pub struct BreakpointDefinitionGroup {
    pub name: String,
    pub enabled: bool,
    pub breakpoints: Vec<BreakpointSummary>,
}

/// A named predicate and how many breakpoints use it.
#[derive(Clone, Debug, PartialEq, Eq)]
pub struct BreakpointPredicateSummary {
    pub name: String,
    pub predicate: String,
    pub breakpoint_count: usize,
}

/// A watchpoint as listed.
#[derive(Clone, Debug, PartialEq, Eq)]
pub struct WatchpointSummary {
    pub breakpoint: BreakpointSummary,
    pub value_key: String,
    pub path: Option<String>,
    pub after_millis: Option<u64>,
    pub event_kind: Option<EventKind>,
    pub summary_contains: Option<String>,
}

/// A watchpoint with the event that it last fired on.
#[derive(Clone, Debug, PartialEq, Eq)]
pub struct WatchpointDetail {
    pub watchpoint: WatchpointSummary,
    pub last_hit_event: Option<EventEnvelope>,
}

/// The definition of a value watchpoint: which value, under which filters,
/// and what to do when it changes.
#[derive(Clone, Debug, PartialEq, Eq)]
pub struct WatchpointSpec {
    pub name: String,
    pub value_key: String,
    pub path: Option<String>,
    pub after_millis: Option<u64>,
    pub event_kind: Option<EventKind>,
    pub summary_contains: Option<String>,
    pub fire_once: bool,
    pub group: Option<String>,
    pub snapshot_reason: Option<String>,
}

/// A watchpoint definition as a mathematical value.
pub struct WatchpointSpecModel {
    pub name: Seq<char>,
    pub value_key: Seq<char>,
    pub path: Option<Seq<char>>,
    pub after_millis: Option<u64>,
    pub event_kind: Option<EventKind>,
    pub summary_contains: Option<Seq<char>>,
    pub fire_once: bool,
    pub group: Option<Seq<char>>,
    pub snapshot_reason: Option<Seq<char>>,
}

pub open spec fn opt_seq(o: Option<String>) -> Option<Seq<char>> {
    match o {
        Some(s) => Some(s@),
        None => None,
    }
}

impl View for WatchpointSpec {
    type V = WatchpointSpecModel;

    open spec fn view(&self) -> WatchpointSpecModel {
        WatchpointSpecModel {
            name: self.name@,
            value_key: self.value_key@,
            path: opt_seq(self.path),
            after_millis: self.after_millis,
            event_kind: self.event_kind,
            summary_contains: opt_seq(self.summary_contains),
            fire_once: self.fire_once,
            group: opt_seq(self.group),
            snapshot_reason: opt_seq(self.snapshot_reason),
        }
    }
}

/// The definition of a watchpoint on `value_key` with no filter and no
/// action.
pub open spec fn new_watchpoint(name: Seq<char>, value_key: Seq<char>) -> WatchpointSpecModel {
    WatchpointSpecModel {
        name,
        value_key,
        path: None,
        after_millis: None,
        event_kind: None,
        summary_contains: None,
        fire_once: false,
        group: None,
        snapshot_reason: None,
    }
}

impl WatchpointSpec {
    /// A watchpoint named `name` on the value `value_key`.
    pub fn new(name: String, value_key: String) -> (r: Self)
        ensures
            r@ == new_watchpoint(name@, value_key@),
    {
        WatchpointSpec {
            name,
            value_key,
            path: None,
            after_millis: None,
            event_kind: None,
            summary_contains: None,
            fire_once: false,
            group: None,
            snapshot_reason: None,
        }
    }

    /// Watches the part of the value at the JSON path `path`.
    pub fn at_path(self, path: String) -> (r: Self)
        ensures
            r@ == (WatchpointSpecModel { path: Some(path@), ..self@ }),
    {
        let mut s = self;
        s.path = Some(path);
        s
    }

    /// Fires only `millis` milliseconds after the session start.
    pub fn after_millis(self, millis: u64) -> (r: Self)
        ensures
            r@ == (WatchpointSpecModel { after_millis: Some(millis), ..self@ }),
    {
        let mut s = self;
        s.after_millis = Some(millis);
        s
    }

    /// Fires only on events of kind `kind`.
    pub fn in_event_kind(self, kind: EventKind) -> (r: Self)
        ensures
            r@ == (WatchpointSpecModel { event_kind: Some(kind), ..self@ }),
    {
        let mut s = self;
        s.event_kind = Some(kind);
        s
    }

    /// Fires only on events whose summary contains `needle`.
    pub fn with_summary_contains(self, needle: String) -> (r: Self)
        ensures
            r@ == (WatchpointSpecModel { summary_contains: Some(needle@), ..self@ }),
    {
        let mut s = self;
        s.summary_contains = Some(needle);
        s
    }

    /// Fires at most once.
    pub fn fire_once(self) -> (r: Self)
        ensures
            r@ == (WatchpointSpecModel { fire_once: true, ..self@ }),
    {
        let mut s = self;
        s.fire_once = true;
        s
    }

    /// Puts the watchpoint in the group `group`.
    pub fn in_group(self, group: String) -> (r: Self)
        ensures
            r@ == (WatchpointSpecModel { group: Some(group@), ..self@ }),
    {
        let mut s = self;
        s.group = Some(group);
        s
    }

    /// Takes a snapshot with reason `reason` when it fires.
    pub fn create_snapshot(self, reason: String) -> (r: Self)
        ensures
            r@ == (WatchpointSpecModel { snapshot_reason: Some(reason@), ..self@ }),
    {
        let mut s = self;
        s.snapshot_reason = Some(reason);
        s
    }
}

/// The result of a mutation together with the policy events it caused.
#[derive(Clone, Debug, PartialEq, Eq)]
pub struct MutationReport<T> {
    pub value: T,
    pub policy_events: Vec<EventEnvelope>,
}

} // verus!
