//! How an instrumented agent runtime is launched and how its protocol
//! records, its plain output lines, its refused lines, its exit and the
//! controls asked of it become events. The runtime itself is run by the
//! caller, which decodes each protocol line and hands the record over.
use vstd::prelude::*;
use crate::adapter_local::{command_line, render_command_line};
use crate::agent_protocol::{
    AgentEventKind, AgentEventRecord, DEFAULT_TRACE_PREFIX, kind_text, terminal_phase,
};
use crate::model::{
    AdapterEmission, ArtifactAccess, ArtifactBinding, ArtifactEncoding, BoundaryId, CausalityLink,
    DeterminismClass, EventKind, EventPayload, PendingArtifact, PendingEvent, PolicyVerdict,
    ReplayMode, TargetDescriptor, TargetId,
};
use crate::process::{
    OutputStream, ProcessProfile, ProcessState, alias_taken, grew_by_one, push_pair, stream_name,
};
use crate::text::{owned, push_str, str_eq, string_bytes, views};

verus! {

/// What to launch: a program, its arguments, its working directory, the
/// extra environment entries in order, and the prefix of its protocol lines.
#[derive(Clone, Debug, PartialEq, Eq)]
pub struct AgentRuntimeSpec {
    pub program: String,
    pub args: Vec<String>,
    pub cwd: Option<String>,
    pub env: Vec<(String, String)>,
    pub event_prefix: String,
}

impl AgentRuntimeSpec {
    /// A launch of `program` with no arguments, no working directory, no
    /// extra environment and the default line prefix.
    pub fn new(program: String) -> (r: Self)
        ensures
            r.program == program,
            r.args@.len() == 0,
            r.cwd is None,
            r.env@.len() == 0,
            r.event_prefix@ == DEFAULT_TRACE_PREFIX@,
    {
        AgentRuntimeSpec {
            program,
            args: Vec::new(),
            cwd: None,
            env: Vec::new(),
            event_prefix: owned(DEFAULT_TRACE_PREFIX),
        }
    }

    /// The same launch with its arguments replaced by `args`.
    pub fn with_args(self, args: Vec<String>) -> (r: Self)
        ensures
            r == (AgentRuntimeSpec { args, ..self }),
    {
        AgentRuntimeSpec { args, ..self }
    }

    /// The same launch run in `cwd`.
    pub fn with_cwd(self, cwd: String) -> (r: Self)
        ensures
            r == (AgentRuntimeSpec { cwd: Some(cwd), ..self }),
    {
        AgentRuntimeSpec { cwd: Some(cwd), ..self }
    }

    /// The same launch with one more environment entry at the end.
    pub fn with_env(self, key: String, value: String) -> (r: Self)
        ensures
            r.program == self.program,
            r.args == self.args,
            r.cwd == self.cwd,
            r.event_prefix == self.event_prefix,
            r.env@ == self.env@.push((key, value)),
    {
        let mut s = self;
        s.env.push((key, value));
        s
    }

    /// The same launch reading protocol lines behind `prefix`.
    pub fn with_event_prefix(self, prefix: String) -> (r: Self)
        ensures
            r == (AgentRuntimeSpec { event_prefix: prefix, ..self }),
    {
        AgentRuntimeSpec { event_prefix: prefix, ..self }
    }

    /// The command line of this launch.
    pub fn command_summary(&self) -> (r: String)
        ensures
            r@ == command_line(self.program@, views(self.args@)),
    {
        render_command_line(&self.program, &self.args)
    }
}

/// The wording of the agent runtime adapter.
pub fn agent_profile() -> (r: ProcessProfile)
    ensures
        r.label@ == "agent runtime"@,
        r.not_attached@ == "agent runtime adapter is not attached"@,
        r.already_attached@ == "agent runtime adapter already attached"@,
        r.already_exited@ == "agent runtime already exited"@,
        r.paused@ == "agent runtime paused"@,
        r.resumed@ == "agent runtime resumed"@,
        r.step_refused@ == "agent stepping is not supported yet"@,
        r.snapshot_refused@ == "agent snapshots are not supported yet"@,
        r.replay_refused@ == "agent runtime adapter does not support replay boundary injection"@,
{
    ProcessProfile {
        label: owned("agent runtime"),
        not_attached: owned("agent runtime adapter is not attached"),
        already_attached: owned("agent runtime adapter already attached"),
        already_exited: owned("agent runtime already exited"),
        paused: owned("agent runtime paused"),
        resumed: owned("agent runtime resumed"),
        step_refused: owned("agent stepping is not supported yet"),
        snapshot_refused: owned("agent snapshots are not supported yet"),
        replay_refused: owned("agent runtime adapter does not support replay boundary injection"),
    }
}

/// The descriptor of an agent runtime target: it is named by its command
/// line.
pub fn agent_descriptor(spec: &AgentRuntimeSpec, target_id: TargetId) -> (r: TargetDescriptor)
    ensures
        r.target_id == target_id,
        r.adapter_name@ == "swat-adapter-agent"@,
        r.target_name@ == command_line(spec.program@, views(spec.args@)),
        r.runtime@ == "agent-runtime"@,
        r.replay_mode == ReplayMode::Live,
{
    TargetDescriptor {
        target_id,
        adapter_name: owned("swat-adapter-agent"),
        target_name: spec.command_summary(),
        runtime: owned("agent-runtime"),
        replay_mode: ReplayMode::Live,
    }
}

/// The event kind that an agent record kind maps to.
pub open spec fn event_kind_for(k: AgentEventKind) -> EventKind {
    match k {
        AgentEventKind::Planner => EventKind::Execution,
        AgentEventKind::Model => EventKind::ModelBoundary,
        AgentEventKind::Tool => EventKind::ToolBoundary,
        AgentEventKind::State => EventKind::StateMutation,
        AgentEventKind::Policy => EventKind::PolicyDecision,
        AgentEventKind::Source => EventKind::SourceResolution,
        AgentEventKind::Schema => EventKind::SchemaResolution,
        AgentEventKind::Lifecycle => EventKind::Lifecycle,
        AgentEventKind::Log => EventKind::ValueObserved,
    }
}

/// The event kind of a record.
pub fn agent_event_kind(record: &AgentEventRecord) -> (r: EventKind)
    ensures
        r == event_kind_for(record.kind),
{
    match record.kind {
        AgentEventKind::Planner => EventKind::Execution,
        AgentEventKind::Model => EventKind::ModelBoundary,
        AgentEventKind::Tool => EventKind::ToolBoundary,
        AgentEventKind::State => EventKind::StateMutation,
        AgentEventKind::Policy => EventKind::PolicyDecision,
        AgentEventKind::Source => EventKind::SourceResolution,
        AgentEventKind::Schema => EventKind::SchemaResolution,
        AgentEventKind::Lifecycle => EventKind::Lifecycle,
        AgentEventKind::Log => EventKind::ValueObserved,
    }
}

/// The value key of a record: `agent.` and its kind's name.
pub fn value_key_for_record(record: &AgentEventRecord) -> (r: String)
    ensures
        r@ == "agent."@ + kind_text(record.kind),
{
    let mut s = owned("agent.");
    push_str(&mut s, record.kind_name());
    s
}

/// The determinism class a record declares: `deterministic`, `replay_only`
/// (or `replay-only`), and anything else or nothing as an external boundary.
pub open spec fn determinism_for(d: Option<String>) -> DeterminismClass {
    match d {
        Some(t) => if t@ == "deterministic"@ {
            DeterminismClass::Deterministic
        } else if t@ == "replay_only"@ || t@ == "replay-only"@ {
            DeterminismClass::ReplayOnly
        } else {
            DeterminismClass::ExternalBoundary
        },
        None => DeterminismClass::ExternalBoundary,
    }
}

/// The determinism class of a record.
pub fn determinism_for_record(record: &AgentEventRecord) -> (r: DeterminismClass)
    ensures
        r == determinism_for(record.determinism),
{
    match &record.determinism {
        Some(t) => {
            if str_eq(t.as_str(), "deterministic") {
                DeterminismClass::Deterministic
            } else if str_eq(t.as_str(), "replay_only") || str_eq(t.as_str(), "replay-only") {
                DeterminismClass::ReplayOnly
            } else {
                DeterminismClass::ExternalBoundary
            }
        },
        None => DeterminismClass::ExternalBoundary,
    }
}

/// The policy verdict of a record, read from its verdict or else its
/// status: deny words deny, redact words redact, anything else allows.
pub open spec fn verdict_for(verdict: Option<String>, status: Option<String>) -> PolicyVerdict {
    let word = match verdict {
        Some(v) => Some(v),
        None => status,
    };
    match word {
        Some(w) => if w@ == "deny"@ || w@ == "denied"@ || w@ == "block"@ || w@ == "blocked"@ {
            PolicyVerdict::Deny
        } else if w@ == "redact"@ || w@ == "redacted"@ {
            PolicyVerdict::Redact
        } else {
            PolicyVerdict::Allow
        },
        None => PolicyVerdict::Allow,
    }
}

/// The policy verdict of a record.
pub fn verdict_for_record(record: &AgentEventRecord) -> (r: PolicyVerdict)
    ensures
        r == verdict_for(record.verdict, record.status),
{
    let word: Option<&String> = match &record.verdict {
        Some(v) => Some(v),
        None => match &record.status {
            Some(s) => Some(s),
            None => None,
        },
    };
    match word {
        Some(w) => {
            let t = w.as_str();
            if str_eq(t, "deny") || str_eq(t, "denied") || str_eq(t, "block") || str_eq(t, "blocked") {
                PolicyVerdict::Deny
            } else if str_eq(t, "redact") || str_eq(t, "redacted") {
                PolicyVerdict::Redact
            } else {
                PolicyVerdict::Allow
            }
        },
        None => PolicyVerdict::Allow,
    }
}

/// The text of `o`, or `default`.
pub open spec fn or_text(o: Option<String>, default: Seq<char>) -> Seq<char> {
    match o {
        Some(s) => s@,
        None => default,
    }
}

/// The summary of a record: its own summary where it has one, else its
/// kind, phase (`update` when none), name (`<unnamed>` when none) and the
/// status where there is one.
pub open spec fn record_summary(r: AgentEventRecord) -> Seq<char> {
    match r.summary {
        Some(s) => s@,
        None => {
            let base = "agent "@ + kind_text(r.kind) + " "@ + or_text(r.phase, "update"@) + " "@
                + or_text(r.name, "<unnamed>"@);
            match r.status {
                Some(st) => base + " status="@ + st@,
                None => base,
            }
        },
    }
}

fn push_or(s: &mut String, o: &Option<String>, default: &str)
    ensures
        final(s)@ == old(s)@ + or_text(*o, default@),
{
    match o {
        Some(t) => push_str(s, t.as_str()),
        None => push_str(s, default),
    }
}

/// The summary of a record, as `record_summary` says.
pub fn agent_record_summary(record: &AgentEventRecord) -> (r: String)
    ensures
        r@ == record_summary(*record),
{
    match &record.summary {
        Some(s) => s.clone(),
        None => {
            let mut s = owned("agent ");
            push_str(&mut s, record.kind_name());
            push_str(&mut s, " ");
            push_or(&mut s, &record.phase, "update");
            push_str(&mut s, " ");
            push_or(&mut s, &record.name, "<unnamed>");
            match &record.status {
                Some(st) => {
                    push_str(&mut s, " status=");
                    push_str(&mut s, st.as_str());
                },
                None => {},
            }
            proof {
                assert(s@ =~= record_summary(*record));
            }
            s
        },
    }
}

/// The correlation id of a record: its own, or else its span id.
pub fn correlation_id(record: &AgentEventRecord) -> (r: Option<String>)
    ensures
        crate::agent_protocol::opt_text(r) == (match record.correlation_id {
            Some(c) => Some(c@),
            None => crate::agent_protocol::opt_text(record.span_id),
        }),
{
    match &record.correlation_id {
        Some(c) => Some(c.clone()),
        None => match &record.span_id {
            Some(s) => Some(s.clone()),
            None => None,
        },
    }
}

/// Whether a record's kind maps to a boundary event.
pub open spec fn is_boundary_kind(k: AgentEventKind) -> bool {
    k == AgentEventKind::Model || k == AgentEventKind::Tool
}

/// `p` is the payload of record `r` with summary `summary`; `boundary` is
/// the boundary of model and tool records.
pub open spec fn is_record_payload(p: EventPayload, r: AgentEventRecord, summary: Seq<char>, boundary: BoundaryId) -> bool {
    match r.kind {
        AgentEventKind::Model | AgentEventKind::Tool => p matches EventPayload::Boundary {
            boundary_id,
            determinism,
            summary: s,
        } && boundary_id == boundary && determinism == determinism_for(r.determinism) && s@
            == summary,
        AgentEventKind::Policy => p matches EventPayload::Policy { verdict, summary: s } && verdict
            == verdict_for(r.verdict, r.status) && s@ == summary,
        AgentEventKind::Lifecycle => p matches EventPayload::Text { summary: s } && s@ == summary,
        _ => p matches EventPayload::Value { value_key, summary: s } && value_key@ == "agent."@
            + kind_text(r.kind) && s@ == summary,
    }
}

/// The payload of `record` with `summary`, drawing a boundary from
/// `tracker` for model and tool records.
pub fn agent_payload_for_record(tracker: &mut BoundaryTracker, record: &AgentEventRecord, summary: &String) -> (r: EventPayload)
    requires
        old(tracker)@.next < u64::MAX,
    ensures
        spans_distinct(final(tracker)@.open),
        is_boundary_kind(record.kind) ==> ({
            let (m, b) = boundary_step(
                old(tracker)@,
                crate::agent_protocol::opt_text(record.span_id),
                record.phase matches Some(p) && terminal_phase(p@),
            );
            final(tracker)@ == m && is_record_payload(r, *record, summary@, b)
        }),
        !is_boundary_kind(record.kind) ==> final(tracker)@ == old(tracker)@
            && is_record_payload(r, *record, summary@, BoundaryId(0)),
{
    proof {
        use_type_invariant(&*tracker);
    }
    match record.kind {
        AgentEventKind::Model | AgentEventKind::Tool => {
            let span: Option<&str> = match &record.span_id {
                Some(s) => Some(s.as_str()),
                None => None,
            };
            let boundary_id = tracker.boundary_for(span, record.is_terminal_phase());
            EventPayload::Boundary {
                boundary_id,
                determinism: determinism_for_record(record),
                summary: summary.clone(),
            }
        },
        AgentEventKind::Policy => EventPayload::Policy {
            verdict: verdict_for_record(record),
            summary: summary.clone(),
        },
        AgentEventKind::Lifecycle => EventPayload::Text { summary: summary.clone() },
        _ => EventPayload::Value { value_key: value_key_for_record(record), summary: summary.clone() },
    }
}

/// The open boundaries of an agent run, each under the span that opened it,
/// and the next boundary number to hand out.
pub struct BoundaryModel {
    pub open: Seq<(Seq<char>, BoundaryId)>,
    pub next: u64,
}

/// No span is open twice.
pub open spec fn spans_distinct(open: Seq<(Seq<char>, BoundaryId)>) -> bool {
    forall|i: int, j: int| 0 <= i < j < open.len() ==> open[i].0 != open[j].0
}

/// Where span `k` is open, if it is.
pub open spec fn open_index(open: Seq<(Seq<char>, BoundaryId)>, k: Seq<char>) -> Option<int> {
    if exists|i: int| 0 <= i < open.len() && open[i].0 == k {
        Some(choose|i: int| 0 <= i < open.len() && open[i].0 == k)
    } else {
        None
    }
}

/// One record's effect on the open boundaries, and the boundary it gets: a
/// record without a span gets a fresh boundary; a record of an open span
/// gets that span's boundary and closes it when its phase is terminal; the
/// first record of a span gets a fresh boundary and opens the span unless
/// its phase is terminal.
pub open spec fn boundary_step(m: BoundaryModel, span: Option<Seq<char>>, terminal: bool) -> (BoundaryModel, BoundaryId) {
    let fresh = BoundaryId(m.next);
    let bumped = BoundaryModel { next: (m.next + 1) as u64, ..m };
    match span {
        None => (bumped, fresh),
        Some(k) => match open_index(m.open, k) {
            Some(i) => (
                BoundaryModel {
                    open: if terminal { m.open.remove(i) } else { m.open },
                    next: m.next,
                },
                m.open[i].1,
            ),
            None => (
                BoundaryModel {
                    open: if terminal { m.open } else { m.open.push((k, fresh)) },
                    next: (m.next + 1) as u64,
                },
                fresh,
            ),
        },
    }
}

/// The boundaries that an agent run has open.
pub struct BoundaryTracker {
    open: Vec<(String, BoundaryId)>,
    next_boundary_raw: u64,
}

/// The text of each span with its boundary.
pub open spec fn open_view(v: Seq<(String, BoundaryId)>) -> Seq<(Seq<char>, BoundaryId)> {
    v.map_values(|p: (String, BoundaryId)| (p.0@, p.1))
}

impl View for BoundaryTracker {
    type V = BoundaryModel;

    closed spec fn view(&self) -> BoundaryModel {
        BoundaryModel { open: open_view(self.open@), next: self.next_boundary_raw }
    }
}

impl BoundaryTracker {
    /// No span is open twice.
    #[verifier::type_invariant]
    closed spec fn inv(self) -> bool {
        spans_distinct(open_view(self.open@))
    }

    /// The number the next fresh boundary gets.
    pub fn next_raw(&self) -> (r: u64)
        ensures
            r == self@.next,
    {
        self.next_boundary_raw
    }

    /// No open boundary; numbering starts at one.
    pub fn new() -> (r: Self)
        ensures
            r@.open.len() == 0,
            r@.next == 1,
    {
        BoundaryTracker { open: Vec::new(), next_boundary_raw: 1 }
    }

    /// Forgets every open boundary and starts numbering at one again, as a
    /// new attach does.
    pub fn reset(&mut self)
        ensures
            final(self)@.open.len() == 0,
            final(self)@.next == 1,
    {
        self.open = Vec::new();
        self.next_boundary_raw = 1;
    }

    fn find(&self, k: &str) -> (r: Option<usize>)
        ensures
            match r {
                Some(i) => i < self@.open.len() && self@.open[i as int].0 == k@,
                None => forall|j: int| 0 <= j < self@.open.len() ==> self@.open[j].0 != k@,
            },
    {
        let n = self.open.len();
        let mut i: usize = 0;
        while i < n
            invariant
                n == self.open@.len(),
                i <= n,
                forall|j: int| 0 <= j < i ==> open_view(self.open@)[j].0 != k@,
            decreases n - i,
        {
            if str_eq(self.open[i].0.as_str(), k) {
                return Some(i);
            }
            i = i + 1;
        }
        None
    }

    /// The boundary of a record with span `span` and the given terminal
    /// flag, updating the open boundaries as `boundary_step` says.
    pub fn boundary_for(&mut self, span: Option<&str>, terminal: bool) -> (r: BoundaryId)
        requires
            old(self)@.next < u64::MAX,
        ensures
            spans_distinct(final(self)@.open),
            (final(self)@, r) == boundary_step(
                old(self)@,
                match span {
                    Some(s) => Some(s@),
                    None => None,
                },
                terminal,
            ),
    {
        proof {
            use_type_invariant(&*self);
        }
        let fresh = BoundaryId(self.next_boundary_raw);
        match span {
            None => {
                self.next_boundary_raw = self.next_boundary_raw + 1;
                fresh
            },
            Some(k) => {
                let ghost old_open = self@.open;
                match self.find(k) {
                    Some(i) => {
                        proof {
                            let c = choose|j: int| 0 <= j < old_open.len() && old_open[j].0 == k@;
                            assert(old_open[i as int].0 == k@);
                            assert(c == i as int);
                        }
                        let id = self.open[i].1;
                        if terminal {
                            let mut open: Vec<(String, BoundaryId)> = Vec::new();
                            std::mem::swap(&mut open, &mut self.open);
                            let _ = open.remove(i);
                            proof {
                                assert(open_view(open@) =~= old_open.remove(i as int));
                            }
                            self.open = open;
                        }
                        id
                    },
                    None => {
                        self.next_boundary_raw = self.next_boundary_raw + 1;
                        if !terminal {
                            let mut open: Vec<(String, BoundaryId)> = Vec::new();
                            std::mem::swap(&mut open, &mut self.open);
                            open.push((owned(k), fresh));
                            proof {
                                assert(open_view(open@) =~= old_open.push((k@, fresh)));
                            }
                            self.open = open;
                        }
                        fresh
                    },
                }
            },
        }
    }
}

/// A span keeps its boundary: two records of the same span, the first not
/// terminal, get the same boundary.
pub proof fn law_span_keeps_boundary(m: BoundaryModel, k: Seq<char>, second_terminal: bool)
    requires
        spans_distinct(m.open),
    ensures
        ({
            let (m1, b1) = boundary_step(m, Some(k), false);
            let (m2, b2) = boundary_step(m1, Some(k), second_terminal);
            b1 == b2
        }),
{
    let (m1, b1) = boundary_step(m, Some(k), false);
    match open_index(m.open, k) {
        Some(i) => {
            assert(m1.open == m.open);
        },
        None => {
            let n = m.open.len() as int;
            assert(m1.open[n].0 == k);
            assert(open_index(m1.open, k) is Some);
            let j = choose|j: int| 0 <= j < m1.open.len() && m1.open[j].0 == k;
            if j < n {
                assert(m.open[j].0 == k);
            }
            assert(j == n);
        },
    }
}

/// A terminal record closes its span: after it, the span is no longer open.
pub proof fn law_terminal_closes_span(m: BoundaryModel, k: Seq<char>)
    requires
        spans_distinct(m.open),
    ensures
        open_index(boundary_step(m, Some(k), true).0.open, k) is None,
{
    let m1 = boundary_step(m, Some(k), true).0;
    match open_index(m.open, k) {
        Some(i) => {
            assert forall|j: int| 0 <= j < m1.open.len() implies m1.open[j].0 != k by {
                if j < i {
                    assert(m1.open[j] == m.open[j]);
                } else {
                    assert(m1.open[j] == m.open[j + 1]);
                }
            }
        },
        None => {},
    }
}


/// Records one protocol record: its JSON text `json` becomes a lazily read
/// JSON artifact under the next alias, and an event of the record's kind,
/// with its summary, its payload and its correlation (its own id, or else
/// its span), refers to it.
pub fn record_structured(
    state: &mut ProcessState,
    tracker: &mut BoundaryTracker,
    record: &AgentEventRecord,
    json: Vec<u8>,
    emission: &mut AdapterEmission,
)
    requires
        old(state)@.next_alias < u64::MAX,
        old(tracker)@.next < u64::MAX,
    ensures
        alias_taken(*old(state), *final(state)),
        spans_distinct(final(tracker)@.open),
        grew_by_one(*old(emission), *final(emission)),
        ({
            let a = final(emission).pending_artifacts@.last();
            let e = final(emission).pending_events@.last();
            let (m, b) = boundary_step(
                old(tracker)@,
                crate::agent_protocol::opt_text(record.span_id),
                record.phase matches Some(p) && terminal_phase(p@),
            );
            &&& a.alias.0 == old(state)@.next_alias
            &&& a.media_type@ == "application/json"@
            &&& a.encoding == ArtifactEncoding::Json
            &&& a.access == ArtifactAccess::Lazy
            &&& a.bytes@ == json@
            &&& e.kind == event_kind_for(record.kind)
            &&& is_boundary_kind(record.kind) ==> final(tracker)@ == m && is_record_payload(
                e.payload,
                *record,
                record_summary(*record),
                b,
            )
            &&& !is_boundary_kind(record.kind) ==> final(tracker)@ == old(tracker)@
                && is_record_payload(e.payload, *record, record_summary(*record), BoundaryId(0))
            &&& e.causality.parent_event_id is None
            &&& crate::agent_protocol::opt_text(e.causality.correlation_id) == (match record.correlation_id {
                Some(c) => Some(c@),
                None => crate::agent_protocol::opt_text(record.span_id),
            })
            &&& e.artifacts@ == seq![ArtifactBinding::Pending(a.alias)]
        }),
{
    let alias = state.take_alias();
    let summary = agent_record_summary(record);
    let kind = agent_event_kind(record);
    let payload = agent_payload_for_record(tracker, record, &summary);
    let mut event = PendingEvent::new(kind, payload).with_artifact(ArtifactBinding::Pending(alias));
    event.causality = CausalityLink { parent_event_id: None, correlation_id: correlation_id(record) };
    let artifact = PendingArtifact {
        alias,
        media_type: owned("application/json"),
        encoding: ArtifactEncoding::Json,
        access: ArtifactAccess::Lazy,
        bytes: json,
    };
    push_pair(emission, artifact, event);
}

/// Records one plain output line from `stream`: the line becomes a lazily
/// read UTF-8 artifact under the next alias, and a value event keyed
/// `agent.<stream>` refers to it.
pub fn record_agent_line(state: &mut ProcessState, stream: OutputStream, text: String, emission: &mut AdapterEmission)
    requires
        old(state)@.next_alias < u64::MAX,
    ensures
        alias_taken(*old(state), *final(state)),
        grew_by_one(*old(emission), *final(emission)),
        ({
            let a = final(emission).pending_artifacts@.last();
            let e = final(emission).pending_events@.last();
            &&& a.alias.0 == old(state)@.next_alias
            &&& a.media_type@ == "text/plain"@
            &&& a.encoding == ArtifactEncoding::Utf8
            &&& a.access == ArtifactAccess::Lazy
            &&& a.bytes@ == vstd::utf8::encode_utf8(text@)
            &&& e.kind == EventKind::ValueObserved
            &&& e.payload matches EventPayload::Value { value_key, summary }
                && value_key@ == "agent."@ + stream_name(stream)
                && summary@ == "captured agent "@ + stream_name(stream) + " line"@
            &&& e.artifacts@ == seq![ArtifactBinding::Pending(a.alias)]
        }),
{
    let alias = state.take_alias();
    let mut value_key = owned("agent.");
    push_str(&mut value_key, stream.name());
    let mut summary = owned("captured agent ");
    push_str(&mut summary, stream.name());
    push_str(&mut summary, " line");
    let event = PendingEvent::new(
        EventKind::ValueObserved,
        EventPayload::Value { value_key, summary },
    ).with_artifact(ArtifactBinding::Pending(alias));
    let artifact = PendingArtifact {
        alias,
        media_type: owned("text/plain"),
        encoding: ArtifactEncoding::Utf8,
        access: ArtifactAccess::Lazy,
        bytes: string_bytes(&text),
    };
    push_pair(emission, artifact, event);
}

/// Records a protocol line that was refused with `error`: the line becomes
/// a lazily read UTF-8 artifact under the next alias, and a lifecycle event
/// that names the error refers to it.
pub fn record_protocol_error(state: &mut ProcessState, line: String, error: &str, emission: &mut AdapterEmission)
    requires
        old(state)@.next_alias < u64::MAX,
    ensures
        alias_taken(*old(state), *final(state)),
        grew_by_one(*old(emission), *final(emission)),
        ({
            let a = final(emission).pending_artifacts@.last();
            let e = final(emission).pending_events@.last();
            &&& a.alias.0 == old(state)@.next_alias
            &&& a.media_type@ == "text/plain"@
            &&& a.encoding == ArtifactEncoding::Utf8
            &&& a.access == ArtifactAccess::Lazy
            &&& a.bytes@ == vstd::utf8::encode_utf8(line@)
            &&& e.kind == EventKind::Lifecycle
            &&& e.payload matches EventPayload::Text { summary }
                && summary@ == "agent protocol error: "@ + error@
            &&& e.artifacts@ == seq![ArtifactBinding::Pending(a.alias)]
        }),
{
    let alias = state.take_alias();
    let mut summary = owned("agent protocol error: ");
    push_str(&mut summary, error);
    let event = PendingEvent::new(EventKind::Lifecycle, EventPayload::Text { summary }).with_artifact(
        ArtifactBinding::Pending(alias),
    );
    let artifact = PendingArtifact {
        alias,
        media_type: owned("text/plain"),
        encoding: ArtifactEncoding::Utf8,
        access: ArtifactAccess::Lazy,
        bytes: string_bytes(&line),
    };
    push_pair(emission, artifact, event);
}

} // verus!
