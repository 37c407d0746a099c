//! The one-line renderings that the command surface prints for events,
//! trigger hits, breakpoints, watchpoints, stop reasons, replay plans and
//! stack frames.
use vstd::prelude::*;
use crate::api::{
    BreakpointDefinitionGroup, BreakpointPredicateSummary, BreakpointSummary, StackFrame,
    WatchpointDetail, WatchpointSummary,
};
use crate::control::{StopReason, StopReasonKind, TriggerMatch, is_exit_event, payload_summary};
use crate::expr::{debug_quoted, debug_text};
use crate::model::{ControlAction, EventEnvelope, EventKind, SwatError, SwatResult, TriggerId, payload_summary_spec};
use crate::command::CommandOutput;
use crate::replay::ReplayPlan;
use crate::text::{decimal, join, joined, owned, push_decimal, push_str, views};

verus! {

/// The name of an event kind, as `{:?}` prints it.
pub open spec fn kind_name(k: EventKind) -> Seq<char> {
    match k {
        EventKind::Lifecycle => "Lifecycle"@,
        EventKind::Control => "Control"@,
        EventKind::Execution => "Execution"@,
        EventKind::StateMutation => "StateMutation"@,
        EventKind::ValueObserved => "ValueObserved"@,
        EventKind::TriggerHit => "TriggerHit"@,
        EventKind::Snapshot => "Snapshot"@,
        EventKind::Replay => "Replay"@,
        EventKind::ModelBoundary => "ModelBoundary"@,
        EventKind::ToolBoundary => "ToolBoundary"@,
        EventKind::SourceResolution => "SourceResolution"@,
        EventKind::SchemaResolution => "SchemaResolution"@,
        EventKind::PolicyDecision => "PolicyDecision"@,
    }
}

/// The name of an event kind.
pub fn event_kind_name(k: EventKind) -> (r: &'static str)
    ensures
        r@ == kind_name(k),
{
    match k {
        EventKind::Lifecycle => "Lifecycle",
        EventKind::Control => "Control",
        EventKind::Execution => "Execution",
        EventKind::StateMutation => "StateMutation",
        EventKind::ValueObserved => "ValueObserved",
        EventKind::TriggerHit => "TriggerHit",
        EventKind::Snapshot => "Snapshot",
        EventKind::Replay => "Replay",
        EventKind::ModelBoundary => "ModelBoundary",
        EventKind::ToolBoundary => "ToolBoundary",
        EventKind::SourceResolution => "SourceResolution",
        EventKind::SchemaResolution => "SchemaResolution",
        EventKind::PolicyDecision => "PolicyDecision",
    }
}

/// A control action as `{:?}` prints it.
pub open spec fn action_debug(a: ControlAction) -> Seq<char> {
    match a {
        ControlAction::Pause => "Pause"@,
        ControlAction::Resume => "Resume"@,
        ControlAction::Step => "Step"@,
        ControlAction::CreateSnapshot { reason } => "CreateSnapshot { reason: "@ + debug_text(reason@) + " }"@,
    }
}

fn push_action_debug(s: &mut String, a: &ControlAction)
    ensures
        final(s)@ == old(s)@ + action_debug(*a),
{
    match a {
        ControlAction::Pause => push_str(s, "Pause"),
        ControlAction::Resume => push_str(s, "Resume"),
        ControlAction::Step => push_str(s, "Step"),
        ControlAction::CreateSnapshot { reason } => {
            push_str(s, "CreateSnapshot { reason: ");
            let q = debug_quoted(reason.as_str());
            push_str(s, q.as_str());
            push_str(s, " }");
            assert(final(s)@ =~= old(s)@ + action_debug(*a));
        },
    }
}

/// A number, or `-` when there is none.
pub open spec fn num_or_dash(o: Option<u64>) -> Seq<char> {
    match o {
        Some(n) => decimal(n as nat),
        None => "-"@,
    }
}

/// A text, or `dflt` when there is none.
pub open spec fn text_or(o: Option<String>, dflt: Seq<char>) -> Seq<char> {
    match o {
        Some(t) => t@,
        None => dflt,
    }
}

/// ` group=` and the group, or nothing.
pub open spec fn group_part(o: Option<String>) -> Seq<char> {
    match o {
        Some(g) => " group="@ + g@,
        None => Seq::empty(),
    }
}

/// `true` or `false`.
pub open spec fn bool_text(b: bool) -> Seq<char> {
    if b {
        "true"@
    } else {
        "false"@
    }
}

fn push_num_or_dash(s: &mut String, o: Option<u64>)
    ensures
        final(s)@ == old(s)@ + num_or_dash(o),
{
    match o {
        Some(n) => push_decimal(s, n),
        None => push_str(s, "-"),
    }
}

fn push_text_or(s: &mut String, o: &Option<String>, dflt: &str)
    ensures
        final(s)@ == old(s)@ + text_or(*o, dflt@),
{
    match o {
        Some(t) => push_str(s, t.as_str()),
        None => push_str(s, dflt),
    }
}

fn push_group_part(s: &mut String, o: &Option<String>)
    ensures
        final(s)@ == old(s)@ + group_part(*o),
{
    match o {
        Some(g) => {
            push_str(s, " group=");
            push_str(s, g.as_str());
        },
        None => {
            assert(final(s)@ =~= old(s)@ + group_part(*o));
        },
    }
}

pub(crate) fn push_bool(s: &mut String, b: bool)
    ensures
        final(s)@ == old(s)@ + bool_text(b),
{
    if b {
        push_str(s, "true");
    } else {
        push_str(s, "false");
    }
}

/// The line of an event: id, sequence number, kind and summary.
pub open spec fn event_line(e: EventEnvelope) -> Seq<char> {
    "event="@ + decimal(e.event_id.0 as nat) + " seq="@ + decimal(e.sequence_no as nat) + " kind="@
        + kind_name(e.kind) + " summary="@ + match payload_summary_spec(e.payload) {
        Some(t) => t,
        None => "<none>"@,
    }
}

/// The line of an event, as `event_line` says.
pub fn format_event_line(event: &EventEnvelope) -> (r: String)
    ensures
        r@ == event_line(*event),
{
    let mut s = owned("event=");
    push_decimal(&mut s, event.event_id.0);
    push_str(&mut s, " seq=");
    push_decimal(&mut s, event.sequence_no);
    push_str(&mut s, " kind=");
    push_str(&mut s, event_kind_name(event.kind));
    push_str(&mut s, " summary=");
    match payload_summary(event) {
        Some(t) => push_str(&mut s, t),
        None => push_str(&mut s, "<none>"),
    }
    s
}

/// The line of a trigger hit: trigger, name, event, sequence number, and
/// the group and stored predicate where there are.
pub open spec fn trigger_match_line(m: TriggerMatch) -> Seq<char> {
    "trigger="@ + decimal(m.trigger_id.0 as nat) + " name="@ + m.trigger_name@ + " event="@ + decimal(
        m.event_id.0 as nat,
    ) + " seq="@ + decimal(m.sequence_no as nat) + group_part(m.group) + match m.predicate_name {
        Some(p) => " predicate="@ + p@,
        None => Seq::empty(),
    }
}

/// The line of a trigger hit, as `trigger_match_line` says.
pub fn format_trigger_match(trigger_match: &TriggerMatch) -> (r: String)
    ensures
        r@ == trigger_match_line(*trigger_match),
{
    let mut s = owned("trigger=");
    push_decimal(&mut s, trigger_match.trigger_id.0);
    push_str(&mut s, " name=");
    push_str(&mut s, trigger_match.trigger_name.as_str());
    push_str(&mut s, " event=");
    push_decimal(&mut s, trigger_match.event_id.0);
    push_str(&mut s, " seq=");
    push_decimal(&mut s, trigger_match.sequence_no);
    push_group_part(&mut s, &trigger_match.group);
    match &trigger_match.predicate_name {
        Some(p) => {
            push_str(&mut s, " predicate=");
            push_str(&mut s, p.as_str());
        },
        None => {},
    }
    assert(s@ =~= trigger_match_line(*trigger_match));
    s
}

/// The state, configured state, lifetime, disposition, hits, last event
/// and last sequence number of a breakpoint, then its name and group.
pub open spec fn breakpoint_head(b: BreakpointSummary) -> Seq<char> {
    " state="@ + b.state.label_spec() + " configured="@ + b.configured_state.label_spec() + " lifetime="@
        + b.lifetime.label_spec() + " disposition="@ + b.disposition.label_spec() + " hits="@
        + decimal(b.hit_count as nat) + " last_event="@ + num_or_dash(
        match b.last_hit_event_id {
            Some(e) => Some(e.0),
            None => None,
        },
    ) + " last_seq="@ + num_or_dash(b.last_hit_sequence_no) + " name="@ + b.name@ + group_part(b.group)
}

#[verifier::spinoff_prover]
#[verifier::rlimit(40)]
fn push_breakpoint_head(s: &mut String, b: &BreakpointSummary)
    ensures
        final(s)@ == old(s)@ + breakpoint_head(*b),
{
    push_str(s, " state=");
    push_str(s, b.state.label());
    push_str(s, " configured=");
    push_str(s, b.configured_state.label());
    push_str(s, " lifetime=");
    push_str(s, b.lifetime.label());
    push_str(s, " disposition=");
    push_str(s, b.disposition.label());
    push_str(s, " hits=");
    push_decimal(s, b.hit_count);
    push_str(s, " last_event=");
    let last_event: Option<u64> = match b.last_hit_event_id {
        Some(e) => Some(e.0),
        None => None,
    };
    push_num_or_dash(s, last_event);
    push_str(s, " last_seq=");
    push_num_or_dash(s, b.last_hit_sequence_no);
    push_str(s, " name=");
    push_str(s, b.name.as_str());
    push_group_part(s, &b.group);
    assert(final(s)@ =~= old(s)@ + breakpoint_head(*b));
}

/// The line of a breakpoint.
pub open spec fn breakpoint_line(b: BreakpointSummary) -> Seq<char> {
    "bp="@ + decimal(b.trigger_id.0 as nat) + breakpoint_head(b) + " predicate="@ + text_or(
        b.predicate_name,
        "inline"@,
    ) + " actions="@ + join(views(b.actions@), ","@) + " when="@ + b.predicate@
}

/// The line of a breakpoint, as `breakpoint_line` says.
pub fn format_breakpoint_summary(breakpoint: &BreakpointSummary) -> (r: String)
    ensures
        r@ == breakpoint_line(*breakpoint),
{
    let mut s = owned("bp=");
    push_decimal(&mut s, breakpoint.trigger_id.0);
    push_breakpoint_head(&mut s, breakpoint);
    push_str(&mut s, " predicate=");
    push_text_or(&mut s, &breakpoint.predicate_name, "inline");
    push_str(&mut s, " actions=");
    let actions = joined(&breakpoint.actions, ",");
    push_str(&mut s, actions.as_str());
    push_str(&mut s, " when=");
    push_str(&mut s, breakpoint.predicate.as_str());
    assert(s@ =~= breakpoint_line(*breakpoint));
    s
}

/// The line of a watchpoint.
pub open spec fn watchpoint_line(w: WatchpointSummary) -> Seq<char> {
    "wp="@ + decimal(w.breakpoint.trigger_id.0 as nat) + breakpoint_head(w.breakpoint) + " value_key="@
        + w.value_key@ + " path="@ + text_or(w.path, "-"@) + " after="@ + num_or_dash(w.after_millis)
        + " kind="@ + match w.event_kind {
        Some(k) => kind_name(k),
        None => "-"@,
    } + " summary="@ + text_or(w.summary_contains, "-"@) + " actions="@ + join(
        views(w.breakpoint.actions@),
        ","@,
    )
}

/// The line of a watchpoint, as `watchpoint_line` says.
pub fn format_watchpoint_summary(watchpoint: &WatchpointSummary) -> (r: String)
    ensures
        r@ == watchpoint_line(*watchpoint),
{
    let breakpoint = &watchpoint.breakpoint;
    let mut s = owned("wp=");
    push_decimal(&mut s, breakpoint.trigger_id.0);
    push_breakpoint_head(&mut s, breakpoint);
    push_str(&mut s, " value_key=");
    push_str(&mut s, watchpoint.value_key.as_str());
    push_str(&mut s, " path=");
    push_text_or(&mut s, &watchpoint.path, "-");
    push_str(&mut s, " after=");
    push_num_or_dash(&mut s, watchpoint.after_millis);
    push_str(&mut s, " kind=");
    match watchpoint.event_kind {
        Some(k) => push_str(&mut s, event_kind_name(k)),
        None => push_str(&mut s, "-"),
    }
    push_str(&mut s, " summary=");
    push_text_or(&mut s, &watchpoint.summary_contains, "-");
    push_str(&mut s, " actions=");
    let actions = joined(&breakpoint.actions, ",");
    push_str(&mut s, actions.as_str());
    assert(s@ =~= watchpoint_line(*watchpoint));
    s
}

/// The line of a definition group: name, whether enabled, and how many
/// breakpoints it holds.
pub fn format_breakpoint_definition_group(group: &BreakpointDefinitionGroup) -> (r: String)
    ensures
        r@ == "definition_group="@ + group.name@ + " enabled="@ + bool_text(group.enabled) + " count="@
            + decimal(group.breakpoints@.len()),
{
    let mut s = owned("definition_group=");
    push_str(&mut s, group.name.as_str());
    push_str(&mut s, " enabled=");
    push_bool(&mut s, group.enabled);
    push_str(&mut s, " count=");
    push_decimal(&mut s, group.breakpoints.len() as u64);
    s
}

/// The line of a stored predicate: name, how many breakpoints use it, and
/// its text.
pub fn format_breakpoint_predicate_summary(predicate: &BreakpointPredicateSummary) -> (r: String)
    ensures
        r@ == "predicate="@ + predicate.name@ + " breakpoints="@ + decimal(predicate.breakpoint_count as nat)
            + " when="@ + predicate.predicate@,
{
    let mut s = owned("predicate=");
    push_str(&mut s, predicate.name.as_str());
    push_str(&mut s, " breakpoints=");
    push_decimal(&mut s, predicate.breakpoint_count as u64);
    push_str(&mut s, " when=");
    push_str(&mut s, predicate.predicate.as_str());
    s
}

/// The line of a stop reason, by its kind.
pub open spec fn stop_reason_line(r: StopReason) -> Seq<char> {
    let event = num_or_dash(
        match r.event_id {
            Some(e) => Some(e.0),
            None => None,
        },
    );
    match r.kind {
        StopReasonKind::Breakpoint => "stop kind=breakpoint trigger="@ + num_or_dash(
            match r.trigger_id {
                Some(t) => Some(t.0),
                None => None,
            },
        ) + " name="@ + text_or(r.trigger_name, "-"@) + group_part(r.group) + " event="@ + event
            + " seq="@ + num_or_dash(r.sequence_no) + " summary="@ + r.summary@,
        StopReasonKind::TargetExit => "stop kind=target_exit event="@ + event + " seq="@ + num_or_dash(
            r.sequence_no,
        ) + " summary="@ + r.summary@,
        StopReasonKind::ControlRejected => "stop kind=control_rejected action="@ + match r.control_action {
            Some(a) => action_debug(a),
            None => "-"@,
        } + " summary="@ + r.summary@,
    }
}

/// The line of a stop reason, as `stop_reason_line` says.
pub fn format_stop_reason(stop_reason: &StopReason) -> (r: String)
    ensures
        r@ == stop_reason_line(*stop_reason),
{
    let event: Option<u64> = match stop_reason.event_id {
        Some(e) => Some(e.0),
        None => None,
    };
    let mut s = String::new();
    match stop_reason.kind {
        StopReasonKind::Breakpoint => {
            push_str(&mut s, "stop kind=breakpoint trigger=");
            let trigger: Option<u64> = match stop_reason.trigger_id {
                Some(t) => Some(t.0),
                None => None,
            };
            push_num_or_dash(&mut s, trigger);
            push_str(&mut s, " name=");
            push_text_or(&mut s, &stop_reason.trigger_name, "-");
            push_group_part(&mut s, &stop_reason.group);
            push_str(&mut s, " event=");
            push_num_or_dash(&mut s, event);
            push_str(&mut s, " seq=");
            push_num_or_dash(&mut s, stop_reason.sequence_no);
        },
        StopReasonKind::TargetExit => {
            push_str(&mut s, "stop kind=target_exit event=");
            push_num_or_dash(&mut s, event);
            push_str(&mut s, " seq=");
            push_num_or_dash(&mut s, stop_reason.sequence_no);
        },
        StopReasonKind::ControlRejected => {
            push_str(&mut s, "stop kind=control_rejected action=");
            match &stop_reason.control_action {
                Some(a) => push_action_debug(&mut s, a),
                None => push_str(&mut s, "-"),
            }
        },
    }
    push_str(&mut s, " summary=");
    push_str(&mut s, stop_reason.summary.as_str());
    assert(s@ =~= stop_reason_line(*stop_reason));
    s
}

/// The line of a replay directive of `plan` at boundary `b`.
pub open spec fn directive_line(plan: Map<u64, crate::model::BoundaryReplayDirective>, b: u64) -> Seq<char> {
    "boundary="@ + decimal(b as nat) + " artifact="@ + decimal(plan[b].artifact_ref.artifact_id.0 as nat)
}

/// `ids` lists the boundaries of `plan`, each once, in increasing order.
pub open spec fn plan_order(plan: Map<u64, crate::model::BoundaryReplayDirective>, ids: Seq<u64>) -> bool {
    &&& ids.len() == plan.len()
    &&& forall|i: int| 0 <= i < ids.len() ==> plan.contains_key(#[trigger] ids[i])
    &&& forall|i: int, j: int| 0 <= i < j < ids.len() ==> ids[i] < ids[j]
}

/// One line per replay directive, in increasing boundary order: the
/// boundary and the artifact replayed there.
pub fn format_replay_plan_lines(plan: &ReplayPlan) -> (r: Vec<String>)
    requires
        plan.wf(),
    ensures
        exists|ids: Seq<u64>| #[trigger] plan_order(plan@, ids) && r@.len() == ids.len()
            && forall|i: int| 0 <= i < ids.len() ==> r@[i]@ == directive_line(plan@, #[trigger] ids[i]),
{
    let directives = plan.directives();
    let n = directives.len();
    let ghost ids = directives@.map_values(|d: &crate::model::BoundaryReplayDirective| d.boundary_id.0);
    let mut lines: Vec<String> = Vec::new();
    let mut i: usize = 0;
    while i < n
        invariant
            n == directives@.len(),
            ids == directives@.map_values(|d: &crate::model::BoundaryReplayDirective| d.boundary_id.0),
            i <= n,
            lines@.len() == i,
            forall|j: int| 0 <= j < directives@.len() ==> plan@.contains_key(#[trigger] directives@[j].boundary_id.0)
                && plan@[directives@[j].boundary_id.0] == *directives@[j],
            forall|j: int| 0 <= j < i ==> lines@[j]@ == directive_line(plan@, #[trigger] ids[j]),
        decreases n - i,
    {
        let d = directives[i];
        let mut s = owned("boundary=");
        push_decimal(&mut s, d.boundary_id.0);
        push_str(&mut s, " artifact=");
        push_decimal(&mut s, d.artifact_ref.artifact_id.0);
        proof {
            assert(plan@.contains_key(d.boundary_id.0));
            assert(ids[i as int] == d.boundary_id.0);
        }
        lines.push(s);
        i = i + 1;
    }
    proof {
        assert forall|a: int| 0 <= a < ids.len() implies plan@.contains_key(#[trigger] ids[a]) by {
            assert(ids[a] == directives@[a].boundary_id.0);
        }
        assert forall|a: int, b: int| 0 <= a < b < ids.len() implies ids[a] < ids[b] by {
            assert(ids[a] == directives@[a].boundary_id.0);
            assert(ids[b] == directives@[b].boundary_id.0);
        }
        assert(plan_order(plan@, ids));
    }
    lines
}

/// Where a frame's source is: the file and, where known, the line.
pub open spec fn frame_source(f: StackFrame) -> Option<Seq<char>> {
    match f.source_file {
        Some(file) => Some(
            match f.source_line {
                Some(line) => file@ + ":"@ + decimal(line as nat),
                None => file@,
            },
        ),
        None => None,
    }
}

/// Where a frame's source is, as `frame_source` says.
pub fn short_stack_frame_source(frame: &StackFrame) -> (r: Option<String>)
    ensures
        match r {
            Some(s) => frame_source(*frame) == Some(s@),
            None => frame_source(*frame) is None,
        },
{
    match &frame.source_file {
        Some(file) => {
            let mut s = file.clone();
            match frame.source_line {
                Some(line) => {
                    push_str(&mut s, ":");
                    push_decimal(&mut s, line);
                },
                None => {},
            }
            Some(s)
        },
        None => None,
    }
}

/// The line of a stack frame.
pub open spec fn frame_line(f: StackFrame) -> Seq<char> {
    "frame="@ + decimal(f.frame_index as nat) + " boundary="@ + decimal(f.boundary_id.0 as nat) + " depth="@
        + decimal(f.depth as nat) + " kind="@ + kind_name(f.event_kind) + " events="@ + decimal(
        f.event_ids@.len(),
    ) + " seq="@ + decimal(f.sequence_start as nat) + ".."@ + decimal(f.sequence_end as nat) + " label="@
        + f.label@ + match f.span_id {
        Some(s) => " span="@ + s@,
        None => Seq::empty(),
    } + match f.correlation_id {
        Some(c) => " correlation="@ + c@,
        None => Seq::empty(),
    } + match frame_source(f) {
        Some(src) => " source="@ + src,
        None => Seq::empty(),
    } + " latest="@ + f.latest_summary@
}

/// The line of a stack frame, as `frame_line` says.
pub fn format_stack_frame_summary(frame: &StackFrame) -> (r: String)
    ensures
        r@ == frame_line(*frame),
{
    let mut s = owned("frame=");
    push_decimal(&mut s, frame.frame_index as u64);
    push_str(&mut s, " boundary=");
    push_decimal(&mut s, frame.boundary_id.0);
    push_str(&mut s, " depth=");
    push_decimal(&mut s, frame.depth as u64);
    push_str(&mut s, " kind=");
    push_str(&mut s, event_kind_name(frame.event_kind));
    push_str(&mut s, " events=");
    push_decimal(&mut s, frame.event_ids.len() as u64);
    push_str(&mut s, " seq=");
    push_decimal(&mut s, frame.sequence_start);
    push_str(&mut s, "..");
    push_decimal(&mut s, frame.sequence_end);
    push_str(&mut s, " label=");
    push_str(&mut s, frame.label.as_str());
    match &frame.span_id {
        Some(span) => {
            push_str(&mut s, " span=");
            push_str(&mut s, span.as_str());
        },
        None => {},
    }
    match &frame.correlation_id {
        Some(c) => {
            push_str(&mut s, " correlation=");
            push_str(&mut s, c.as_str());
        },
        None => {},
    }
    match short_stack_frame_source(frame) {
        Some(src) => {
            push_str(&mut s, " source=");
            push_str(&mut s, src.as_str());
        },
        None => {},
    }
    push_str(&mut s, " latest=");
    push_str(&mut s, frame.latest_summary.as_str());
    assert(s@ =~= frame_line(*frame));
    s
}

/// The lines of a stack frame's detail view.
pub open spec fn frame_detail(f: StackFrame) -> Seq<Seq<char>> {
    seq![
        "frame="@ + decimal(f.frame_index as nat),
        "boundary="@ + decimal(f.boundary_id.0 as nat),
        "depth="@ + decimal(f.depth as nat),
        "kind="@ + kind_name(f.event_kind),
        "label="@ + f.label@,
        "events="@ + decimal(f.event_ids@.len()),
        "seq="@ + decimal(f.sequence_start as nat) + ".."@ + decimal(f.sequence_end as nat),
        "entry="@ + f.entry_summary@,
        "latest="@ + f.latest_summary@,
        "correlation="@ + text_or(f.correlation_id, "-"@),
        "span="@ + text_or(f.span_id, "-"@),
        "function="@ + text_or(f.function, "-"@),
        "source="@ + match frame_source(f) {
            Some(src) => src,
            None => "-"@,
        },
    ]
}

fn labelled(label: &str, value: &str) -> (r: String)
    ensures
        r@ == label@ + value@,
{
    let mut s = owned(label);
    push_str(&mut s, value);
    s
}

fn labelled_number(label: &str, n: u64) -> (r: String)
    ensures
        r@ == label@ + decimal(n as nat),
{
    let mut s = owned(label);
    push_decimal(&mut s, n);
    s
}

fn labelled_or_dash(label: &str, o: &Option<String>) -> (r: String)
    ensures
        r@ == label@ + text_or(*o, "-"@),
{
    let mut s = owned(label);
    push_text_or(&mut s, o, "-");
    s
}

/// The lines of a stack frame's detail view, as `frame_detail` says.
pub fn format_stack_frame_detail(frame: &StackFrame) -> (r: Vec<String>)
    ensures
        r@.map_values(|l: String| l@) == frame_detail(*frame),
{
    let mut lines: Vec<String> = Vec::new();
    lines.push(labelled_number("frame=", frame.frame_index as u64));
    lines.push(labelled_number("boundary=", frame.boundary_id.0));
    lines.push(labelled_number("depth=", frame.depth as u64));
    lines.push(labelled("kind=", event_kind_name(frame.event_kind)));
    lines.push(labelled("label=", frame.label.as_str()));
    lines.push(labelled_number("events=", frame.event_ids.len() as u64));
    let mut seq_line = labelled_number("seq=", frame.sequence_start);
    push_str(&mut seq_line, "..");
    push_decimal(&mut seq_line, frame.sequence_end);
    lines.push(seq_line);
    lines.push(labelled("entry=", frame.entry_summary.as_str()));
    lines.push(labelled("latest=", frame.latest_summary.as_str()));
    lines.push(labelled_or_dash("correlation=", &frame.correlation_id));
    lines.push(labelled_or_dash("span=", &frame.span_id));
    lines.push(labelled_or_dash("function=", &frame.function));
    let source = short_stack_frame_source(frame);
    lines.push(labelled_or_dash("source=", &source));
    proof {
        assert(lines@.map_values(|l: String| l@) =~= frame_detail(*frame));
    }
    lines
}

/// Whether an event reports that the target exited.
pub fn event_looks_like_target_exit(event: &EventEnvelope) -> (r: bool)
    ensures
        r == is_exit_event(*event),
{
    crate::control::target_exit_summary(event).is_some()
}

/// `true`, `false`, or `-` when there is none.
pub open spec fn opt_bool_text(o: Option<bool>) -> Seq<char> {
    match o {
        Some(b) => bool_text(b),
        None => "-"@,
    }
}

/// The detail lines of a watchpoint: its id and name, its states, its
/// group, what it watches and under which filters, its actions, its hits,
/// then the line of the event it last fired on where there is one.
pub open spec fn watchpoint_detail_lines(d: WatchpointDetail) -> Seq<Seq<char>> {
    let w = d.watchpoint;
    let b = w.breakpoint;
    seq![
        "wp="@ + decimal(b.trigger_id.0 as nat) + " name="@ + b.name@,
        "state="@ + b.state.label_spec() + " configured="@ + b.configured_state.label_spec()
            + " lifetime="@ + b.lifetime.label_spec() + " disposition="@ + b.disposition.label_spec()
            + " activity="@ + b.activity.label_spec(),
        "group="@ + text_or(b.group, "-"@) + " group_enabled="@ + opt_bool_text(b.group_enabled),
        "value_key="@ + w.value_key@,
        "path="@ + text_or(w.path, "-"@),
        "after_millis="@ + num_or_dash(w.after_millis),
        "event_kind="@ + match w.event_kind {
            Some(k) => kind_name(k),
            None => "-"@,
        },
        "summary_contains="@ + text_or(w.summary_contains, "-"@),
        "actions="@ + join(views(b.actions@), ","@),
        "hits="@ + decimal(b.hit_count as nat),
        "last_event="@ + num_or_dash(
            match b.last_hit_event_id {
                Some(e) => Some(e.0),
                None => None,
            },
        ),
        "last_seq="@ + num_or_dash(b.last_hit_sequence_no),
    ] + match d.last_hit_event {
        Some(e) => seq![event_line(e)],
        None => Seq::empty(),
    }
}

/// What showing watchpoint `trigger_id` answers: its detail lines under
/// `watchpoint <id>`, or an error where there is no such watchpoint.
pub fn show_watchpoint_output(trigger_id: TriggerId, detail: Option<&WatchpointDetail>) -> (r: SwatResult<
    CommandOutput,
>)
    ensures
        match detail {
            Some(d) => r matches Ok(out) && out.summary@ == "watchpoint "@ + decimal(trigger_id.0 as nat)
                && views(out.lines@) == watchpoint_detail_lines(*d),
            None => r matches Err(e) && e@ == "unknown watchpoint "@ + decimal(trigger_id.0 as nat),
        },
{
    let d = match detail {
        Some(d) => d,
        None => {
            let mut m = owned("unknown watchpoint ");
            push_decimal(&mut m, trigger_id.0);
            return Err(SwatError::new(m));
        },
    };
    let w = &d.watchpoint;
    let b = &w.breakpoint;
    let mut lines: Vec<String> = Vec::new();
    let mut l0 = owned("wp=");
    push_decimal(&mut l0, b.trigger_id.0);
    push_str(&mut l0, " name=");
    push_str(&mut l0, b.name.as_str());
    lines.push(l0);
    let mut l1 = owned("state=");
    push_str(&mut l1, b.state.label());
    push_str(&mut l1, " configured=");
    push_str(&mut l1, b.configured_state.label());
    push_str(&mut l1, " lifetime=");
    push_str(&mut l1, b.lifetime.label());
    push_str(&mut l1, " disposition=");
    push_str(&mut l1, b.disposition.label());
    push_str(&mut l1, " activity=");
    push_str(&mut l1, b.activity.label());
    lines.push(l1);
    let mut l2 = owned("group=");
    push_text_or(&mut l2, &b.group, "-");
    push_str(&mut l2, " group_enabled=");
    match b.group_enabled {
        Some(e) => push_bool(&mut l2, e),
        None => push_str(&mut l2, "-"),
    }
    lines.push(l2);
    lines.push(labelled("value_key=", w.value_key.as_str()));
    let mut l4 = owned("path=");
    push_text_or(&mut l4, &w.path, "-");
    lines.push(l4);
    let mut l5 = owned("after_millis=");
    push_num_or_dash(&mut l5, w.after_millis);
    lines.push(l5);
    let mut l6 = owned("event_kind=");
    match w.event_kind {
        Some(k) => push_str(&mut l6, event_kind_name(k)),
        None => push_str(&mut l6, "-"),
    }
    lines.push(l6);
    let mut l7 = owned("summary_contains=");
    push_text_or(&mut l7, &w.summary_contains, "-");
    lines.push(l7);
    let actions = joined(&b.actions, ",");
    lines.push(labelled("actions=", actions.as_str()));
    let mut l9 = owned("hits=");
    push_decimal(&mut l9, b.hit_count);
    lines.push(l9);
    let mut l10 = owned("last_event=");
    push_num_or_dash(
        &mut l10,
        match b.last_hit_event_id {
            Some(e) => Some(e.0),
            None => None,
        },
    );
    lines.push(l10);
    let mut l11 = owned("last_seq=");
    push_num_or_dash(&mut l11, b.last_hit_sequence_no);
    lines.push(l11);
    match &d.last_hit_event {
        Some(e) => lines.push(format_event_line(e)),
        None => {},
    }
    proof {
        assert(views(lines@) =~= watchpoint_detail_lines(*d));
    }
    let mut summary = owned("watchpoint ");
    push_decimal(&mut summary, trigger_id.0);
    Ok(CommandOutput::new(summary, lines))
}

} // verus!
