//! Triggers over the event stream: what they match, what they do when they
//! fire, how they are grouped and armed, and why a target stopped.
use vstd::prelude::*;
use crate::api::{BreakpointDisposition, WatchpointSpec};
use crate::expr::{QueriedValue, QueryExpr, debug_quoted, debug_text};
use crate::schema::SchemaNode;
use crate::model::{
    CapabilitySet, ControlAction, EventEnvelope, EventId, EventKind, EventPayload, TriggerId,
    payload_summary_spec,
};
use crate::text::{contains_seq, owned, push_str, str_contains};

verus! {

/// What a trigger matches.
#[derive(Debug, PartialEq, Eq)]
pub enum TriggerPredicate {
    Expr(QueryExpr),
    Named(String),
    ValueChanged { value_key: String, path: Option<String> },
    ObservedAfter { millis: u64 },
    EventKindIs(EventKind),
    SummaryContains(String),
    ArtifactUtf8Contains(String),
    ArtifactJsonPathExists(String),
    ArtifactJsonPathEquals { path: String, expected: QueriedValue },
    ArtifactJsonFailsSchema(SchemaNode),
    All(Vec<TriggerPredicate>),
    Any(Vec<TriggerPredicate>),
}

/// A predicate stored under a name.
#[derive(Debug, PartialEq, Eq)]
pub struct TriggerPredicateDefinition {
    pub name: String,
    pub predicate: TriggerPredicate,
}

/// What a trigger does when it fires.
#[derive(Clone, Debug, PartialEq, Eq)]
pub enum TriggerAction {
    PauseTarget,
    CreateSnapshot { reason: String },
}

/// A trigger: a named predicate with actions, optionally in a group.
#[derive(Debug, PartialEq, Eq)]
pub struct Trigger {
    pub trigger_id: TriggerId,
    pub name: String,
    pub group: Option<String>,
    pub predicate: TriggerPredicate,
    pub actions: Vec<TriggerAction>,
    pub fire_once: bool,
    pub enabled: bool,
    pub hit_count: u64,
    pub last_hit_event_id: Option<EventId>,
    pub last_hit_sequence_no: Option<u64>,
}

impl Trigger {
    /// An armed, persistent trigger with id `trigger_id`, in no group and
    /// never hit.
    pub fn new(trigger_id: TriggerId, name: String, predicate: TriggerPredicate, actions: Vec<TriggerAction>) -> (r: Self)
        ensures
            r == (Trigger {
                trigger_id,
                name,
                group: None,
                predicate,
                actions,
                fire_once: false,
                enabled: true,
                hit_count: 0,
                last_hit_event_id: None,
                last_hit_sequence_no: None,
            }),
    {
        Trigger {
            trigger_id,
            name,
            group: None,
            predicate,
            actions,
            fire_once: false,
            enabled: true,
            hit_count: 0,
            last_hit_event_id: None,
            last_hit_sequence_no: None,
        }
    }

    /// The same trigger in `group`.
    pub fn in_group(self, group: String) -> (r: Self)
        ensures
            r == (Trigger { group: Some(group), ..self }),
    {
        Trigger { group: Some(group), ..self }
    }

    /// The same trigger, removed after its first hit.
    pub fn fire_once(self) -> (r: Self)
        ensures
            r == (Trigger { fire_once: true, ..self }),
    {
        Trigger { fire_once: true, ..self }
    }

    /// The same trigger, disarmed.
    pub fn disabled(self) -> (r: Self)
        ensures
            r == (Trigger { enabled: false, ..self }),
    {
        Trigger { enabled: false, ..self }
    }
}

/// Whether the triggers of a group are armed.
#[derive(Clone, Debug, PartialEq, Eq)]
pub struct TriggerGroupPolicy {
    pub name: String,
    pub enabled: bool,
}

/// A trigger that fired on an event.
#[derive(Clone, Debug, PartialEq, Eq)]
pub struct TriggerMatch {
    pub trigger_id: TriggerId,
    pub trigger_name: String,
    pub group: Option<String>,
    pub predicate_name: Option<String>,
    pub event_id: EventId,
    pub sequence_no: u64,
    pub summary: String,
    pub actions: Vec<TriggerAction>,
}

/// Why a target stopped.
#[derive(Clone, Copy, Debug, PartialEq, Eq, Structural)]
pub enum StopReasonKind {
    Breakpoint,
    TargetExit,
    ControlRejected,
}

/// Why a target stopped, with what is known of the cause.
#[derive(Clone, Debug, PartialEq, Eq)]
pub struct StopReason {
    pub kind: StopReasonKind,
    pub summary: String,
    pub trigger_id: Option<TriggerId>,
    pub trigger_name: Option<String>,
    pub group: Option<String>,
    pub event_id: Option<EventId>,
    pub sequence_no: Option<u64>,
    pub control_action: Option<ControlAction>,
}

/// The summary text of an event's payload, if it has one.
pub fn payload_summary(event: &EventEnvelope) -> (r: Option<&str>)
    ensures
        match r {
            Some(s) => payload_summary_spec(event.payload) == Some(s@),
            None => payload_summary_spec(event.payload) is None,
        },
{
    event.payload.summary()
}

/// Whether an event reports that the target exited: a lifecycle text
/// event whose summary mentions `exited`.
pub open spec fn is_exit_event(e: EventEnvelope) -> bool {
    &&& e.kind == EventKind::Lifecycle
    &&& e.payload matches EventPayload::Text { summary } && contains_seq(summary@, "exited"@)
}

/// The summary of an event that reports the target's exit.
pub fn target_exit_summary(event: &EventEnvelope) -> (r: Option<&str>)
    ensures
        match r {
            Some(s) => is_exit_event(*event) && event.payload == (EventPayload::Text { summary: event.payload->Text_summary }) && s@ == event.payload->Text_summary@,
            None => !is_exit_event(*event),
        },
{
    match &event.payload {
        EventPayload::Text { summary } => {
            if event.kind == EventKind::Lifecycle && str_contains(summary.as_str(), "exited") {
                Some(summary.as_str())
            } else {
                None
            }
        },
        _ => None,
    }
}

/// The name of a predicate that refers to a stored one.
pub fn top_level_predicate_name(predicate: &TriggerPredicate) -> (r: Option<String>)
    ensures
        match predicate {
            TriggerPredicate::Named(name) => r matches Some(n) && n@ == name@,
            _ => r is None,
        },
{
    match predicate {
        TriggerPredicate::Named(name) => Some(name.clone()),
        _ => None,
    }
}

/// What a list of actions does: nothing, pause, snapshot, or both.
pub open spec fn disposition_of(actions: Seq<TriggerAction>) -> BreakpointDisposition {
    let pause = exists|i: int| 0 <= i < actions.len() && actions[i] is PauseTarget;
    let snap = exists|i: int| 0 <= i < actions.len() && actions[i] is CreateSnapshot;
    if pause && snap {
        BreakpointDisposition::Mixed
    } else if pause {
        BreakpointDisposition::Pause
    } else if snap {
        BreakpointDisposition::Snapshot
    } else {
        BreakpointDisposition::Passive
    }
}

/// The disposition of a breakpoint with `actions`.
pub fn breakpoint_disposition(actions: &Vec<TriggerAction>) -> (r: BreakpointDisposition)
    ensures
        r == disposition_of(actions@),
{
    let mut saw_pause = false;
    let mut saw_snapshot = false;
    let n = actions.len();
    let mut i: usize = 0;
    while i < n
        invariant
            n == actions@.len(),
            i <= n,
            saw_pause == exists|j: int| 0 <= j < i && actions@[j] is PauseTarget,
            saw_snapshot == exists|j: int| 0 <= j < i && actions@[j] is CreateSnapshot,
        decreases n - i,
    {
        match &actions[i] {
            TriggerAction::PauseTarget => {
                saw_pause = true;
            },
            TriggerAction::CreateSnapshot { .. } => {
                saw_snapshot = true;
            },
        }
        i = i + 1;
    }
    if saw_pause && saw_snapshot {
        BreakpointDisposition::Mixed
    } else if saw_pause {
        BreakpointDisposition::Pause
    } else if saw_snapshot {
        BreakpointDisposition::Snapshot
    } else {
        BreakpointDisposition::Passive
    }
}

/// The text of an action: `PauseTarget`, or `CreateSnapshot(...)` with the
/// quoted reason.
pub open spec fn action_text(a: TriggerAction) -> Seq<char> {
    match a {
        TriggerAction::PauseTarget => "PauseTarget"@,
        TriggerAction::CreateSnapshot { reason } => "CreateSnapshot("@ + debug_text(reason@) + ")"@,
    }
}

/// The text of an action, as `action_text` says.
pub fn format_trigger_action(action: &TriggerAction) -> (r: String)
    ensures
        r@ == action_text(*action),
{
    match action {
        TriggerAction::PauseTarget => owned("PauseTarget"),
        TriggerAction::CreateSnapshot { reason } => {
            let mut s = owned("CreateSnapshot(");
            let q = debug_quoted(reason.as_str());
            push_str(&mut s, q.as_str());
            push_str(&mut s, ")");
            s
        },
    }
}

/// The name of the stored predicate a breakpoint refers to, if it does.
pub fn breakpoint_predicate_name(predicate: &TriggerPredicate) -> (r: Option<String>)
    ensures
        match predicate {
            TriggerPredicate::Named(name) => r matches Some(n) && n@ == name@,
            _ => r is None,
        },
{
    top_level_predicate_name(predicate)
}

/// Whether a target with `capabilities` can carry out `action`.
pub open spec fn allows(c: CapabilitySet, action: ControlAction) -> bool {
    match action {
        ControlAction::Pause => c.can_stop,
        ControlAction::Resume => c.can_resume,
        ControlAction::Step => c.can_step,
        ControlAction::CreateSnapshot { .. } => c.can_snapshot,
    }
}

/// Whether a target with `capabilities` can carry out `action`.
pub fn control_allowed(capabilities: CapabilitySet, action: &ControlAction) -> (r: bool)
    ensures
        r == allows(capabilities, *action),
{
    match action {
        ControlAction::Pause => capabilities.can_stop,
        ControlAction::Resume => capabilities.can_resume,
        ControlAction::Step => capabilities.can_step,
        ControlAction::CreateSnapshot { .. } => capabilities.can_snapshot,
    }
}

/// The parts of a watchpoint that a predicate pins down.
pub struct WatchpointDescriptor {
    pub value_key: Option<String>,
    pub path: Option<String>,
    pub after_millis: Option<u64>,
    pub event_kind: Option<EventKind>,
    pub summary_contains: Option<String>,
}

impl WatchpointDescriptor {
    /// A descriptor that pins nothing down.
    pub fn empty() -> (r: Self)
        ensures
            r.value_key is None && r.path is None && r.after_millis is None && r.event_kind is None
                && r.summary_contains is None,
    {
        WatchpointDescriptor {
            value_key: None,
            path: None,
            after_millis: None,
            event_kind: None,
            summary_contains: None,
        }
    }
}

/// Merges one slot: taken from `next` where it has one, and a clash where
/// both have one.
pub open spec fn merge_slot<T>(cur: Option<T>, next: Option<T>) -> (Option<T>, bool) {
    match next {
        Some(v) => (Some(v), cur is Some),
        None => (cur, false),
    }
}

/// Merges `next` into `descriptor`: each slot that `next` pins down is
/// taken from it, and the merge fails (`None`) as soon as a slot was pinned
/// down on both sides; the slots up to the clash are taken, the rest are
/// left.
pub fn merge_watchpoint_descriptor(descriptor: &mut WatchpointDescriptor, next: WatchpointDescriptor) -> (r: Option<()>)
    ensures
        ({
            let (v, cv) = merge_slot(old(descriptor).value_key, next.value_key);
            let (p, cp) = merge_slot(old(descriptor).path, next.path);
            let (a, ca) = merge_slot(old(descriptor).after_millis, next.after_millis);
            let (k, ck) = merge_slot(old(descriptor).event_kind, next.event_kind);
            let (s, cs) = merge_slot(old(descriptor).summary_contains, next.summary_contains);
            &&& r is Some <==> !(cv || cp || ca || ck || cs)
            &&& final(descriptor).value_key == v
            &&& final(descriptor).path == (if cv { old(descriptor).path } else { p })
            &&& final(descriptor).after_millis == (if cv || cp { old(descriptor).after_millis } else { a })
            &&& final(descriptor).event_kind == (if cv || cp || ca { old(descriptor).event_kind } else { k })
            &&& final(descriptor).summary_contains == (if cv || cp || ca || ck { old(descriptor).summary_contains } else { s })
        }),
{
    if let Some(value_key) = next.value_key {
        let clash = descriptor.value_key.is_some();
        descriptor.value_key = Some(value_key);
        if clash {
            return None;
        }
    }
    if let Some(path) = next.path {
        let clash = descriptor.path.is_some();
        descriptor.path = Some(path);
        if clash {
            return None;
        }
    }
    if let Some(after_millis) = next.after_millis {
        let clash = descriptor.after_millis.is_some();
        descriptor.after_millis = Some(after_millis);
        if clash {
            return None;
        }
    }
    if let Some(event_kind) = next.event_kind {
        let clash = descriptor.event_kind.is_some();
        descriptor.event_kind = Some(event_kind);
        if clash {
            return None;
        }
    }
    if let Some(summary_contains) = next.summary_contains {
        let clash = descriptor.summary_contains.is_some();
        descriptor.summary_contains = Some(summary_contains);
        if clash {
            return None;
        }
    }
    Some(())
}

/// The trigger that a watchpoint definition makes: it watches the value,
/// with each further condition added as a conjunct, and it pauses the
/// target unless the definition asks for a snapshot.
pub fn build_watchpoint_trigger(trigger_id: TriggerId, spec: WatchpointSpec) -> (r: Trigger)
    ensures
        r.trigger_id == trigger_id,
        r.name == spec.name,
        r.group == spec.group,
        r.fire_once == spec.fire_once,
        r.enabled,
        r.hit_count == 0,
        r.last_hit_event_id is None,
        r.last_hit_sequence_no is None,
        r.actions@ == (match spec.snapshot_reason {
            Some(reason) => seq![TriggerAction::CreateSnapshot { reason }],
            None => seq![TriggerAction::PauseTarget],
        }),
        ({
            let first = TriggerPredicate::ValueChanged { value_key: spec.value_key, path: spec.path };
            let rest = (match spec.after_millis {
                Some(m) => seq![TriggerPredicate::ObservedAfter { millis: m }],
                None => Seq::empty(),
            }) + (match spec.event_kind {
                Some(k) => seq![TriggerPredicate::EventKindIs(k)],
                None => Seq::empty(),
            }) + (match spec.summary_contains {
                Some(s) => seq![TriggerPredicate::SummaryContains(s)],
                None => Seq::empty(),
            });
            if rest.len() == 0 {
                r.predicate == first
            } else {
                r.predicate matches TriggerPredicate::All(v) && v@ == seq![first] + rest
            }
        }),
{
    let WatchpointSpec {
        name,
        value_key,
        path,
        after_millis,
        event_kind,
        summary_contains,
        fire_once,
        group,
        snapshot_reason,
    } = spec;
    let first = TriggerPredicate::ValueChanged { value_key, path };
    let mut rest: Vec<TriggerPredicate> = Vec::new();
    match after_millis {
        Some(millis) => rest.push(TriggerPredicate::ObservedAfter { millis }),
        None => {},
    }
    match event_kind {
        Some(kind) => rest.push(TriggerPredicate::EventKindIs(kind)),
        None => {},
    }
    match summary_contains {
        Some(s) => rest.push(TriggerPredicate::SummaryContains(s)),
        None => {},
    }
    let ghost rest_view = rest@;
    let predicate = if rest.len() == 0 {
        first
    } else {
        let mut all: Vec<TriggerPredicate> = Vec::new();
        all.push(first);
        all.append(&mut rest);
        TriggerPredicate::All(all)
    };
    let mut actions: Vec<TriggerAction> = Vec::new();
    match snapshot_reason {
        Some(reason) => actions.push(TriggerAction::CreateSnapshot { reason }),
        None => actions.push(TriggerAction::PauseTarget),
    }
    let mut trigger = Trigger::new(trigger_id, name, predicate, actions);
    if fire_once {
        trigger = trigger.fire_once();
    }
    match group {
        Some(g) => {
            trigger = trigger.in_group(g);
        },
        None => {},
    }
    trigger
}

} // verus!
