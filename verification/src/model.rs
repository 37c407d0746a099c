//! The shared event model: identifiers, timestamps, errors, events,
//! artifacts, adapter emissions and the adapter contract.
use vstd::prelude::*;

verus! {

/// Identifies one debugging session.
#[derive(Clone, Copy, Debug, PartialEq, Eq, PartialOrd, Ord, Hash, Structural)]
pub struct SessionId(pub u64);

/// Identifies one attached target.
#[derive(Clone, Copy, Debug, PartialEq, Eq, PartialOrd, Ord, Hash, Structural)]
pub struct TargetId(pub u64);

/// Identifies one stored event.
#[derive(Clone, Copy, Debug, PartialEq, Eq, PartialOrd, Ord, Hash, Structural)]
pub struct EventId(pub u64);

/// Identifies one stored artifact.
#[derive(Clone, Copy, Debug, PartialEq, Eq, PartialOrd, Ord, Hash, Structural)]
pub struct ArtifactId(pub u64);

/// Names an artifact that an adapter emits before the store assigns its id.
#[derive(Clone, Copy, Debug, PartialEq, Eq, PartialOrd, Ord, Hash, Structural)]
pub struct ArtifactAlias(pub u64);

/// Identifies one snapshot.
#[derive(Clone, Copy, Debug, PartialEq, Eq, PartialOrd, Ord, Hash, Structural)]
pub struct SnapshotId(pub u64);

/// Identifies one nondeterministic boundary (a model or tool call).
#[derive(Clone, Copy, Debug, PartialEq, Eq, PartialOrd, Ord, Hash, Structural)]
pub struct BoundaryId(pub u64);

/// Identifies one trigger (breakpoint or watchpoint).
#[derive(Clone, Copy, Debug, PartialEq, Eq, PartialOrd, Ord, Hash, Structural)]
pub struct TriggerId(pub u64);

impl SessionId {
    pub fn from_raw(raw: u64) -> (r: Self)
        ensures
            r.0 == raw,
    {
        SessionId(raw)
    }

    pub fn raw(self) -> (r: u64)
        ensures
            r == self.0,
    {
        self.0
    }
}

impl TargetId {
    pub fn from_raw(raw: u64) -> (r: Self)
        ensures
            r.0 == raw,
    {
        TargetId(raw)
    }

    pub fn raw(self) -> (r: u64)
        ensures
            r == self.0,
    {
        self.0
    }
}

impl EventId {
    pub fn from_raw(raw: u64) -> (r: Self)
        ensures
            r.0 == raw,
    {
        EventId(raw)
    }

    pub fn raw(self) -> (r: u64)
        ensures
            r == self.0,
    {
        self.0
    }
}

impl ArtifactId {
    pub fn from_raw(raw: u64) -> (r: Self)
        ensures
            r.0 == raw,
    {
        ArtifactId(raw)
    }

    pub fn raw(self) -> (r: u64)
        ensures
            r == self.0,
    {
        self.0
    }
}

impl ArtifactAlias {
    pub fn from_raw(raw: u64) -> (r: Self)
        ensures
            r.0 == raw,
    {
        ArtifactAlias(raw)
    }

    pub fn raw(self) -> (r: u64)
        ensures
            r == self.0,
    {
        self.0
    }
}

impl SnapshotId {
    pub fn from_raw(raw: u64) -> (r: Self)
        ensures
            r.0 == raw,
    {
        SnapshotId(raw)
    }

    pub fn raw(self) -> (r: u64)
        ensures
            r == self.0,
    {
        self.0
    }
}

impl BoundaryId {
    pub fn from_raw(raw: u64) -> (r: Self)
        ensures
            r.0 == raw,
    {
        BoundaryId(raw)
    }

    pub fn raw(self) -> (r: u64)
        ensures
            r == self.0,
    {
        self.0
    }
}

impl TriggerId {
    pub fn from_raw(raw: u64) -> (r: Self)
        ensures
            r.0 == raw,
    {
        TriggerId(raw)
    }

    pub fn raw(self) -> (r: u64)
        ensures
            r == self.0,
    {
        self.0
    }
}

/// Milliseconds since the Unix epoch.
#[derive(Clone, Copy, Debug, PartialEq, Eq, PartialOrd, Ord, Hash, Structural)]
pub struct Timestamp(pub u64);

/// Milliseconds since the Unix epoch on this machine's clock
/// (`SystemTime::now`), 0 where the clock reads before the epoch.
/// Nothing is claimed of the value: it is the current time.
#[verifier::external_body]
fn system_time_millis() -> u64 {
    std::time::SystemTime::now().duration_since(std::time::UNIX_EPOCH).unwrap_or_default().as_millis() as u64
}

impl Timestamp {
    /// The current time.
    pub fn now() -> Timestamp {
        Timestamp(system_time_millis())
    }

    pub fn from_millis(millis: u64) -> (r: Self)
        ensures
            r.0 == millis,
    {
        Timestamp(millis)
    }

    pub fn as_millis(self) -> (r: u64)
        ensures
            r == self.0,
    {
        self.0
    }
}

impl Default for Timestamp {
    /// The current time, as `now` reads it.
    fn default() -> (r: Self) {
        Timestamp::now()
    }
}

/// An error with a human-readable message.
#[derive(Clone, Debug, PartialEq, Eq)]
pub struct SwatError {
    message: String,
}

impl View for SwatError {
    type V = Seq<char>;

    closed spec fn view(&self) -> Seq<char> {
        self.message@
    }
}

impl SwatError {
    pub fn new(message: String) -> (e: Self)
        ensures
            e@ == message@,
    {
        SwatError { message }
    }

    /// The message, as `Display` renders the error.
    pub fn to_string(&self) -> (r: String)
        ensures
            r@ == self@,
    {
        self.message.clone()
    }

    /// The message as a string slice.
    pub fn message(&self) -> (r: &str)
        ensures
            r@ == self@,
    {
        self.message.as_str()
    }
}

/// Result type of the library's fallible operations.
pub type SwatResult<T> = Result<T, SwatError>;

/// An error made from a string literal or slice.
pub fn err_msg(message: &str) -> (e: SwatError)
    ensures
        e@ == message@,
{
    SwatError::new(message.to_owned())
}

#[derive(Clone, Copy, Debug, PartialEq, Eq, Structural)]
pub enum ArtifactEncoding {
    Utf8,
    Json,
    Binary,
}

#[derive(Clone, Copy, Debug, PartialEq, Eq, Structural)]
pub enum ArtifactAccess {
    Inline,
    Lazy,
}

/// A stored artifact, by id.
#[derive(Clone, Debug, PartialEq, Eq)]
pub struct ArtifactRef {
    pub artifact_id: ArtifactId,
    pub media_type: String,
    pub encoding: ArtifactEncoding,
    pub size_hint: Option<u64>,
    pub access: ArtifactAccess,
}

impl ArtifactRef {
    /// A copy equal to `self`.
    pub fn duplicate(&self) -> (r: Self)
        ensures
            r == *self,
    {
        ArtifactRef {
            artifact_id: self.artifact_id,
            media_type: self.media_type.clone(),
            encoding: self.encoding,
            size_hint: self.size_hint,
            access: self.access,
        }
    }
}

/// How an event refers to an artifact: by an alias emitted in the same
/// emission, or by the id of an artifact already stored.
#[derive(Clone, Debug, PartialEq, Eq)]
pub enum ArtifactBinding {
    Pending(ArtifactAlias),
    Existing(ArtifactRef),
}

#[derive(Clone, Debug, PartialEq, Eq)]
pub struct PendingArtifact {
    pub alias: ArtifactAlias,
    pub media_type: String,
    pub encoding: ArtifactEncoding,
    pub access: ArtifactAccess,
    pub bytes: Vec<u8>,
}

#[derive(Clone, Copy, Debug, PartialEq, Eq, Structural)]
pub enum ReplayMode {
    Live,
    Recorded,
    MixedBounded,
}

#[derive(Clone, Copy, Debug, PartialEq, Eq, Structural)]
pub enum DeterminismClass {
    Deterministic,
    ReplayOnly,
    ExternalBoundary,
}

#[derive(Clone, Copy, Debug, PartialEq, Eq, Structural)]
pub enum PolicyVerdict {
    Allow,
    Deny,
    Redact,
}

#[derive(Clone, Copy, Debug, PartialEq, Eq, Structural)]
pub enum EventKind {
    Lifecycle,
    Control,
    Execution,
    StateMutation,
    ValueObserved,
    TriggerHit,
    Snapshot,
    Replay,
    ModelBoundary,
    ToolBoundary,
    SourceResolution,
    SchemaResolution,
    PolicyDecision,
}

#[derive(Clone, Debug, PartialEq, Eq)]
pub struct CausalityLink {
    pub parent_event_id: Option<EventId>,
    pub correlation_id: Option<String>,
}

impl CausalityLink {
    /// No parent and no correlation (`Default`).
    pub fn empty() -> (r: Self)
        ensures
            r.parent_event_id is None,
            r.correlation_id is None,
    {
        CausalityLink { parent_event_id: None, correlation_id: None }
    }
}

impl Default for CausalityLink {
    fn default() -> (r: Self)
        ensures
            r.parent_event_id is None,
            r.correlation_id is None,
    {
        CausalityLink::empty()
    }
}

#[derive(Clone, Debug, PartialEq, Eq)]
pub enum ControlAction {
    Pause,
    Resume,
    Step,
    CreateSnapshot { reason: String },
}

#[derive(Clone, Debug, PartialEq, Eq)]
pub enum EventPayload {
    Empty,
    Text { summary: String },
    Control { action: ControlAction, summary: String },
    Boundary { boundary_id: BoundaryId, determinism: DeterminismClass, summary: String },
    Snapshot { snapshot_id: SnapshotId, summary: String },
    Trigger { trigger_id: TriggerId, summary: String },
    Value { value_key: String, summary: String },
    Policy { verdict: PolicyVerdict, summary: String },
}

/// The summary text of a payload; `Empty` has none.
pub open spec fn payload_summary_spec(p: EventPayload) -> Option<Seq<char>> {
    match p {
        EventPayload::Empty => None,
        EventPayload::Text { summary } => Some(summary@),
        EventPayload::Control { summary, .. } => Some(summary@),
        EventPayload::Boundary { summary, .. } => Some(summary@),
        EventPayload::Snapshot { summary, .. } => Some(summary@),
        EventPayload::Trigger { summary, .. } => Some(summary@),
        EventPayload::Value { summary, .. } => Some(summary@),
        EventPayload::Policy { summary, .. } => Some(summary@),
    }
}

impl EventPayload {
    /// The summary text of the payload, if it has one.
    pub fn summary(&self) -> (r: Option<&str>)
        ensures
            match r {
                Some(s) => payload_summary_spec(*self) == Some(s@),
                None => payload_summary_spec(*self) is None,
            },
    {
        match self {
            EventPayload::Empty => None,
            EventPayload::Text { summary } => Some(summary.as_str()),
            EventPayload::Control { summary, .. } => Some(summary.as_str()),
            EventPayload::Boundary { summary, .. } => Some(summary.as_str()),
            EventPayload::Snapshot { summary, .. } => Some(summary.as_str()),
            EventPayload::Trigger { summary, .. } => Some(summary.as_str()),
            EventPayload::Value { summary, .. } => Some(summary.as_str()),
            EventPayload::Policy { summary, .. } => Some(summary.as_str()),
        }
    }
}

#[derive(Clone, Debug, PartialEq, Eq)]
pub struct EventEnvelope {
    pub event_id: EventId,
    pub session_id: SessionId,
    pub target_id: TargetId,
    pub sequence_no: u64,
    pub observed_at: Timestamp,
    pub kind: EventKind,
    pub causality: CausalityLink,
    pub payload: EventPayload,
    pub artifact_refs: Vec<ArtifactRef>,
}

#[derive(Clone, Debug, PartialEq, Eq)]
pub struct PendingEvent {
    pub observed_at: Timestamp,
    pub kind: EventKind,
    pub causality: CausalityLink,
    pub payload: EventPayload,
    pub artifacts: Vec<ArtifactBinding>,
}

impl PendingEvent {
    /// An event of `kind` with `payload`, observed now, with no causality
    /// and no artifacts.
    pub fn new(kind: EventKind, payload: EventPayload) -> (r: Self)
        ensures
            r.kind == kind,
            r.payload == payload,
            r.causality.parent_event_id is None,
            r.causality.correlation_id is None,
            r.artifacts@ == Seq::<ArtifactBinding>::empty(),
    {
        PendingEvent {
            observed_at: Timestamp::now(),
            kind,
            causality: CausalityLink::empty(),
            payload,
            artifacts: Vec::new(),
        }
    }

    /// `self` with `binding` appended to its artifacts.
    pub fn with_artifact(self, binding: ArtifactBinding) -> (r: Self)
        ensures
            r.artifacts@ == self.artifacts@.push(binding),
            r.observed_at == self.observed_at,
            r.kind == self.kind,
            r.causality == self.causality,
            r.payload == self.payload,
    {
        let mut this = self;
        this.artifacts.push(binding);
        this
    }
}

/// A payload as a mathematical value.
pub enum PayloadView {
    Empty,
    Text(Seq<char>),
    Control(ControlAction, Seq<char>),
    Boundary(BoundaryId, DeterminismClass, Seq<char>),
    Snapshot(SnapshotId, Seq<char>),
    Trigger(TriggerId, Seq<char>),
    Value(Seq<char>, Seq<char>),
    Policy(PolicyVerdict, Seq<char>),
}

pub open spec fn payload_view(p: EventPayload) -> PayloadView {
    match p {
        EventPayload::Empty => PayloadView::Empty,
        EventPayload::Text { summary } => PayloadView::Text(summary@),
        EventPayload::Control { action, summary } => PayloadView::Control(action, summary@),
        EventPayload::Boundary { boundary_id, determinism, summary } => PayloadView::Boundary(
            boundary_id,
            determinism,
            summary@,
        ),
        EventPayload::Snapshot { snapshot_id, summary } => PayloadView::Snapshot(snapshot_id, summary@),
        EventPayload::Trigger { trigger_id, summary } => PayloadView::Trigger(trigger_id, summary@),
        EventPayload::Value { value_key, summary } => PayloadView::Value(value_key@, summary@),
        EventPayload::Policy { verdict, summary } => PayloadView::Policy(verdict, summary@),
    }
}

/// An event as a mathematical value: its kind, payload and artifacts (the
/// time it was observed aside); it carries no causality.
pub struct EventView {
    pub kind: EventKind,
    pub payload: PayloadView,
    pub artifacts: Seq<ArtifactBinding>,
}

pub open spec fn event_view(e: PendingEvent) -> EventView {
    EventView { kind: e.kind, payload: payload_view(e.payload), artifacts: e.artifacts@ }
}

/// `e` is the event that `v` describes, with no causality link.
pub open spec fn event_is(e: PendingEvent, v: EventView) -> bool {
    &&& event_view(e) == v
    &&& e.causality.parent_event_id is None
    &&& e.causality.correlation_id is None
}

/// An artifact as a mathematical value.
pub struct ArtifactView {
    pub alias: ArtifactAlias,
    pub media_type: Seq<char>,
    pub encoding: ArtifactEncoding,
    pub access: ArtifactAccess,
    pub bytes: Seq<u8>,
}

pub open spec fn artifact_view(a: PendingArtifact) -> ArtifactView {
    ArtifactView {
        alias: a.alias,
        media_type: a.media_type@,
        encoding: a.encoding,
        access: a.access,
        bytes: a.bytes@,
    }
}

/// The events of `e` are those that `events` describe, in order, none with
/// a causality link, and its artifacts are those `artifacts` describe.
pub open spec fn emission_is(e: AdapterEmission, events: Seq<EventView>, artifacts: Seq<ArtifactView>) -> bool {
    &&& e.pending_events@.len() == events.len()
    &&& forall|i: int| 0 <= i < events.len() ==> #[trigger] event_is(e.pending_events@[i], events[i])
    &&& e.pending_artifacts@.map_values(|a: PendingArtifact| artifact_view(a)) == artifacts
}

/// What an adapter hands over in one step: events and the artifacts they
/// refer to by alias.
#[derive(Clone, Debug, PartialEq, Eq)]
pub struct AdapterEmission {
    pub pending_events: Vec<PendingEvent>,
    pub pending_artifacts: Vec<PendingArtifact>,
}

impl AdapterEmission {
    /// An emission with no events and no artifacts (`Default`).
    pub fn empty() -> (r: Self)
        ensures
            r.pending_events@.len() == 0,
            r.pending_artifacts@.len() == 0,
    {
        AdapterEmission { pending_events: Vec::new(), pending_artifacts: Vec::new() }
    }

    pub fn is_empty(&self) -> (r: bool)
        ensures
            r == (self.pending_events@.len() == 0 && self.pending_artifacts@.len() == 0),
    {
        self.pending_events.len() == 0 && self.pending_artifacts.len() == 0
    }

    /// Appends the events and artifacts of `other`, in order.
    pub fn extend(&mut self, other: Self)
        ensures
            final(self).pending_events@ == old(self).pending_events@ + other.pending_events@,
            final(self).pending_artifacts@ == old(self).pending_artifacts@
                + other.pending_artifacts@,
    {
        let mut other = other;
        self.pending_events.append(&mut other.pending_events);
        self.pending_artifacts.append(&mut other.pending_artifacts);
    }
}

impl Default for AdapterEmission {
    fn default() -> (r: Self)
        ensures
            r.pending_events@.len() == 0,
            r.pending_artifacts@.len() == 0,
    {
        AdapterEmission::empty()
    }
}

/// The events of `es`, one emission after the other.
pub open spec fn concat_events(es: Seq<AdapterEmission>) -> Seq<PendingEvent>
    decreases es.len(),
{
    if es.len() == 0 {
        Seq::empty()
    } else {
        concat_events(es.drop_last()) + es.last().pending_events@
    }
}

/// The artifacts of `es`, one emission after the other.
pub open spec fn concat_artifacts(es: Seq<AdapterEmission>) -> Seq<PendingArtifact>
    decreases es.len(),
{
    if es.len() == 0 {
        Seq::empty()
    } else {
        concat_artifacts(es.drop_last()) + es.last().pending_artifacts@
    }
}

/// One emission holding the events and the artifacts of `es`, in order.
pub fn merge_emissions(es: Vec<AdapterEmission>) -> (r: AdapterEmission)
    ensures
        r.pending_events@ == concat_events(es@),
        r.pending_artifacts@ == concat_artifacts(es@),
{
    let ghost all = es@;
    let mut rest = es;
    let mut merged = AdapterEmission::empty();
    let ghost mut k: int = 0;
    assert(concat_events(all.take(0)) =~= Seq::<PendingEvent>::empty());
    assert(concat_artifacts(all.take(0)) =~= Seq::<PendingArtifact>::empty());
    while rest.len() > 0
        invariant
            0 <= k <= all.len(),
            rest@ == all.skip(k),
            merged.pending_events@ == concat_events(all.take(k)),
            merged.pending_artifacts@ == concat_artifacts(all.take(k)),
        decreases rest@.len(),
    {
        let e = rest.remove(0);
        proof {
            assert(all.take(k + 1).drop_last() =~= all.take(k));
            assert(all.take(k + 1).last() == all[k]);
            assert(rest@ =~= all.skip(k + 1));
        }
        merged.extend(e);
        proof {
            k = k + 1;
        }
    }
    assert(all.take(k) =~= all);
    merged
}

/// Merging emissions keeps everything: the merged emission is empty exactly
/// when both parts are, and extending by an empty emission changes nothing.
pub proof fn law_extend_emptiness(a: Seq<PendingEvent>, b: Seq<PendingEvent>, x: Seq<PendingArtifact>, y: Seq<PendingArtifact>)
    ensures
        ((a + b).len() == 0 && (x + y).len() == 0) <==> (a.len() == 0 && x.len() == 0 && b.len() == 0 && y.len() == 0),
        b.len() == 0 ==> a + b == a,
        y.len() == 0 ==> x + y == x,
{
    if b.len() == 0 {
        assert(a + b =~= a);
    }
    if y.len() == 0 {
        assert(x + y =~= x);
    }
}

/// An empty emission is described by no events and no artifacts.
pub proof fn lemma_emission_empty(e: AdapterEmission)
    requires
        e.pending_events@.len() == 0,
        e.pending_artifacts@.len() == 0,
    ensures
        emission_is(e, Seq::empty(), Seq::empty()),
{
    assert(e.pending_artifacts@.map_values(|a: PendingArtifact| artifact_view(a)) =~= Seq::<ArtifactView>::empty());
}

/// Appending an event without causality to an emission appends its view.
pub proof fn lemma_emission_push_event(
    old_e: AdapterEmission,
    new_e: AdapterEmission,
    ev: PendingEvent,
    events: Seq<EventView>,
    artifacts: Seq<ArtifactView>,
)
    requires
        emission_is(old_e, events, artifacts),
        new_e.pending_events@ == old_e.pending_events@.push(ev),
        new_e.pending_artifacts@ == old_e.pending_artifacts@,
        ev.causality.parent_event_id is None,
        ev.causality.correlation_id is None,
    ensures
        emission_is(new_e, events.push(event_view(ev)), artifacts),
{
    assert forall|i: int| 0 <= i < events.len() + 1 implies #[trigger] event_is(
        new_e.pending_events@[i],
        events.push(event_view(ev))[i],
    ) by {
        if i < events.len() {
            assert(event_is(old_e.pending_events@[i], events[i]));
        }
    }
}

/// Appending an artifact to an emission appends its view.
pub proof fn lemma_emission_push_artifact(
    old_e: AdapterEmission,
    new_e: AdapterEmission,
    a: PendingArtifact,
    events: Seq<EventView>,
    artifacts: Seq<ArtifactView>,
)
    requires
        emission_is(old_e, events, artifacts),
        new_e.pending_events@ == old_e.pending_events@,
        new_e.pending_artifacts@ == old_e.pending_artifacts@.push(a),
    ensures
        emission_is(new_e, events, artifacts.push(artifact_view(a))),
{
    assert(new_e.pending_artifacts@.map_values(|x: PendingArtifact| artifact_view(x)) =~= artifacts.push(artifact_view(a)));
}

/// Extending an emission by another concatenates their views.
pub proof fn lemma_emission_extend(
    a: AdapterEmission,
    b: AdapterEmission,
    c: AdapterEmission,
    ea: Seq<EventView>,
    aa: Seq<ArtifactView>,
    eb: Seq<EventView>,
    ab: Seq<ArtifactView>,
)
    requires
        emission_is(a, ea, aa),
        emission_is(b, eb, ab),
        c.pending_events@ == a.pending_events@ + b.pending_events@,
        c.pending_artifacts@ == a.pending_artifacts@ + b.pending_artifacts@,
    ensures
        emission_is(c, ea + eb, aa + ab),
{
    assert forall|i: int| 0 <= i < ea.len() + eb.len() implies #[trigger] event_is(
        c.pending_events@[i],
        (ea + eb)[i],
    ) by {
        if i < ea.len() {
            assert(event_is(a.pending_events@[i], ea[i]));
        } else {
            assert(event_is(b.pending_events@[i - ea.len()], eb[i - ea.len()]));
        }
    }
    assert(c.pending_artifacts@.map_values(|x: PendingArtifact| artifact_view(x)) =~= aa + ab);
}

#[derive(Clone, Debug, PartialEq, Eq)]
pub struct ControlResponse {
    pub accepted: bool,
    pub summary: String,
}

#[derive(Clone, Debug, PartialEq, Eq)]
pub struct BoundaryReplayDirective {
    pub boundary_id: BoundaryId,
    pub artifact_ref: ArtifactRef,
}

/// What a target adapter can do.
#[derive(Clone, Copy, Debug, PartialEq, Eq, Structural)]
pub struct CapabilitySet {
    pub can_attach: bool,
    pub can_stream_events: bool,
    pub can_stop: bool,
    pub can_resume: bool,
    pub can_step: bool,
    pub can_read_values: bool,
    pub can_write_values: bool,
    pub can_snapshot: bool,
    pub can_inject_replay: bool,
    pub can_resolve_source: bool,
    pub can_resolve_schema: bool,
}

impl CapabilitySet {
    /// No capability at all (also the `Default`).
    pub fn none() -> (r: Self)
        ensures
            !r.can_attach && !r.can_stream_events && !r.can_stop && !r.can_resume && !r.can_step
                && !r.can_read_values && !r.can_write_values && !r.can_snapshot
                && !r.can_inject_replay && !r.can_resolve_source && !r.can_resolve_schema,
    {
        CapabilitySet {
            can_attach: false,
            can_stream_events: false,
            can_stop: false,
            can_resume: false,
            can_step: false,
            can_read_values: false,
            can_write_values: false,
            can_snapshot: false,
            can_inject_replay: false,
            can_resolve_source: false,
            can_resolve_schema: false,
        }
    }

    /// An observer that can attach, stream, stop, resume, step, read values
    /// and snapshot, and nothing more.
    pub fn basic_observer() -> (r: Self)
        ensures
            r.can_attach && r.can_stream_events && r.can_stop && r.can_resume && r.can_step
                && r.can_read_values && !r.can_write_values && r.can_snapshot
                && !r.can_inject_replay && !r.can_resolve_source && !r.can_resolve_schema,
    {
        CapabilitySet {
            can_attach: true,
            can_stream_events: true,
            can_stop: true,
            can_resume: true,
            can_step: true,
            can_read_values: true,
            can_write_values: false,
            can_snapshot: true,
            can_inject_replay: false,
            can_resolve_source: false,
            can_resolve_schema: false,
        }
    }
}

impl Default for CapabilitySet {
    /// No capability at all, as `none` gives.
    fn default() -> (r: Self)
        ensures
            !r.can_attach && !r.can_stream_events && !r.can_stop && !r.can_resume && !r.can_step
                && !r.can_read_values && !r.can_write_values && !r.can_snapshot
                && !r.can_inject_replay && !r.can_resolve_source && !r.can_resolve_schema,
    {
        CapabilitySet::none()
    }
}

#[derive(Clone, Debug, PartialEq, Eq)]
pub struct TargetDescriptor {
    pub target_id: TargetId,
    pub adapter_name: String,
    pub target_name: String,
    pub runtime: String,
    pub replay_mode: ReplayMode,
}

/// `a` and `b` describe the same target with the same words.
pub open spec fn same_descriptor(a: TargetDescriptor, b: TargetDescriptor) -> bool {
    &&& a.target_id == b.target_id
    &&& a.adapter_name@ == b.adapter_name@
    &&& a.target_name@ == b.target_name@
    &&& a.runtime@ == b.runtime@
    &&& a.replay_mode == b.replay_mode
}

impl TargetDescriptor {
    /// A copy of this descriptor.
    pub fn duplicate(&self) -> (r: Self)
        ensures
            same_descriptor(r, *self),
    {
        TargetDescriptor {
            target_id: self.target_id,
            adapter_name: self.adapter_name.clone(),
            target_name: self.target_name.clone(),
            runtime: self.runtime.clone(),
            replay_mode: self.replay_mode,
        }
    }
}

#[derive(Clone, Debug, PartialEq, Eq)]
pub struct AdapterAttachment {
    pub descriptor: TargetDescriptor,
    pub capabilities: CapabilitySet,
    pub initial_emission: AdapterEmission,
}

#[derive(Clone, Debug, PartialEq, Eq)]
pub struct AdapterControlResult {
    pub response: ControlResponse,
    pub emission: AdapterEmission,
}

/// One boundary replay handed to an adapter, and what the adapter answered.
pub type ReplayEntry = (BoundaryReplayDirective, SwatResult<AdapterEmission>);

/// A debuggable target, as the session layer drives it.
pub trait TargetAdapter {
    /// Whether this adapter keeps its `replay_log`; one that does not
    /// promises nothing of it.
    open spec fn logs_replays(&self) -> bool {
        false
    }

    /// Every boundary replay handed to this adapter so far, oldest first,
    /// each with its answer.
    open spec fn replay_log(&self) -> Seq<ReplayEntry> {
        Seq::empty()
    }

    fn adapter_name(&self) -> &'static str;

    fn attach(&mut self) -> SwatResult<AdapterAttachment>;

    fn capabilities(&self) -> CapabilitySet;

    fn poll(&mut self) -> SwatResult<AdapterEmission>;

    fn control(&mut self, action: ControlAction) -> SwatResult<AdapterControlResult>;

    fn inject_boundary_replay(&mut self, directive: BoundaryReplayDirective) -> (r: SwatResult<
        AdapterEmission,
    >)
        ensures
            final(self).logs_replays() == old(self).logs_replays(),
            old(self).logs_replays() ==> final(self).replay_log() == old(self).replay_log().push(
                (directive, r),
            ),
    ;
}

} // verus!
