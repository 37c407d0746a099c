//! A PC/GEOS target replayed from a recorded fixture: it attaches with the
//! repository inventory, stops at each recorded stop in turn, and reuses a
//! replay artifact where one was injected for a frame's boundary. The JSON
//! renderings of the inventory and of the frames are made by the caller and
//! handed over as bytes.
use std::collections::BTreeMap;
use vstd::prelude::*;
use crate::model::{
    AdapterAttachment, AdapterControlResult, AdapterEmission, ArtifactAccess, ArtifactAlias,
    ArtifactBinding, ArtifactEncoding, ArtifactRef, ArtifactView, BoundaryId,
    BoundaryReplayDirective, CapabilitySet, ControlAction, ControlResponse, DeterminismClass,
    EventKind, EventPayload, EventView, PayloadView, PendingArtifact, PendingEvent, ReplayEntry, ReplayMode,
    SwatError, SwatResult, TargetAdapter, TargetDescriptor, TargetId, artifact_view,
    emission_is, event_view, lemma_emission_empty, lemma_emission_extend,
    lemma_emission_push_artifact, lemma_emission_push_event, same_descriptor,
};
use crate::text::{decimal, owned, push_decimal, push_str};

verus! {

broadcast use vstd::std_specs::btree::group_btree_axioms, vstd::laws_cmp::group_laws_cmp;

/// One frame of a recorded stop: its boundary, its summary and the JSON
/// rendering of its artifact.
#[derive(Clone, Debug, PartialEq, Eq)]
pub struct RecordedFrame {
    pub boundary_id: BoundaryId,
    pub summary: String,
    pub artifact: Vec<u8>,
}

/// A recorded stop: its summary and its frames, innermost last.
#[derive(Clone, Debug, PartialEq, Eq)]
pub struct RecordedStop {
    pub summary: String,
    pub frames: Vec<RecordedFrame>,
}

/// A source file of the inventory and the JSON rendering of its artifact.
#[derive(Clone, Debug, PartialEq, Eq)]
pub struct SourceArtifact {
    pub file: String,
    pub artifact: Vec<u8>,
}

/// A frame as a mathematical value.
pub struct FrameView {
    pub boundary_id: BoundaryId,
    pub summary: Seq<char>,
    pub artifact: Seq<u8>,
}

pub open spec fn frame_view(f: RecordedFrame) -> FrameView {
    FrameView { boundary_id: f.boundary_id, summary: f.summary@, artifact: f.artifact@ }
}

pub open spec fn frames_view(s: Seq<RecordedFrame>) -> Seq<FrameView> {
    s.map_values(|f: RecordedFrame| frame_view(f))
}

/// The stops, each as the views of its frames.
pub open spec fn stops_view(s: Seq<RecordedStop>) -> Seq<Seq<FrameView>> {
    s.map_values(|st: RecordedStop| frames_view(st.frames@))
}

/// A boundary event of a recorded frame.
pub open spec fn frame_boundary(id: BoundaryId, summary: Seq<char>, artifacts: Seq<ArtifactBinding>) -> EventView {
    EventView {
        kind: EventKind::Execution,
        payload: PayloadView::Boundary(id, DeterminismClass::ReplayOnly, summary),
        artifacts,
    }
}

/// What one frame adds, given the injected replays and the next alias: the
/// events, the artifacts and the next alias after it. A frame with a replay
/// is announced and refers to the replayed artifact; any other frame
/// brings its own artifact under the next alias.
pub open spec fn frame_emitted(f: FrameView, replayed: Map<u64, ArtifactRef>, alias: u64) -> (Seq<EventView>, Seq<ArtifactView>, u64) {
    if replayed.contains_key(f.boundary_id.0) {
        (
            seq![
                EventView {
                    kind: EventKind::Replay,
                    payload: PayloadView::Text(
                        "reused replay artifact for PC/GEOS boundary "@ + decimal(f.boundary_id.0 as nat),
                    ),
                    artifacts: Seq::empty(),
                },
                frame_boundary(f.boundary_id, f.summary, seq![ArtifactBinding::Existing(replayed[f.boundary_id.0])]),
            ],
            Seq::empty(),
            alias,
        )
    } else {
        (
            seq![frame_boundary(f.boundary_id, f.summary, seq![ArtifactBinding::Pending(ArtifactAlias(alias))])],
            seq![
                ArtifactView {
                    alias: ArtifactAlias(alias),
                    media_type: "application/json"@,
                    encoding: ArtifactEncoding::Json,
                    access: ArtifactAccess::Lazy,
                    bytes: f.artifact,
                },
            ],
            (alias + 1) as u64,
        )
    }
}

/// What the frames add, in order.
pub open spec fn frames_emitted(fs: Seq<FrameView>, replayed: Map<u64, ArtifactRef>, alias: u64) -> (Seq<EventView>, Seq<ArtifactView>, u64)
    decreases fs.len(),
{
    if fs.len() == 0 {
        (Seq::empty(), Seq::empty(), alias)
    } else {
        let (e0, a0, n0) = frames_emitted(fs.drop_last(), replayed, alias);
        let (e1, a1, n1) = frame_emitted(fs.last(), replayed, n0);
        (e0 + e1, a0 + a1, n1)
    }
}

/// The completion events of a stop: every frame but the innermost, from
/// the inside out, completes.
pub open spec fn completions(fs: Seq<FrameView>) -> Seq<EventView> {
    let n = fs.len() as int;
    Seq::new(
        if n > 0 { (n - 1) as nat } else { 0 },
        |j: int| frame_boundary(fs[n - 2 - j].boundary_id, fs[n - 2 - j].summary + " complete"@, Seq::empty()),
    )
}

/// The emission of a stop: the frames, then their completions.
pub open spec fn stop_emitted(fs: Seq<FrameView>, replayed: Map<u64, ArtifactRef>, alias: u64) -> (Seq<EventView>, Seq<ArtifactView>, u64) {
    let (e, a, n) = frames_emitted(fs, replayed, alias);
    (e + completions(fs), a, n)
}

/// The frames never use more aliases than they number.
pub proof fn lemma_frames_alias_bound(fs: Seq<FrameView>, replayed: Map<u64, ArtifactRef>, alias: u64)
    requires
        alias + fs.len() < u64::MAX,
    ensures
        alias <= frames_emitted(fs, replayed, alias).2 <= alias + fs.len(),
    decreases fs.len(),
{
    if fs.len() > 0 {
        lemma_frames_alias_bound(fs.drop_last(), replayed, alias);
    }
}

/// The summary of a replay announcement.
fn replay_reuse_summary(id: u64) -> (r: String)
    ensures
        r@ == "reused replay artifact for PC/GEOS boundary "@ + decimal(id as nat),
{
    let mut s = owned("reused replay artifact for PC/GEOS boundary ");
    push_decimal(&mut s, id);
    s
}

/// The emission of recorded stop `frames`, given the injected replays and
/// the first free alias; also gives the next free alias.
pub fn stop_emission(frames: &Vec<RecordedFrame>, replayed: &BTreeMap<u64, ArtifactRef>, alias: u64) -> (r: (AdapterEmission, u64))
    requires
        alias + frames@.len() < u64::MAX,
    ensures
        ({
            let (ev, ar, n) = stop_emitted(frames_view(frames@), replayed@, alias);
            emission_is(r.0, ev, ar) && r.1 == n
        }),
{
    let ghost fs = frames_view(frames@);
    let mut emission = AdapterEmission::empty();
    let mut next = alias;
    proof {
        lemma_emission_empty(emission);
        assert(frames_view(frames@.take(0)) =~= Seq::<FrameView>::empty());
    }
    let n = frames.len();
    let mut i: usize = 0;
    while i < n
        invariant
            n == frames@.len(),
            i <= n,
            fs == frames_view(frames@),
            alias + n < u64::MAX,
            ({
                let (ev, ar, nx) = frames_emitted(fs.take(i as int), replayed@, alias);
                emission_is(emission, ev, ar) && next == nx
            }),
        decreases n - i,
    {
        let ghost before = emission;
        let ghost pre = frames_emitted(fs.take(i as int), replayed@, alias);
        proof {
            assert(fs.take(i as int + 1).drop_last() =~= fs.take(i as int));
            assert(fs.take(i as int + 1).last() == frame_view(frames@[i as int]));
            lemma_frames_alias_bound(fs.take(i as int), replayed@, alias);
        }
        let frame = &frames[i];
        let id = frame.boundary_id;
        let event = PendingEvent::new(
            EventKind::Execution,
            EventPayload::Boundary {
                boundary_id: id,
                determinism: DeterminismClass::ReplayOnly,
                summary: frame.summary.clone(),
            },
        );
        match replayed.get(&id.0) {
            Some(artifact_ref) => {
                let announce = PendingEvent::new(
                    EventKind::Replay,
                    EventPayload::Text { summary: replay_reuse_summary(id.0) },
                );
                let ghost mid0 = emission;
                emission.pending_events.push(announce);
                proof {
                    lemma_emission_push_event(mid0, emission, announce, pre.0, pre.1);
                }
                let bound = event.with_artifact(ArtifactBinding::Existing(artifact_ref.duplicate()));
                let ghost mid1 = emission;
                emission.pending_events.push(bound);
                proof {
                    lemma_emission_push_event(mid1, emission, bound, pre.0.push(event_view(announce)), pre.1);
                    let step = frame_emitted(fs[i as int], replayed@, next);
                    assert(pre.0.push(event_view(announce)).push(event_view(bound)) =~= pre.0 + step.0);
                    assert(pre.1 =~= pre.1 + step.1);
                }
            },
            None => {
                let a = ArtifactAlias(next);
                let artifact = PendingArtifact {
                    alias: a,
                    media_type: owned("application/json"),
                    encoding: ArtifactEncoding::Json,
                    access: ArtifactAccess::Lazy,
                    bytes: frame.artifact.clone(),
                };
                let ghost mid0 = emission;
                emission.pending_artifacts.push(artifact);
                proof {
                    lemma_emission_push_artifact(mid0, emission, artifact, pre.0, pre.1);
                }
                let bound = event.with_artifact(ArtifactBinding::Pending(a));
                let ghost mid1 = emission;
                emission.pending_events.push(bound);
                proof {
                    lemma_emission_push_event(mid1, emission, bound, pre.0, pre.1.push(artifact_view(artifact)));
                    let step = frame_emitted(fs[i as int], replayed@, next);
                    assert(pre.0.push(event_view(bound)) =~= pre.0 + step.0);
                    assert(pre.1.push(artifact_view(artifact)) =~= pre.1 + step.1);
                }
                next = next + 1;
            },
        }
        i = i + 1;
    }
    proof {
        assert(fs.take(n as int) =~= fs);
        lemma_frames_alias_bound(fs, replayed@, alias);
    }
    let ghost done = frames_emitted(fs, replayed@, alias);
    let mut j: usize = n;
    while j > 1
        invariant
            n == frames@.len(),
            1 <= j <= n || (n == 0 && j == 0),
            fs == frames_view(frames@),
            emission_is(emission, done.0 + completions(fs).take((n - j) as int), done.1),
        decreases j,
    {
        let frame = &frames[j - 2];
        let mut summary = frame.summary.clone();
        push_str(&mut summary, " complete");
        let event = PendingEvent::new(
            EventKind::Execution,
            EventPayload::Boundary {
                boundary_id: frame.boundary_id,
                determinism: DeterminismClass::ReplayOnly,
                summary,
            },
        );
        let ghost before = emission;
        emission.pending_events.push(event);
        proof {
            lemma_emission_push_event(before, emission, event, done.0 + completions(fs).take((n - j) as int), done.1);
            assert(completions(fs).take((n - j) as int).push(event_view(event)) =~= completions(fs).take((n - j + 1) as int));
            assert((done.0 + completions(fs).take((n - j) as int)).push(event_view(event)) =~= done.0 + completions(fs).take((n - j + 1) as int));
        }
        j = j - 1;
    }
    proof {
        assert(completions(fs).take((n - j) as int) =~= completions(fs));
    }
    (emission, next)
}

/// The state of a replayed PC/GEOS target as a mathematical value.
pub struct PcGeosModel {
    pub attached: bool,
    pub paused: bool,
    pub exhausted: bool,
    pub next_alias: u64,
    pub next_stop: nat,
    pub replayed: Map<u64, ArtifactRef>,
}

/// The frames of the stops from `i` on.
pub open spec fn remaining_frames(stops: Seq<Seq<FrameView>>, i: int) -> nat
    decreases stops.len() - i,
{
    if i < 0 || i >= stops.len() {
        0
    } else {
        stops[i].len() + remaining_frames(stops, i + 1)
    }
}

/// The aliases that one attach can use at most.
pub open spec fn alias_budget(stops: Seq<Seq<FrameView>>, sources: nat) -> nat {
    2 + sources + remaining_frames(stops, 0)
}

/// A replayed PC/GEOS target.
pub struct PcGeosSession {
    descriptor: TargetDescriptor,
    inventory_artifact: Vec<u8>,
    sources: Vec<SourceArtifact>,
    stops: Vec<RecordedStop>,
    attached: bool,
    paused: bool,
    exhausted: bool,
    next_alias_raw: u64,
    next_stop_index: usize,
    replayed: BTreeMap<u64, ArtifactRef>,
    replay_log: Ghost<Seq<ReplayEntry>>,
}

impl View for PcGeosSession {
    type V = PcGeosModel;

    closed spec fn view(&self) -> PcGeosModel {
        PcGeosModel {
            attached: self.attached,
            paused: self.paused,
            exhausted: self.exhausted,
            next_alias: self.next_alias_raw,
            next_stop: self.next_stop_index as nat,
            replayed: self.replayed@,
        }
    }
}

/// The event of a text payload with no artifact.
pub open spec fn text_event(kind: EventKind, summary: Seq<char>) -> EventView {
    EventView { kind, payload: PayloadView::Text(summary), artifacts: Seq::empty() }
}

/// What the next stop gives: the stop's emission, or once the stops are
/// used up the announcement that they are (only the first time), and the
/// state after it. Reaching a stop pauses the target.
pub open spec fn advance(m: PcGeosModel, stops: Seq<Seq<FrameView>>) -> (PcGeosModel, Option<(Seq<EventView>, Seq<ArtifactView>)>) {
    if m.next_stop >= stops.len() {
        if m.exhausted {
            (m, None)
        } else {
            (
                PcGeosModel { exhausted: true, paused: true, ..m },
                Some((seq![text_event(EventKind::Lifecycle, "PC/GEOS fixture exhausted recorded stops"@)], Seq::empty())),
            )
        }
    } else {
        let (e, a, n) = stop_emitted(stops[m.next_stop as int], m.replayed, m.next_alias);
        (PcGeosModel { next_stop: m.next_stop + 1, paused: true, next_alias: n, ..m }, Some((e, a)))
    }
}

/// The events of an optional emission.
pub open spec fn events_of(o: Option<(Seq<EventView>, Seq<ArtifactView>)>) -> Seq<EventView> {
    match o {
        Some(p) => p.0,
        None => Seq::empty(),
    }
}

/// The artifacts of an optional emission.
pub open spec fn artifacts_of(o: Option<(Seq<EventView>, Seq<ArtifactView>)>) -> Seq<ArtifactView> {
    match o {
        Some(p) => p.1,
        None => Seq::empty(),
    }
}

/// The inventory emission: the inventory artifact under alias one, then
/// each source file under the following aliases.
pub open spec fn inventory_emitted(inventory: Seq<u8>, sources: Seq<(Seq<char>, Seq<u8>)>) -> (Seq<EventView>, Seq<ArtifactView>) {
    (
        seq![
            EventView {
                kind: EventKind::ValueObserved,
                payload: PayloadView::Value("pcgeos.inventory"@, "loaded PC/GEOS repository inventory"@),
                artifacts: seq![ArtifactBinding::Pending(ArtifactAlias(1))],
            },
        ] + Seq::new(
            sources.len(),
            |k: int| EventView {
                kind: EventKind::SourceResolution,
                payload: PayloadView::Text("discovered PC/GEOS source "@ + sources[k].0),
                artifacts: seq![ArtifactBinding::Pending(ArtifactAlias((k + 2) as u64))],
            },
        ),
        seq![json_artifact(1, inventory)] + Seq::new(
            sources.len(),
            |k: int| json_artifact((k + 2) as u64, sources[k].1),
        ),
    )
}

/// A lazily read JSON artifact.
pub open spec fn json_artifact(alias: u64, bytes: Seq<u8>) -> ArtifactView {
    ArtifactView {
        alias: ArtifactAlias(alias),
        media_type: "application/json"@,
        encoding: ArtifactEncoding::Json,
        access: ArtifactAccess::Lazy,
        bytes,
    }
}

/// The capabilities of the replayed target: a basic observer that can also
/// take replays and resolve sources.
pub open spec fn pcgeos_capabilities(c: CapabilitySet) -> bool {
    &&& c.can_attach && c.can_stream_events && c.can_stop && c.can_resume && c.can_step
    &&& c.can_read_values && !c.can_write_values && c.can_snapshot && c.can_inject_replay
    &&& c.can_resolve_source && !c.can_resolve_schema
}

impl PcGeosSession {
    #[verifier::type_invariant]
    closed spec fn inv(self) -> bool {
        let st = stops_view(self.stops@);
        &&& self.next_stop_index <= self.stops@.len()
        &&& alias_budget(st, self.sources@.len()) < u64::MAX
        &&& self.next_alias_raw + remaining_frames(st, self.next_stop_index as int)
            <= alias_budget(st, self.sources@.len())
    }

    pub closed spec fn stops(&self) -> Seq<Seq<FrameView>> {
        stops_view(self.stops@)
    }

    pub closed spec fn sources(&self) -> Seq<(Seq<char>, Seq<u8>)> {
        self.sources@.map_values(|s: SourceArtifact| (s.file@, s.artifact@))
    }

    pub closed spec fn inventory(&self) -> Seq<u8> {
        self.inventory_artifact@
    }

    pub closed spec fn descriptor(&self) -> TargetDescriptor {
        self.descriptor
    }
}

/// The frames from a later stop on are no more than those from an earlier.
pub proof fn lemma_remaining_frames_shrink(stops: Seq<Seq<FrameView>>, i: int, j: int)
    requires
        0 <= i <= j,
    ensures
        remaining_frames(stops, j) <= remaining_frames(stops, i),
    decreases j - i,
{
    if i < j {
        lemma_remaining_frames_shrink(stops, i + 1, j);
    }
}

/// The control event that repeats a response summary.
pub open spec fn control_event(action: ControlAction, summary: Seq<char>) -> EventView {
    EventView { kind: EventKind::Control, payload: PayloadView::Control(action, summary), artifacts: Seq::empty() }
}

/// How the replayed target answers `action`: the state after it, whether
/// it was accepted, the summary, and the events and artifacts emitted. A
/// step moves to the next recorded stop while there is one.
pub open spec fn control_outcome(m: PcGeosModel, stops: Seq<Seq<FrameView>>, action: ControlAction) -> (PcGeosModel, bool, Seq<char>, Seq<EventView>, Seq<ArtifactView>) {
    match action {
        ControlAction::Pause => {
            let t = "pc/geos fixture paused"@;
            (PcGeosModel { paused: true, ..m }, true, t, seq![control_event(action, t)], Seq::empty())
        },
        ControlAction::Resume => {
            let t = "pc/geos fixture resumed"@;
            (PcGeosModel { paused: false, ..m }, true, t, seq![control_event(action, t)], Seq::empty())
        },
        ControlAction::Step => if m.next_stop >= stops.len() {
            let t = "pc/geos fixture has no further recorded steps"@;
            (m, false, t, seq![control_event(action, t)], Seq::empty())
        } else {
            let t = "pc/geos fixture step completed"@;
            let (m2, o) = advance(m, stops);
            (
                PcGeosModel { paused: true, ..m2 },
                true,
                t,
                events_of(o).push(control_event(action, t)),
                artifacts_of(o),
            )
        },
        ControlAction::CreateSnapshot { reason } => {
            let t = "pc/geos fixture snapshot requested: "@ + reason@;
            (m, true, t, seq![control_event(action, t)], Seq::empty())
        },
    }
}

impl PcGeosSession {
    /// A detached replayed target: paused, with its stops not yet visited.
    pub fn new(
        target_id: TargetId,
        target_name: String,
        runtime: String,
        inventory_artifact: Vec<u8>,
        sources: Vec<SourceArtifact>,
        stops: Vec<RecordedStop>,
    ) -> (r: Self)
        requires
            alias_budget(stops_view(stops@), sources@.len()) < u64::MAX,
        ensures
            r@ == (PcGeosModel {
                attached: false,
                paused: true,
                exhausted: false,
                next_alias: 1,
                next_stop: 0,
                replayed: Map::empty(),
            }),
            r.stops() == stops_view(stops@),
            r.sources() == sources@.map_values(|s: SourceArtifact| (s.file@, s.artifact@)),
            r.inventory() == inventory_artifact@,
            r.descriptor().target_id == target_id,
            r.descriptor().adapter_name@ == "swat-adapter-pcgeos"@,
            r.descriptor().target_name == target_name,
            r.descriptor().runtime == runtime,
            r.descriptor().replay_mode == ReplayMode::Recorded,
    {
        PcGeosSession {
            descriptor: TargetDescriptor {
                target_id,
                adapter_name: owned("swat-adapter-pcgeos"),
                target_name,
                runtime,
                replay_mode: ReplayMode::Recorded,
            },
            inventory_artifact,
            sources,
            stops,
            attached: false,
            paused: true,
            exhausted: false,
            next_alias_raw: 1,
            next_stop_index: 0,
            replayed: BTreeMap::new(),
            replay_log: Ghost(Seq::empty()),
        }
    }

    fn prepare_replay(&mut self, directive: BoundaryReplayDirective) -> (r: SwatResult<AdapterEmission>)
        ensures
            !old(self)@.attached ==> (r matches Err(e) && e@ == "pc/geos adapter is not attached"@
                && final(self)@ == old(self)@),
            old(self)@.attached ==> (r matches Ok(m) && final(self)@ == (PcGeosModel {
                replayed: old(self)@.replayed.insert(directive.boundary_id.0, directive.artifact_ref),
                ..old(self)@
            }) && emission_is(
                m,
                seq![text_event(EventKind::Replay, "prepared replay for PC/GEOS boundary "@ + decimal(directive.boundary_id.0 as nat))],
                Seq::empty(),
            )),
            final(self).stops() == old(self).stops(),
            final(self).sources() == old(self).sources(),
            final(self).inventory() == old(self).inventory(),
            final(self).descriptor() == old(self).descriptor(),
            final(self).replay_log == old(self).replay_log,
    {
        match self.ensure_attached() {
            Ok(()) => {},
            Err(e) => {
                return Err(e);
            },
        }
        proof {
            use_type_invariant(&*self);
        }
        let key = directive.boundary_id.0;
        let mut replayed = self.replayed.clone();
        let _ = replayed.insert(key, directive.artifact_ref.duplicate());
        self.replayed = replayed;
        let mut summary = owned("prepared replay for PC/GEOS boundary ");
        push_decimal(&mut summary, key);
        let mut emission = AdapterEmission::empty();
        let event = PendingEvent::new(EventKind::Replay, EventPayload::Text { summary });
        let ghost e0 = emission;
        proof {
            lemma_emission_empty(e0);
        }
        emission.pending_events.push(event);
        proof {
            lemma_emission_push_event(e0, emission, event, Seq::empty(), Seq::empty());
            assert(Seq::<EventView>::empty().push(event_view(event)) =~= seq![text_event(EventKind::Replay, "prepared replay for PC/GEOS boundary "@ + decimal(key as nat))]);
        }
        Ok(emission)
    }

    fn ensure_attached(&self) -> (r: SwatResult<()>)
        ensures
            self@.attached <==> r is Ok,
            r matches Err(e) ==> e@ == "pc/geos adapter is not attached"@,
    {
        if self.attached {
            Ok(())
        } else {
            Err(SwatError::new(owned("pc/geos adapter is not attached")))
        }
    }

    /// Moves to the next recorded stop, as `advance` says.
    fn advance_stop(&mut self) -> (r: Option<AdapterEmission>)
        ensures
            final(self)@ == advance(old(self)@, old(self).stops()).0,
            advance(old(self)@, old(self).stops()).1 is Some <==> r is Some,
            r matches Some(e) ==> emission_is(
                e,
                events_of(advance(old(self)@, old(self).stops()).1),
                artifacts_of(advance(old(self)@, old(self).stops()).1),
            ),
            final(self).stops() == old(self).stops(),
            final(self).sources() == old(self).sources(),
            final(self).inventory() == old(self).inventory(),
            final(self).descriptor() == old(self).descriptor(),
    {
        proof {
            use_type_invariant(&*self);
        }
        if self.next_stop_index >= self.stops.len() {
            if self.exhausted {
                return None;
            }
            self.exhausted = true;
            self.paused = true;
            let mut emission = AdapterEmission::empty();
            let event = PendingEvent::new(
                EventKind::Lifecycle,
                EventPayload::Text { summary: owned("PC/GEOS fixture exhausted recorded stops") },
            );
            let ghost e0 = emission;
            proof {
                lemma_emission_empty(e0);
            }
            emission.pending_events.push(event);
            proof {
                lemma_emission_push_event(e0, emission, event, Seq::empty(), Seq::empty());
                assert(Seq::<EventView>::empty().push(event_view(event)) =~= seq![text_event(EventKind::Lifecycle, "PC/GEOS fixture exhausted recorded stops"@)]);
            }
            return Some(emission);
        }
        let i = self.next_stop_index;
        let ghost st = stops_view(self.stops@);
        proof {
            assert(st[i as int] == frames_view(self.stops@[i as int].frames@));
            assert(remaining_frames(st, i as int) == st[i as int].len() + remaining_frames(st, i as int + 1));
        }
        let (emission, next) = stop_emission(&self.stops[i].frames, &self.replayed, self.next_alias_raw);
        proof {
            lemma_frames_alias_bound(st[i as int], self.replayed@, self.next_alias_raw);
        }
        self.next_stop_index = i + 1;
        self.paused = true;
        self.next_alias_raw = next;
        Some(emission)
    }
}

/// The capabilities of the replayed target.
pub fn pcgeos_capability_set() -> (r: CapabilitySet)
    ensures
        pcgeos_capabilities(r),
{
    let mut c = CapabilitySet::basic_observer();
    c.can_inject_replay = true;
    c.can_resolve_source = true;
    c
}

impl PcGeosSession {
    /// The inventory emission of an attach, from alias one on.
    fn inventory_emission(&mut self) -> (r: AdapterEmission)
        requires
            old(self)@.next_alias == 1,
            old(self)@.next_stop == 0,
        ensures
            emission_is(r, inventory_emitted(old(self).inventory(), old(self).sources()).0, inventory_emitted(old(self).inventory(), old(self).sources()).1),
            final(self)@ == (PcGeosModel { next_alias: (2 + old(self).sources().len()) as u64, ..old(self)@ }),
            final(self).stops() == old(self).stops(),
            final(self).sources() == old(self).sources(),
            final(self).inventory() == old(self).inventory(),
            final(self).descriptor() == old(self).descriptor(),
    {
        proof {
            use_type_invariant(&*self);
        }
        let ghost inv = inventory_emitted(self.inventory(), self.sources());
        let ghost srcs = self.sources();
        let mut emission = AdapterEmission::empty();
        proof {
            lemma_emission_empty(emission);
        }
        let artifact = PendingArtifact {
            alias: ArtifactAlias(1),
            media_type: owned("application/json"),
            encoding: ArtifactEncoding::Json,
            access: ArtifactAccess::Lazy,
            bytes: self.inventory_artifact.clone(),
        };
        let ghost e0 = emission;
        emission.pending_artifacts.push(artifact);
        proof {
            lemma_emission_push_artifact(e0, emission, artifact, Seq::empty(), Seq::empty());
        }
        let event = PendingEvent::new(
            EventKind::ValueObserved,
            EventPayload::Value {
                value_key: owned("pcgeos.inventory"),
                summary: owned("loaded PC/GEOS repository inventory"),
            },
        ).with_artifact(ArtifactBinding::Pending(ArtifactAlias(1)));
        let ghost e1 = emission;
        emission.pending_events.push(event);
        proof {
            lemma_emission_push_event(e1, emission, event, Seq::empty(), seq![artifact_view(artifact)]);
            assert(Seq::<EventView>::empty().push(event_view(event)) =~= inv.0.take(1));
            assert(seq![artifact_view(artifact)] =~= inv.1.take(1));
        }
        let n = self.sources.len();
        let mut k: usize = 0;
        while k < n
            invariant
                n == self.sources@.len(),
                k <= n,
                srcs == self.sources@.map_values(|s: SourceArtifact| (s.file@, s.artifact@)),
                inv == inventory_emitted(self.inventory_artifact@, srcs),
                emission_is(emission, inv.0.take(k as int + 1), inv.1.take(k as int + 1)),
                alias_budget(stops_view(self.stops@), n as nat) < u64::MAX,
            decreases n - k,
        {
            proof {
                lemma_remaining_frames_shrink(stops_view(self.stops@), 0, 0);
            }
            let alias = ArtifactAlias((k as u64) + 2);
            let source = &self.sources[k];
            let artifact = PendingArtifact {
                alias,
                media_type: owned("application/json"),
                encoding: ArtifactEncoding::Json,
                access: ArtifactAccess::Lazy,
                bytes: source.artifact.clone(),
            };
            let ghost ea = emission;
            emission.pending_artifacts.push(artifact);
            proof {
                lemma_emission_push_artifact(ea, emission, artifact, inv.0.take(k as int + 1), inv.1.take(k as int + 1));
            }
            let mut summary = owned("discovered PC/GEOS source ");
            push_str(&mut summary, source.file.as_str());
            let event = PendingEvent::new(EventKind::SourceResolution, EventPayload::Text { summary }).with_artifact(
                ArtifactBinding::Pending(alias),
            );
            let ghost eb = emission;
            emission.pending_events.push(event);
            proof {
                lemma_emission_push_event(
                    eb,
                    emission,
                    event,
                    inv.0.take(k as int + 1),
                    inv.1.take(k as int + 1).push(artifact_view(artifact)),
                );
                assert(srcs[k as int] == (source.file@, source.artifact@));
                assert(inv.0.take(k as int + 1).push(event_view(event)) =~= inv.0.take(k as int + 2));
                assert(inv.1.take(k as int + 1).push(artifact_view(artifact)) =~= inv.1.take(k as int + 2));
            }
            k = k + 1;
        }
        proof {
            assert(inv.0.take(n as int + 1) =~= inv.0);
            assert(inv.1.take(n as int + 1) =~= inv.1);
        }
        self.next_alias_raw = (n as u64) + 2;
        emission
    }
}

impl TargetAdapter for PcGeosSession {
    open spec fn logs_replays(&self) -> bool {
        true
    }

    closed spec fn replay_log(&self) -> Seq<ReplayEntry> {
        self.replay_log@
    }

    fn adapter_name(&self) -> (r: &'static str)
        ensures
            r@ == "swat-adapter-pcgeos"@,
    {
        "swat-adapter-pcgeos"
    }

    fn attach(&mut self) -> (r: SwatResult<AdapterAttachment>)
        ensures
            old(self)@.attached ==> (r matches Err(e) && e@ == "pc/geos adapter already attached"@
                && final(self)@ == old(self)@),
            !old(self)@.attached ==> ({
                let reset = PcGeosModel {
                    attached: true,
                    paused: true,
                    exhausted: false,
                    next_alias: (2 + old(self).sources().len()) as u64,
                    next_stop: 0,
                    replayed: Map::empty(),
                };
                let (m, o) = advance(reset, old(self).stops());
                let (ie, ia) = inventory_emitted(old(self).inventory(), old(self).sources());
                &&& final(self)@ == m
                &&& r matches Ok(a)
                &&& same_descriptor(a.descriptor, old(self).descriptor())
                &&& pcgeos_capabilities(a.capabilities)
                &&& emission_is(
                    a.initial_emission,
                    seq![text_event(EventKind::Lifecycle, "pc/geos fixture attached"@)] + ie + events_of(o),
                    ia + artifacts_of(o),
                )
            }),
            final(self).stops() == old(self).stops(),
            final(self).sources() == old(self).sources(),
            final(self).inventory() == old(self).inventory(),
            final(self).descriptor() == old(self).descriptor(),
    {
        proof {
            use_type_invariant(&*self);
        }
        if self.attached {
            return Err(SwatError::new(owned("pc/geos adapter already attached")));
        }
        proof {
            lemma_remaining_frames_shrink(stops_view(self.stops@), 0, self.next_stop_index as int);
        }
        self.next_alias_raw = 1;
        self.next_stop_index = 0;
        self.attached = true;
        self.paused = true;
        self.exhausted = false;
        self.replayed = BTreeMap::new();
        let mut initial = AdapterEmission::empty();
        let event = PendingEvent::new(
            EventKind::Lifecycle,
            EventPayload::Text { summary: owned("pc/geos fixture attached") },
        );
        let ghost e0 = initial;
        proof {
            lemma_emission_empty(e0);
        }
        initial.pending_events.push(event);
        proof {
            lemma_emission_push_event(e0, initial, event, Seq::empty(), Seq::empty());
        }
        let ghost ev0 = Seq::<EventView>::empty().push(event_view(event));
        let inventory = self.inventory_emission();
        let ghost (ie, ia) = inventory_emitted(self.inventory(), self.sources());
        let ghost e1 = initial;
        initial.extend(inventory);
        proof {
            lemma_emission_extend(e1, inventory, initial, ev0, Seq::empty(), ie, ia);
        }
        let ghost before_advance = self@;
        match self.advance_stop() {
            Some(stop) => {
                let ghost o = advance(before_advance, self.stops()).1;
                let ghost e2 = initial;
                initial.extend(stop);
                proof {
                    lemma_emission_extend(e2, stop, initial, ev0 + ie, Seq::empty() + ia, events_of(o), artifacts_of(o));
                }
            },
            None => {
                proof {
                    assert(ev0 + ie + Seq::<EventView>::empty() =~= ev0 + ie);
                }
            },
        }
        proof {
            assert(ev0 =~= seq![text_event(EventKind::Lifecycle, "pc/geos fixture attached"@)]);
            assert(Seq::<ArtifactView>::empty() + ia =~= ia);
            assert(ia + Seq::<ArtifactView>::empty() =~= ia);
        }
        Ok(
            AdapterAttachment {
                descriptor: self.descriptor.duplicate(),
                capabilities: pcgeos_capability_set(),
                initial_emission: initial,
            },
        )
    }

    fn capabilities(&self) -> (r: CapabilitySet)
        ensures
            pcgeos_capabilities(r),
    {
        pcgeos_capability_set()
    }

    fn poll(&mut self) -> (r: SwatResult<AdapterEmission>)
        ensures
            !old(self)@.attached ==> (r matches Err(e) && e@ == "pc/geos adapter is not attached"@
                && final(self)@ == old(self)@),
            old(self)@.attached && old(self)@.paused ==> (r matches Ok(m) && emission_is(m, Seq::empty(), Seq::empty())
                && final(self)@ == old(self)@),
            old(self)@.attached && !old(self)@.paused ==> ({
                let (m, o) = advance(old(self)@, old(self).stops());
                &&& final(self)@ == m
                &&& r matches Ok(e)
                &&& emission_is(
                    e,
                    seq![text_event(EventKind::Execution, "pc/geos fixture resumed until next stop"@)] + events_of(o),
                    artifacts_of(o),
                )
            }),
            final(self).stops() == old(self).stops(),
            final(self).sources() == old(self).sources(),
            final(self).inventory() == old(self).inventory(),
            final(self).descriptor() == old(self).descriptor(),
    {
        match self.ensure_attached() {
            Ok(()) => {},
            Err(e) => {
                return Err(e);
            },
        }
        if self.paused {
            let e = AdapterEmission::empty();
            proof {
                lemma_emission_empty(e);
            }
            return Ok(e);
        }
        let mut emission = AdapterEmission::empty();
        let event = PendingEvent::new(
            EventKind::Execution,
            EventPayload::Text { summary: owned("pc/geos fixture resumed until next stop") },
        );
        let ghost e0 = emission;
        proof {
            lemma_emission_empty(e0);
        }
        emission.pending_events.push(event);
        proof {
            lemma_emission_push_event(e0, emission, event, Seq::empty(), Seq::empty());
            assert(Seq::<EventView>::empty().push(event_view(event)) =~= seq![text_event(EventKind::Execution, "pc/geos fixture resumed until next stop"@)]);
        }
        let ghost ev0 = seq![text_event(EventKind::Execution, "pc/geos fixture resumed until next stop"@)];
        let ghost before = self@;
        match self.advance_stop() {
            Some(stop) => {
                let ghost o = advance(before, self.stops()).1;
                let ghost e1 = emission;
                emission.extend(stop);
                proof {
                    lemma_emission_extend(e1, stop, emission, ev0, Seq::empty(), events_of(o), artifacts_of(o));
                    assert(Seq::<ArtifactView>::empty() + artifacts_of(o) =~= artifacts_of(o));
                }
            },
            None => {
                proof {
                    assert(ev0 + Seq::<EventView>::empty() =~= ev0);
                }
            },
        }
        Ok(emission)
    }

    fn control(&mut self, action: ControlAction) -> (r: SwatResult<AdapterControlResult>)
        ensures
            !old(self)@.attached ==> (r matches Err(e) && e@ == "pc/geos adapter is not attached"@
                && final(self)@ == old(self)@),
            old(self)@.attached ==> ({
                let (m, accepted, summary, events, artifacts) = control_outcome(
                    old(self)@,
                    old(self).stops(),
                    action,
                );
                &&& final(self)@ == m
                &&& r matches Ok(c)
                &&& c.response.accepted == accepted
                &&& c.response.summary@ == summary
                &&& emission_is(c.emission, events, artifacts)
            }),
            final(self).stops() == old(self).stops(),
            final(self).sources() == old(self).sources(),
            final(self).inventory() == old(self).inventory(),
            final(self).descriptor() == old(self).descriptor(),
    {
        match self.ensure_attached() {
            Ok(()) => {},
            Err(e) => {
                return Err(e);
            },
        }
        proof {
            use_type_invariant(&*self);
        }
        let mut emission = AdapterEmission::empty();
        proof {
            lemma_emission_empty(emission);
        }
        let ghost before = self@;
        let ghost mut events: Seq<EventView> = Seq::empty();
        let ghost mut artifacts: Seq<ArtifactView> = Seq::empty();
        let response = match &action {
            ControlAction::Pause => {
                self.paused = true;
                ControlResponse { accepted: true, summary: owned("pc/geos fixture paused") }
            },
            ControlAction::Resume => {
                self.paused = false;
                ControlResponse { accepted: true, summary: owned("pc/geos fixture resumed") }
            },
            ControlAction::Step => {
                if self.next_stop_index >= self.stops.len() {
                    ControlResponse {
                        accepted: false,
                        summary: owned("pc/geos fixture has no further recorded steps"),
                    }
                } else {
                    match self.advance_stop() {
                        Some(stop) => {
                            let ghost o = advance(before, self.stops()).1;
                            let ghost e1 = emission;
                            emission.extend(stop);
                            proof {
                                lemma_emission_extend(e1, stop, emission, Seq::empty(), Seq::empty(), events_of(o), artifacts_of(o));
                                events = events_of(o);
                                artifacts = artifacts_of(o);
                                assert(Seq::<EventView>::empty() + events_of(o) =~= events_of(o));
                                assert(Seq::<ArtifactView>::empty() + artifacts_of(o) =~= artifacts_of(o));
                            }
                        },
                        None => {},
                    }
                    proof {
                        use_type_invariant(&*self);
                    }
                    self.paused = true;
                    ControlResponse { accepted: true, summary: owned("pc/geos fixture step completed") }
                }
            },
            ControlAction::CreateSnapshot { reason } => {
                let mut t = owned("pc/geos fixture snapshot requested: ");
                push_str(&mut t, reason.as_str());
                ControlResponse { accepted: true, summary: t }
            },
        };
        let summary = response.summary.clone();
        let event = PendingEvent::new(EventKind::Control, EventPayload::Control { action, summary });
        let ghost e2 = emission;
        emission.pending_events.push(event);
        proof {
            lemma_emission_push_event(e2, emission, event, events, artifacts);
        }
        Ok(AdapterControlResult { response, emission })
    }

    fn inject_boundary_replay(&mut self, directive: BoundaryReplayDirective) -> (r: SwatResult<AdapterEmission>)
        ensures
            !old(self)@.attached ==> (r matches Err(e) && e@ == "pc/geos adapter is not attached"@
                && final(self)@ == old(self)@),
            old(self)@.attached ==> (r matches Ok(m) && final(self)@ == (PcGeosModel {
                replayed: old(self)@.replayed.insert(directive.boundary_id.0, directive.artifact_ref),
                ..old(self)@
            }) && emission_is(
                m,
                seq![text_event(EventKind::Replay, "prepared replay for PC/GEOS boundary "@ + decimal(directive.boundary_id.0 as nat))],
                Seq::empty(),
            )),
            final(self).stops() == old(self).stops(),
            final(self).sources() == old(self).sources(),
            final(self).inventory() == old(self).inventory(),
            final(self).descriptor() == old(self).descriptor(),
    {
        let ghost d = directive;
        let r = self.prepare_replay(directive);
        proof {
            use_type_invariant(&*self);
        }
        self.replay_log = Ghost(self.replay_log@.push((d, r)));
        r
    }

}

/// An object of the target as the fixture records it.
#[derive(Clone, Debug, PartialEq, Eq)]
pub struct PcGeosFixtureObject {
    pub id: String,
    pub name: Option<String>,
    pub class_name: Option<String>,
    pub patient: Option<String>,
    pub handle: Option<String>,
    pub resource: Option<String>,
    pub address: Option<String>,
    pub state_flags: Vec<String>,
}

/// The target name of a fixture that names none.
pub fn default_target_name() -> (r: String)
    ensures
        r@ == "pcgeos-fixture"@,
{
    owned("pcgeos-fixture")
}

/// The runtime name of a fixture that names none.
pub fn default_runtime_name() -> (r: String)
    ensures
        r@ == "pcgeos-fixture"@,
{
    owned("pcgeos-fixture")
}

/// The index of the last `c` in `s`, if there is one.
pub open spec fn last_index_of(s: Seq<char>, c: char) -> Option<int>
    decreases s.len(),
{
    if s.len() == 0 {
        None
    } else if s.last() == c {
        Some(s.len() - 1)
    } else {
        last_index_of(s.drop_last(), c)
    }
}

/// What follows the last colon of `s`, or all of `s` when it has none.
pub open spec fn after_last_colon(s: Seq<char>) -> Seq<char> {
    match last_index_of(s, ':') {
        Some(i) => s.subrange(i + 1, s.len() as int),
        None => s,
    }
}

proof fn lemma_last_index_bounds(s: Seq<char>, c: char)
    ensures
        last_index_of(s, c) matches Some(i) ==> 0 <= i < s.len() && s[i] == c && forall|j: int| i < j < s.len() ==> s[j] != c,
        last_index_of(s, c) is None ==> forall|j: int| 0 <= j < s.len() ==> s[j] != c,
    decreases s.len(),
{
    if s.len() > 0 && s.last() != c {
        let t = s.drop_last();
        lemma_last_index_bounds(t, c);
        assert forall|j: int| 0 <= j < t.len() implies t[j] == s[j] by {}
    }
}

fn last_colon(s: &str) -> (r: Option<usize>)
    ensures
        match r {
            Some(i) => last_index_of(s@, ':') == Some(i as int),
            None => last_index_of(s@, ':') is None,
        },
{
    let n = s.unicode_len();
    let mut i: usize = n;
    proof {
        assert(s@.subrange(0, n as int) =~= s@);
    }
    while i > 0
        invariant
            i <= n,
            n == s@.len(),
            last_index_of(s@, ':') == last_index_of(s@.subrange(0, i as int), ':'),
        decreases i,
    {
        let c = s.get_char(i - 1);
        let ghost t = s@.subrange(0, i as int);
        if c == ':' {
            return Some(i - 1);
        }
        proof {
            assert(t.drop_last() =~= s@.subrange(0, i as int - 1));
        }
        i = i - 1;
    }
    None
}

/// The short name of a resource key: what follows its last colon.
pub fn short_resource_name(resource_key: &str) -> (r: String)
    ensures
        r@ == after_last_colon(resource_key@),
{
    let n = resource_key.unicode_len();
    match last_colon(resource_key) {
        Some(i) => {
            proof {
                lemma_last_index_bounds(resource_key@, ':');
            }
            owned(resource_key.substring_char(i + 1, n))
        },
        None => owned(resource_key),
    }
}

/// The segment part of a handle key: what follows its last colon. Splitting
/// always yields a last part, so there is always one.
pub fn extract_handle_segment(handle_key: &str) -> (r: Option<String>)
    ensures
        r matches Some(t) && t@ == after_last_colon(handle_key@),
{
    Some(short_resource_name(handle_key))
}

} // verus!
