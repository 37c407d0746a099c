//! A scripted target: it ticks while resumed, meets a model boundary on
//! its second tick, and replays that boundary from an injected artifact.
use std::collections::BTreeMap;
use vstd::prelude::*;
use vstd::string::StringSliceAdditionalSpecFns;
use crate::model::{
    AdapterAttachment, AdapterControlResult, AdapterEmission, ArtifactAccess, ArtifactAlias,
    ArtifactBinding, ArtifactEncoding, ArtifactRef, BoundaryId, BoundaryReplayDirective,
    CapabilitySet, ControlAction, ControlResponse, DeterminismClass, EventKind, EventPayload,
    PendingArtifact, PendingEvent, ReplayEntry, ReplayMode, SwatError, SwatResult, TargetAdapter,
    TargetDescriptor, TargetId,
};
use crate::text::{decimal, owned, push_decimal, push_str};

verus! {

broadcast use vstd::std_specs::btree::group_btree_axioms, vstd::laws_cmp::group_laws_cmp;

/// The raw id of the boundary that the mock target meets.
pub const MOCK_BOUNDARY_ID: u64 = 42;

/// The raw alias of the artifact that the mock boundary records.
pub const MOCK_BOUNDARY_ARTIFACT_ALIAS: u64 = 7;

/// The decision that the mock model boundary records.
pub const MOCK_DECISION_JSON: &'static str = "{\"decision\":\"call-tool\",\"tool\":\"search\"}";

/// The mock target.
pub struct MockAdapter {
    attached: bool,
    paused: bool,
    tick: u64,
    replay_artifacts: BTreeMap<u64, ArtifactRef>,
    descriptor: TargetDescriptor,
    replay_log: Ghost<Seq<ReplayEntry>>,
}

/// The state of a mock target as a mathematical value.
pub struct MockState {
    pub attached: bool,
    pub paused: bool,
    pub tick: u64,
    pub replay_artifacts: Map<u64, ArtifactRef>,
}

impl View for MockAdapter {
    type V = MockState;

    closed spec fn view(&self) -> MockState {
        MockState {
            attached: self.attached,
            paused: self.paused,
            tick: self.tick,
            replay_artifacts: self.replay_artifacts@,
        }
    }
}

/// `e` is an event of `kind` whose payload is text `summary` and which
/// carries no artifact.
pub open spec fn text_event(e: PendingEvent, kind: EventKind, summary: Seq<char>) -> bool {
    &&& e.kind == kind
    &&& e.payload matches EventPayload::Text { summary: s } && s@ == summary
    &&& e.artifacts@.len() == 0
}

/// `e` is a model-boundary event of the mock boundary with `summary`,
/// carrying the single artifact `binding`.
pub open spec fn boundary_event(e: PendingEvent, summary: Seq<char>, binding: ArtifactBinding) -> bool {
    &&& e.kind == EventKind::ModelBoundary
    &&& e.payload matches EventPayload::Boundary { boundary_id, determinism, summary: s }
        && boundary_id == BoundaryId(MOCK_BOUNDARY_ID) && determinism == DeterminismClass::ExternalBoundary
        && s@ == summary
    &&& e.artifacts@ == seq![binding]
}

/// The capabilities of the mock target: a basic observer that can also
/// take replays.
pub open spec fn mock_capabilities(c: CapabilitySet) -> bool {
    &&& c.can_attach && c.can_stream_events && c.can_stop && c.can_resume && c.can_step
    &&& c.can_read_values && !c.can_write_values && c.can_snapshot && c.can_inject_replay
    &&& !c.can_resolve_source && !c.can_resolve_schema
}

/// What the mock target answers to `action`.
pub open spec fn control_summary(action: ControlAction) -> Seq<char> {
    match action {
        ControlAction::Pause => "mock target paused"@,
        ControlAction::Resume => "mock target resumed"@,
        ControlAction::Step => "mock target step requested"@,
        ControlAction::CreateSnapshot { reason } => "mock snapshot requested: "@ + reason@,
    }
}

/// The state of the mock target after it accepts `action`: pause and
/// resume set the paused flag, the other actions change nothing.
pub open spec fn control_state(s: MockState, action: ControlAction) -> MockState {
    match action {
        ControlAction::Pause => MockState { paused: true, ..s },
        ControlAction::Resume => MockState { paused: false, ..s },
        _ => s,
    }
}

/// `c` accepts `action` and reports it in one control event that repeats
/// the response summary.
pub open spec fn control_reported(c: AdapterControlResult, action: ControlAction) -> bool {
    &&& c.response.accepted
    &&& c.emission.pending_events@.len() == 1
    &&& c.emission.pending_artifacts@.len() == 0
    &&& c.emission.pending_events@[0].kind == EventKind::Control
    &&& c.emission.pending_events@[0].payload matches EventPayload::Control { action: a, summary: s }
        && a == action && s@ == c.response.summary@
}

fn text_payload(summary: String) -> (r: EventPayload)
    ensures
        r matches EventPayload::Text { summary: s } && s@ == summary@,
{
    EventPayload::Text { summary }
}

impl MockAdapter {
    /// A detached, paused mock target with id `target_id` named
    /// `target_name`.
    pub fn new(target_id: TargetId, target_name: String) -> (r: Self)
        ensures
            !r@.attached,
            r@.paused,
            r@.tick == 0,
            r@.replay_artifacts == Map::<u64, ArtifactRef>::empty(),
            r.descriptor().target_id == target_id,
            r.descriptor().target_name@ == target_name@,
            r.descriptor().adapter_name@ == "swat-adapter-mock"@,
            r.descriptor().runtime@ == "mock-runtime"@,
            r.descriptor().replay_mode == ReplayMode::Live,
    {
        MockAdapter {
            attached: false,
            paused: true,
            tick: 0,
            replay_artifacts: BTreeMap::new(),
            descriptor: TargetDescriptor {
                target_id,
                adapter_name: owned("swat-adapter-mock"),
                target_name,
                runtime: owned("mock-runtime"),
                replay_mode: ReplayMode::Live,
            },
            replay_log: Ghost(Seq::empty()),
        }
    }

    pub closed spec fn descriptor(&self) -> TargetDescriptor {
        self.descriptor
    }

    fn ensure_attached(&self) -> (r: SwatResult<()>)
        ensures
            self@.attached ==> r is Ok,
            !self@.attached ==> (r matches Err(e) && e@ == "mock adapter is not attached"@),
    {
        if self.attached {
            Ok(())
        } else {
            Err(SwatError::new(owned("mock adapter is not attached")))
        }
    }

    fn duplicate_descriptor(&self) -> (r: TargetDescriptor)
        ensures
            r.target_id == self.descriptor.target_id,
            r.adapter_name@ == self.descriptor.adapter_name@,
            r.target_name@ == self.descriptor.target_name@,
            r.runtime@ == self.descriptor.runtime@,
            r.replay_mode == self.descriptor.replay_mode,
    {
        TargetDescriptor {
            target_id: self.descriptor.target_id,
            adapter_name: self.descriptor.adapter_name.clone(),
            target_name: self.descriptor.target_name.clone(),
            runtime: self.descriptor.runtime.clone(),
            replay_mode: self.descriptor.replay_mode,
        }
    }

    fn prepare_replay(&mut self, directive: BoundaryReplayDirective) -> (r: SwatResult<
        AdapterEmission,
    >)
        ensures
            !old(self)@.attached ==> (r matches Err(e) && e@ == "mock adapter is not attached"@
                && final(self)@ == old(self)@),
            old(self)@.attached ==> (r matches Ok(m) && final(self)@ == (MockState {
                replay_artifacts: old(self)@.replay_artifacts.insert(
                    directive.boundary_id.0,
                    directive.artifact_ref,
                ),
                ..old(self)@
            }) && m.pending_events@.len() == 1 && m.pending_artifacts@.len() == 0 && text_event(
                m.pending_events@[0],
                EventKind::Replay,
                "prepared replay for boundary "@ + decimal(directive.boundary_id.0 as nat),
            )),
            final(self).replay_log == old(self).replay_log,
    {
        match self.ensure_attached() {
            Ok(()) => {},
            Err(e) => {
                return Err(e);
            },
        }
        let key = directive.boundary_id.0;
        let _ = self.replay_artifacts.insert(key, directive.artifact_ref.duplicate());
        let mut summary = String::new();
        push_str(&mut summary, "prepared replay for boundary ");
        push_decimal(&mut summary, key);
        let mut emission = AdapterEmission::empty();
        emission.pending_events.push(PendingEvent::new(EventKind::Replay, text_payload(summary)));
        Ok(emission)
    }

    fn mock_capabilities() -> (r: CapabilitySet)
        ensures
            mock_capabilities(r),
    {
        let mut c = CapabilitySet::basic_observer();
        c.can_inject_replay = true;
        c
    }
}

impl TargetAdapter for MockAdapter {
    open spec fn logs_replays(&self) -> bool {
        true
    }

    closed spec fn replay_log(&self) -> Seq<ReplayEntry> {
        self.replay_log@
    }

    fn adapter_name(&self) -> (r: &'static str)
        ensures
            r@ == "swat-adapter-mock"@,
    {
        "swat-adapter-mock"
    }

    fn attach(&mut self) -> (r: SwatResult<AdapterAttachment>)
        ensures
            old(self)@.attached ==> (r matches Err(e) && e@ == "mock adapter already attached"@
                && final(self)@ == old(self)@),
            !old(self)@.attached ==> (r matches Ok(a) && final(self)@ == (MockState {
                attached: true,
                paused: true,
                tick: 0,
                ..old(self)@
            }) && mock_capabilities(a.capabilities) && a.descriptor.target_id
                == old(self).descriptor().target_id && a.initial_emission.pending_events@.len()
                == 1 && text_event(
                a.initial_emission.pending_events@[0],
                EventKind::Lifecycle,
                "mock adapter attached"@,
            ) && a.initial_emission.pending_artifacts@.len() == 0),
    {
        if self.attached {
            return Err(SwatError::new(owned("mock adapter already attached")));
        }
        self.attached = true;
        self.paused = true;
        self.tick = 0;
        let mut pending_events: Vec<PendingEvent> = Vec::new();
        pending_events.push(
            PendingEvent::new(EventKind::Lifecycle, text_payload(owned("mock adapter attached"))),
        );
        let initial_emission = AdapterEmission { pending_events, pending_artifacts: Vec::new() };
        Ok(
            AdapterAttachment {
                descriptor: self.duplicate_descriptor(),
                capabilities: MockAdapter::mock_capabilities(),
                initial_emission,
            },
        )
    }

    fn capabilities(&self) -> (r: CapabilitySet)
        ensures
            mock_capabilities(r),
    {
        MockAdapter::mock_capabilities()
    }

    fn poll(&mut self) -> (r: SwatResult<AdapterEmission>)
        ensures
            !old(self)@.attached ==> (r matches Err(e) && e@ == "mock adapter is not attached"@
                && final(self)@ == old(self)@),
            old(self)@.attached && old(self)@.paused ==> (r matches Ok(m)
                && m.pending_events@.len() == 0 && m.pending_artifacts@.len() == 0 && final(self)@
                == old(self)@),
            old(self)@.attached && !old(self)@.paused ==> {
                let t = old(self)@.tick.wrapping_add(1);
                &&& final(self)@ == (MockState { tick: t, ..old(self)@ })
                &&& r matches Ok(m)
                &&& m.pending_events@.len() >= 1
                &&& text_event(
                    m.pending_events@[0],
                    EventKind::Execution,
                    "mock execution tick "@ + decimal(t as nat),
                )
                &&& t != 2 ==> m.pending_events@.len() == 1 && m.pending_artifacts@.len() == 0
                &&& t == 2 && old(self)@.replay_artifacts.contains_key(42) ==> {
                    let a = old(self)@.replay_artifacts[42];
                    &&& m.pending_events@.len() == 3
                    &&& m.pending_artifacts@.len() == 0
                    &&& text_event(
                        m.pending_events@[1],
                        EventKind::Replay,
                        "replay boundary 42 injected with artifact "@ + decimal(
                            a.artifact_id.0 as nat,
                        ),
                    )
                    &&& boundary_event(
                        m.pending_events@[2],
                        "mock model boundary replayed"@,
                        ArtifactBinding::Existing(a),
                    )
                }
                &&& t == 2 && !old(self)@.replay_artifacts.contains_key(42) ==> {
                    &&& m.pending_events@.len() == 2
                    &&& m.pending_artifacts@.len() == 1
                    &&& m.pending_artifacts@[0].alias == ArtifactAlias(MOCK_BOUNDARY_ARTIFACT_ALIAS)
                    &&& m.pending_artifacts@[0].media_type@ == "application/json"@
                    &&& m.pending_artifacts@[0].encoding == ArtifactEncoding::Json
                    &&& m.pending_artifacts@[0].access == ArtifactAccess::Lazy
                    &&& m.pending_artifacts@[0].bytes@ == MOCK_DECISION_JSON.spec_bytes()
                    &&& boundary_event(
                        m.pending_events@[1],
                        "mock model boundary observed"@,
                        ArtifactBinding::Pending(ArtifactAlias(MOCK_BOUNDARY_ARTIFACT_ALIAS)),
                    )
                }
            },
    {
        match self.ensure_attached() {
            Ok(()) => {},
            Err(e) => {
                return Err(e);
            },
        }
        if self.paused {
            return Ok(AdapterEmission::empty());
        }
        self.tick = self.tick.wrapping_add(1);
        let mut emission = AdapterEmission::empty();
        let mut summary = String::new();
        push_str(&mut summary, "mock execution tick ");
        push_decimal(&mut summary, self.tick);
        emission.pending_events.push(PendingEvent::new(EventKind::Execution, text_payload(summary)));
        if self.tick == 2 {
            match self.replay_artifacts.get(&MOCK_BOUNDARY_ID) {
                Some(artifact_ref) => {
                    let artifact_ref = artifact_ref.duplicate();
                    let mut replay_summary = String::new();
                    push_str(&mut replay_summary, "replay boundary ");
                    push_decimal(&mut replay_summary, MOCK_BOUNDARY_ID);
                    push_str(&mut replay_summary, " injected with artifact ");
                    push_decimal(&mut replay_summary, artifact_ref.artifact_id.0);
                    proof {
                        reveal_strlit("42");
                        assert(decimal(4) == seq!['4']);
                        assert(decimal(42) =~= "42"@);
                        assert(replay_summary@ =~= "replay boundary 42 injected with artifact "@
                            + decimal(artifact_ref.artifact_id.0 as nat)) by {
                            reveal_strlit("replay boundary ");
                            reveal_strlit(" injected with artifact ");
                            reveal_strlit("replay boundary 42 injected with artifact ");
                        }
                    }
                    emission.pending_events.push(
                        PendingEvent::new(EventKind::Replay, text_payload(replay_summary)),
                    );
                    let boundary = PendingEvent::new(
                        EventKind::ModelBoundary,
                        EventPayload::Boundary {
                            boundary_id: BoundaryId(MOCK_BOUNDARY_ID),
                            determinism: DeterminismClass::ExternalBoundary,
                            summary: owned("mock model boundary replayed"),
                        },
                    ).with_artifact(ArtifactBinding::Existing(artifact_ref));
                    emission.pending_events.push(boundary);
                },
                None => {
                    emission.pending_artifacts.push(
                        PendingArtifact {
                            alias: ArtifactAlias(MOCK_BOUNDARY_ARTIFACT_ALIAS),
                            media_type: owned("application/json"),
                            encoding: ArtifactEncoding::Json,
                            access: ArtifactAccess::Lazy,
                            bytes: vstd::slice::slice_to_vec(MOCK_DECISION_JSON.as_bytes()),
                        },
                    );
                    let boundary = PendingEvent::new(
                        EventKind::ModelBoundary,
                        EventPayload::Boundary {
                            boundary_id: BoundaryId(MOCK_BOUNDARY_ID),
                            determinism: DeterminismClass::ExternalBoundary,
                            summary: owned("mock model boundary observed"),
                        },
                    ).with_artifact(ArtifactBinding::Pending(ArtifactAlias(MOCK_BOUNDARY_ARTIFACT_ALIAS)));
                    emission.pending_events.push(boundary);
                },
            }
        }
        Ok(emission)
    }

    fn control(&mut self, action: ControlAction) -> (r: SwatResult<AdapterControlResult>)
        ensures
            !old(self)@.attached ==> (r matches Err(e) && e@ == "mock adapter is not attached"@
                && final(self)@ == old(self)@),
            old(self)@.attached ==> (r matches Ok(c) && control_reported(c, action)
                && c.response.summary@ == control_summary(action) && final(self)@ == control_state(
                old(self)@,
                action,
            )),
    {
        match self.ensure_attached() {
            Ok(()) => {},
            Err(e) => {
                return Err(e);
            },
        }
        let summary: String = match &action {
            ControlAction::Pause => {
                self.paused = true;
                owned("mock target paused")
            },
            ControlAction::Resume => {
                self.paused = false;
                owned("mock target resumed")
            },
            ControlAction::Step => owned("mock target step requested"),
            ControlAction::CreateSnapshot { reason } => {
                let mut s = String::new();
                push_str(&mut s, "mock snapshot requested: ");
                push_str(&mut s, reason.as_str());
                s
            },
        };
        let response = ControlResponse { accepted: true, summary: summary.clone() };
        let mut emission = AdapterEmission::empty();
        emission.pending_events.push(
            PendingEvent::new(EventKind::Control, EventPayload::Control { action, summary }),
        );
        Ok(AdapterControlResult { response, emission })
    }

    fn inject_boundary_replay(&mut self, directive: BoundaryReplayDirective) -> (r: SwatResult<
        AdapterEmission,
    >)
        ensures
            !old(self)@.attached ==> (r matches Err(e) && e@ == "mock adapter is not attached"@
                && final(self)@ == old(self)@),
            old(self)@.attached ==> (r matches Ok(m) && final(self)@ == (MockState {
                replay_artifacts: old(self)@.replay_artifacts.insert(
                    directive.boundary_id.0,
                    directive.artifact_ref,
                ),
                ..old(self)@
            }) && m.pending_events@.len() == 1 && m.pending_artifacts@.len() == 0 && text_event(
                m.pending_events@[0],
                EventKind::Replay,
                "prepared replay for boundary "@ + decimal(directive.boundary_id.0 as nat),
            )),
    {
        let ghost d = directive;
        let r = self.prepare_replay(directive);
        self.replay_log = Ghost(self.replay_log@.push((d, r)));
        r
    }

}

} // verus!
