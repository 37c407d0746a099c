use swat::mock::MockAdapter;
use swat::model::{
    merge_emissions,
    ArtifactAccess, ArtifactEncoding, ArtifactId, ArtifactRef, BoundaryId, CausalityLink,
    DeterminismClass, EventEnvelope, EventId, EventKind, EventPayload, SessionId, TargetAdapter,
    TargetId, Timestamp,
};
use swat::replay::{ReplayController, ReplayPlan};
use swat::resolver::{event_field_entities, ResolvedEntityKind};

fn artifact(id: u64) -> ArtifactRef {
    ArtifactRef {
        artifact_id: ArtifactId(id),
        media_type: "application/json".to_string(),
        encoding: ArtifactEncoding::Json,
        size_hint: None,
        access: ArtifactAccess::Lazy,
    }
}

fn boundary_event(seq: u64, boundary: u64, determinism: DeterminismClass, artifacts: Vec<ArtifactRef>) -> EventEnvelope {
    EventEnvelope {
        event_id: EventId(seq),
        session_id: SessionId(1),
        target_id: TargetId(1),
        sequence_no: seq,
        observed_at: Timestamp(seq),
        kind: EventKind::ModelBoundary,
        causality: CausalityLink { parent_event_id: None, correlation_id: None },
        payload: EventPayload::Boundary { boundary_id: BoundaryId(boundary), determinism, summary: "b".to_string() },
        artifact_refs: artifacts,
    }
}

#[test]
fn replay_plans_keep_the_first_artifact_of_each_nondeterministic_boundary() {
    let events = vec![
        boundary_event(1, 42, DeterminismClass::ExternalBoundary, vec![artifact(7), artifact(8)]),
        boundary_event(2, 42, DeterminismClass::ExternalBoundary, vec![artifact(9)]),
        boundary_event(3, 5, DeterminismClass::Deterministic, vec![artifact(10)]),
        boundary_event(4, 6, DeterminismClass::ReplayOnly, vec![]),
        boundary_event(5, 3, DeterminismClass::ReplayOnly, vec![artifact(11)]),
    ];
    let plan = ReplayPlan::from_events(&events);
    assert_eq!(plan.len(), 2);
    let directives = plan.directives();
    assert_eq!(directives[0].boundary_id, BoundaryId(3));
    assert_eq!(directives[1].boundary_id, BoundaryId(42));
    assert_eq!(directives[1].artifact_ref.artifact_id, ArtifactId(7));
    assert!(!plan.has_boundary(BoundaryId(5)));
    assert_eq!(ReplayPlan::from_events_up_to(&events, 4).len(), 1);
    assert_eq!(ReplayPlan::for_boundary(&events, BoundaryId(3)).len(), 1);
    assert!(ReplayPlan::from_events(&[]).is_empty());

    let mut adapter = MockAdapter::new(TargetId(1), "mock".to_string());
    adapter.attach().unwrap();
    let applied = ReplayController.apply(&mut adapter, &plan).unwrap();
    assert_eq!(applied.pending_events.len(), 2);
}

fn text_of(payload: &EventPayload) -> String {
    match payload {
        EventPayload::Text { summary } => summary.clone(),
        _ => String::new(),
    }
}

#[test]
fn replay_hands_directives_over_in_boundary_order_and_merges_the_answers() {
    let events = vec![
        boundary_event(1, 42, DeterminismClass::ExternalBoundary, vec![artifact(7)]),
        boundary_event(2, 3, DeterminismClass::ReplayOnly, vec![artifact(11)]),
    ];
    let plan = ReplayPlan::from_events(&events);
    let mut adapter = MockAdapter::new(TargetId(1), "mock".to_string());
    adapter.attach().unwrap();
    let applied = ReplayController.apply(&mut adapter, &plan).unwrap();
    assert_eq!(applied.pending_events.len(), 2);
    assert_eq!(text_of(&applied.pending_events[0].payload), "prepared replay for boundary 3");
    assert_eq!(text_of(&applied.pending_events[1].payload), "prepared replay for boundary 42");
    assert!(applied.pending_artifacts.is_empty());
}

#[test]
fn replay_stops_at_the_first_refusal() {
    let events = vec![boundary_event(1, 42, DeterminismClass::ExternalBoundary, vec![artifact(7)])];
    let plan = ReplayPlan::from_events(&events);
    let mut adapter = MockAdapter::new(TargetId(1), "mock".to_string());
    let err = ReplayController.apply(&mut adapter, &plan).unwrap_err();
    assert_eq!(err.to_string(), "mock adapter is not attached");
}

#[test]
fn an_empty_plan_replays_nothing_even_when_detached() {
    let mut adapter = MockAdapter::new(TargetId(1), "mock".to_string());
    let applied = ReplayController.apply(&mut adapter, &ReplayPlan::from_events(&[])).unwrap();
    assert!(applied.is_empty());
}

#[test]
fn merging_emissions_keeps_their_order() {
    let mut adapter = MockAdapter::new(TargetId(1), "mock".to_string());
    adapter.attach().unwrap();
    let first = adapter
        .inject_boundary_replay(swat::model::BoundaryReplayDirective { boundary_id: BoundaryId(1), artifact_ref: artifact(1) })
        .unwrap();
    let second = adapter
        .inject_boundary_replay(swat::model::BoundaryReplayDirective { boundary_id: BoundaryId(2), artifact_ref: artifact(2) })
        .unwrap();
    let merged = merge_emissions(vec![first, second]);
    assert_eq!(merged.pending_events.len(), 2);
    assert_eq!(text_of(&merged.pending_events[0].payload), "prepared replay for boundary 1");
    assert_eq!(text_of(&merged.pending_events[1].payload), "prepared replay for boundary 2");
}

#[test]
fn event_fields_name_their_entities_in_entity_order() {
    let mut boundary = boundary_event(1, 42, DeterminismClass::ExternalBoundary, vec![]);
    boundary.causality.correlation_id = Some("corr-1".to_string());
    let entities = event_field_entities(&boundary);
    assert_eq!(entities.len(), 2);
    assert_eq!(entities[0].kind, ResolvedEntityKind::BoundaryId);
    assert_eq!(entities[0].name, "42");
    assert_eq!(entities[1].kind, ResolvedEntityKind::CorrelationId);
    assert_eq!(entities[1].name, "corr-1");

    let mut value = boundary.clone();
    value.payload = EventPayload::Value { value_key: "state.mode".to_string(), summary: "v".to_string() };
    let entities = event_field_entities(&value);
    assert_eq!(entities.len(), 2);
    assert_eq!(entities[0].kind, ResolvedEntityKind::CorrelationId);
    assert_eq!(entities[1].kind, ResolvedEntityKind::ValueKey);
    assert_eq!(entities[1].name, "state.mode");

    value.causality.correlation_id = None;
    value.payload = EventPayload::Text { summary: "t".to_string() };
    assert!(event_field_entities(&value).is_empty());
}

#[test]
fn planning_one_boundary_restricts_the_whole_plan() {
    let events = vec![
        boundary_event(1, 42, DeterminismClass::ExternalBoundary, vec![artifact(7)]),
        boundary_event(2, 3, DeterminismClass::ReplayOnly, vec![artifact(11)]),
        boundary_event(3, 5, DeterminismClass::Deterministic, vec![artifact(12)]),
    ];
    let whole = ReplayPlan::from_events(&events);
    let one = ReplayPlan::for_boundary(&events, BoundaryId(42));
    assert_eq!(one.len(), 1);
    assert_eq!(one.directives()[0], whole.directives()[1]);
    assert!(ReplayPlan::for_boundary(&events, BoundaryId(5)).is_empty());
    assert!(!whole.has_boundary(BoundaryId(5)));
    assert!(whole.len() <= events.len());
    let deterministic_only = vec![boundary_event(1, 5, DeterminismClass::Deterministic, vec![artifact(1)])];
    assert!(ReplayPlan::from_events(&deterministic_only).is_empty());
}

#[test]
fn the_default_plan_is_empty() {
    let plan = ReplayPlan::default();
    assert!(plan.is_empty());
    assert_eq!(plan.len(), 0);
    assert!(!plan.has_boundary(BoundaryId(1)));
}
