use swat::pcgeos_json::{frame_json, inventory_json, source_file_json, FrameRecord, FrameValue};
use swat::schema::JsonValue;
use swat::adapter_pcgeos::{
    default_runtime_name, default_target_name, extract_handle_segment, short_resource_name,
    stop_emission, PcGeosSession, RecordedFrame, RecordedStop, SourceArtifact,
};
use swat::model::{
    ArtifactAccess, ArtifactBinding, ArtifactEncoding, ArtifactId, ArtifactRef, BoundaryId,
    BoundaryReplayDirective, ControlAction, EventKind, EventPayload, ReplayMode, TargetAdapter, TargetId,
};
use std::collections::BTreeMap;

fn frame(id: u64, summary: &str) -> RecordedFrame {
    RecordedFrame { boundary_id: BoundaryId(id), summary: summary.to_string(), artifact: format!("{{\"id\":{id}}}").into_bytes() }
}

fn session() -> PcGeosSession {
    PcGeosSession::new(
        TargetId(1),
        default_target_name(),
        default_runtime_name(),
        b"{\"kind\":\"pcgeos-inventory\"}".to_vec(),
        vec![SourceArtifact { file: "/src/show.goc".to_string(), artifact: b"{}".to_vec() }],
        vec![
            RecordedStop { summary: "open".to_string(), frames: vec![frame(1001, "app"), frame(1002, "open document")] },
            RecordedStop { summary: "draw".to_string(), frames: vec![frame(1012, "draw")] },
        ],
    )
}

fn summary_of(payload: &EventPayload) -> String {
    match payload {
        EventPayload::Text { summary } | EventPayload::Boundary { summary, .. } | EventPayload::Value { summary, .. } => summary.clone(),
        EventPayload::Control { summary, .. } => summary.clone(),
        other => panic!("unexpected payload {other:?}"),
    }
}

#[test]
fn replayed_target_attaches_with_inventory_and_first_stop() {
    let mut target = session();
    assert_eq!(target.poll().unwrap_err().to_string(), "pc/geos adapter is not attached");
    let attach = target.attach().unwrap();
    assert_eq!(attach.descriptor.adapter_name, "swat-adapter-pcgeos");
    assert_eq!(attach.descriptor.runtime, "pcgeos-fixture");
    assert_eq!(attach.descriptor.replay_mode, ReplayMode::Recorded);
    assert!(attach.capabilities.can_inject_replay && attach.capabilities.can_resolve_source);
    let events = &attach.initial_emission.pending_events;
    assert_eq!(summary_of(&events[0].payload), "pc/geos fixture attached");
    assert_eq!(summary_of(&events[1].payload), "loaded PC/GEOS repository inventory");
    assert_eq!(events[2].kind, EventKind::SourceResolution);
    assert_eq!(summary_of(&events[2].payload), "discovered PC/GEOS source /src/show.goc");
    assert_eq!(summary_of(&events[3].payload), "app");
    assert_eq!(summary_of(&events[4].payload), "open document");
    assert_eq!(summary_of(&events[5].payload), "app complete");
    assert_eq!(events.len(), 6);
    let aliases: Vec<u64> = attach.initial_emission.pending_artifacts.iter().map(|a| a.alias.0).collect();
    assert_eq!(aliases, vec![1, 2, 3, 4]);
    assert!(target.attach().is_err());
}

#[test]
fn replayed_target_reuses_injected_artifacts_and_runs_out_of_stops() {
    let mut target = session();
    target.attach().unwrap();
    let artifact_ref = ArtifactRef {
        artifact_id: ArtifactId(55),
        media_type: "application/json".to_string(),
        encoding: ArtifactEncoding::Json,
        size_hint: Some(2),
        access: ArtifactAccess::Lazy,
    };
    let prepared = target
        .inject_boundary_replay(BoundaryReplayDirective { boundary_id: BoundaryId(1012), artifact_ref: artifact_ref.clone() })
        .unwrap();
    assert_eq!(summary_of(&prepared.pending_events[0].payload), "prepared replay for PC/GEOS boundary 1012");

    let step = target.control(ControlAction::Step).unwrap();
    assert!(step.response.accepted);
    assert_eq!(step.response.summary, "pc/geos fixture step completed");
    assert!(summary_of(&step.emission.pending_events[0].payload).contains("reused replay artifact"));
    assert_eq!(step.emission.pending_events[1].artifacts, vec![ArtifactBinding::Existing(artifact_ref)]);
    assert!(step.emission.pending_artifacts.is_empty());

    let refused = target.control(ControlAction::Step).unwrap();
    assert!(!refused.response.accepted);
    assert_eq!(refused.response.summary, "pc/geos fixture has no further recorded steps");

    target.control(ControlAction::Resume).unwrap();
    let exhausted = target.poll().unwrap();
    assert_eq!(summary_of(&exhausted.pending_events[1].payload), "PC/GEOS fixture exhausted recorded stops");
    assert!(target.poll().unwrap().is_empty());
}

#[test]
fn stop_emission_completes_outer_frames_inside_out() {
    let frames = vec![frame(1, "a"), frame(2, "b"), frame(3, "c")];
    let (emission, next) = stop_emission(&frames, &BTreeMap::new(), 10);
    assert_eq!(next, 13);
    let summaries: Vec<String> = emission.pending_events.iter().map(|e| summary_of(&e.payload)).collect();
    assert_eq!(summaries, vec!["a", "b", "c", "b complete", "a complete"]);
}

#[test]
fn resource_and_handle_names() {
    assert_eq!(short_resource_name("geopoint.app:Interface"), "Interface");
    assert_eq!(short_resource_name("plain"), "plain");
    assert_eq!(extract_handle_segment("geopoint.app:seg:0x0010"), Some("0x0010".to_string()));
}

fn inventory_with_handle() -> swat::inventory::InventoryData {
    let mut handles = swat::strmap::StrMap::new();
    handles.insert(
        "app:0x2b40",
        swat::inventory::InventoryHandle {
            id: "app:0x2b40".to_string(),
            name: Some("AppResource".to_string()),
            patient: "app".to_string(),
            resource: None,
            handle_type: "resource".to_string(),
            segment: Some("0x2b40".to_string()),
            flags: vec!["discardable".to_string()],
        },
    );
    swat::inventory::InventoryData {
        runtime: "pcgeos".to_string(),
        source_files: vec!["app.goc".to_string()],
        patients: swat::strmap::StrMap::new(),
        handles,
        resources: swat::strmap::StrMap::new(),
        objects: swat::strmap::StrMap::new(),
    }
}

fn entry_keys(v: &swat::schema::JsonValue) -> Vec<String> {
    match v {
        swat::schema::JsonValue::Object(es) => es.iter().map(|(k, _)| k.clone()).collect(),
        _ => Vec::new(),
    }
}

fn entry<'a>(v: &'a swat::schema::JsonValue, key: &str) -> Option<&'a swat::schema::JsonValue> {
    match v {
        swat::schema::JsonValue::Object(es) => es.iter().find(|(k, _)| k == key).map(|(_, v)| v),
        _ => None,
    }
}

#[test]
fn frame_artifacts_name_their_inventory_records() {
    let inventory = inventory_with_handle();
    let frame = FrameRecord {
        name: None,
        function: "AppStart".to_string(),
        file: "app.goc".to_string(),
        line: 42,
        correlation_id: None,
        span_id: Some("s1".to_string()),
        patient: Some("missing".to_string()),
        handle: Some("app:0x2b40".to_string()),
        resource: None,
        registers: vec![(
            "ax".to_string(),
            FrameValue { value_type: Some("word".to_string()), group: None, value: JsonValue::Number("7".to_string()) },
        )],
        locals: Vec::new(),
        objects: Vec::new(),
    };
    let json = frame_json(frame, &inventory);
    assert_eq!(
        entry_keys(&json),
        vec!["file", "function", "handle", "kind", "line", "name", "registers", "span_id"]
    );
    assert_eq!(entry(&json, "name"), Some(&JsonValue::String("AppStart".to_string())));
    assert_eq!(entry(&json, "line"), Some(&JsonValue::Number("42".to_string())));
    assert_eq!(entry(&json, "kind"), Some(&JsonValue::String("pcgeos-frame".to_string())));
    let handle = entry(&json, "handle").unwrap();
    assert_eq!(entry(handle, "segment"), Some(&JsonValue::String("0x2b40".to_string())));
    assert_eq!(entry(handle, "attached"), Some(&JsonValue::Bool(true)));
    let registers = entry(&json, "registers").unwrap();
    let ax = entry(registers, "ax").unwrap();
    assert_eq!(entry_keys(ax), vec!["type", "value"]);
    assert_eq!(entry(ax, "value"), Some(&JsonValue::Number("7".to_string())));
}

#[test]
fn inventory_and_source_artifacts_list_their_records() {
    let inventory = inventory_with_handle();
    let json = inventory_json(&inventory);
    assert_eq!(
        entry_keys(&json),
        vec!["handles", "kind", "objects", "patients", "resources", "runtime", "source_files"]
    );
    assert_eq!(entry(&json, "kind"), Some(&JsonValue::String("pcgeos-inventory".to_string())));
    match entry(&json, "handles") {
        Some(JsonValue::Array(items)) => {
            assert_eq!(items.len(), 1);
            assert_eq!(entry(&items[0], "id"), Some(&JsonValue::String("app:0x2b40".to_string())));
        }
        other => panic!("unexpected handles {other:?}"),
    }
    let source = source_file_json(&"app.goc".to_string());
    assert_eq!(entry_keys(&source), vec!["file", "kind", "line"]);
    assert_eq!(entry(&source, "line"), Some(&JsonValue::Number("1".to_string())));
}
