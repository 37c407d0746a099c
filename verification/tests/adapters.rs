use swat::adapter_agent::{
    agent_descriptor, agent_profile, agent_record_summary, correlation_id, determinism_for_record,
    record_agent_line, record_protocol_error, record_structured, verdict_for_record,
    AgentRuntimeSpec, BoundaryTracker,
};
use swat::adapter_local::{local_process_descriptor, local_process_profile, record_chunk, LocalProcessSpec};
use swat::adapter_python::{
    python_descriptor, python_profile, python_trace_summary, record_python_line, record_trace,
    trace_payload, PythonAdapterSpec, PythonEntry, PythonTraceRecord,
};
use swat::agent_protocol::{AgentEventKind, AgentEventRecord};
use swat::mock::{MockAdapter, MOCK_DECISION_JSON};
use swat::model::{
    AdapterEmission, ArtifactBinding, ArtifactEncoding, ArtifactId, ArtifactRef, ArtifactAccess,
    BoundaryId, BoundaryReplayDirective, ControlAction, DeterminismClass, EventKind, EventPayload,
    PolicyVerdict, TargetAdapter, TargetId,
};
use swat::process::{OutputStream, ProcessSignal, ProcessState};

fn text_of(payload: &EventPayload) -> String {
    match payload {
        EventPayload::Text { summary } => summary.clone(),
        EventPayload::Value { summary, .. } => summary.clone(),
        EventPayload::Boundary { summary, .. } => summary.clone(),
        EventPayload::Control { summary, .. } => summary.clone(),
        other => panic!("unexpected payload {other:?}"),
    }
}

#[test]
fn mock_adapter_observes_then_replays_its_boundary() {
    let mut adapter = MockAdapter::new(TargetId(9), "mock-target".to_string());
    assert!(adapter.poll().is_err());
    let attach = adapter.attach().unwrap();
    assert_eq!(attach.descriptor.adapter_name, "swat-adapter-mock");
    assert_eq!(attach.descriptor.target_name, "mock-target");
    assert_eq!(text_of(&attach.initial_emission.pending_events[0].payload), "mock adapter attached");
    assert!(adapter.attach().is_err());

    assert!(adapter.poll().unwrap().is_empty());
    let resumed = adapter.control(ControlAction::Resume).unwrap();
    assert!(resumed.response.accepted);
    assert_eq!(resumed.response.summary, "mock target resumed");

    let first = adapter.poll().unwrap();
    assert_eq!(text_of(&first.pending_events[0].payload), "mock execution tick 1");
    let second = adapter.poll().unwrap();
    assert_eq!(second.pending_events.len(), 2);
    assert_eq!(second.pending_artifacts[0].bytes, MOCK_DECISION_JSON.as_bytes().to_vec());
    assert_eq!(second.pending_events[1].kind, EventKind::ModelBoundary);
    assert_eq!(text_of(&second.pending_events[1].payload), "mock model boundary observed");

    let artifact_ref = ArtifactRef {
        artifact_id: ArtifactId(77),
        media_type: "application/json".to_string(),
        encoding: ArtifactEncoding::Json,
        size_hint: None,
        access: ArtifactAccess::Lazy,
    };
    let mut replayed = MockAdapter::new(TargetId(10), "again".to_string());
    replayed.attach().unwrap();
    let prepared = replayed
        .inject_boundary_replay(BoundaryReplayDirective { boundary_id: BoundaryId(42), artifact_ref: artifact_ref.clone() })
        .unwrap();
    assert_eq!(text_of(&prepared.pending_events[0].payload), "prepared replay for boundary 42");
    replayed.control(ControlAction::Resume).unwrap();
    replayed.poll().unwrap();
    let tick2 = replayed.poll().unwrap();
    assert_eq!(tick2.pending_events.len(), 3);
    assert!(tick2.pending_artifacts.is_empty());
    assert_eq!(text_of(&tick2.pending_events[1].payload), "replay boundary 42 injected with artifact 77");
    assert_eq!(tick2.pending_events[2].artifacts, vec![ArtifactBinding::Existing(artifact_ref)]);

    let snap = replayed.control(ControlAction::CreateSnapshot { reason: "why".to_string() }).unwrap();
    assert_eq!(snap.response.summary, "mock snapshot requested: why");
}

#[test]
fn process_state_decides_controls_and_exits() {
    let spec = LocalProcessSpec::new("python3".to_string()).with_args(vec!["-c".to_string(), "print(1)".to_string()]);
    assert_eq!(spec.command_summary(), "python3 -c print(1)");
    assert_eq!(LocalProcessSpec::new("ls".to_string()).command_summary(), "ls");
    let descriptor = local_process_descriptor(&spec, TargetId(3));
    assert_eq!(descriptor.target_name, "python3 -c print(1)");
    assert_eq!(descriptor.runtime, "local-process");

    let mut state = ProcessState::new(local_process_profile(), descriptor);
    assert_eq!(state.ensure_attached().unwrap_err().to_string(), "local process adapter is not attached");
    state.check_attach().unwrap();
    let attach = state.complete_attach(1234, Some(spec.command_summary()));
    assert_eq!(
        text_of(&attach.initial_emission.pending_events[0].payload),
        "spawned local process pid=1234 cmd=python3 -c print(1)"
    );
    assert_eq!(state.check_attach().unwrap_err().to_string(), "local process adapter already attached");

    assert_eq!(state.control_signal(&ControlAction::Pause), Some(ProcessSignal::Stop));
    let paused = state.finish_control(ControlAction::Pause);
    assert!(paused.response.accepted && state.is_paused());
    assert_eq!(paused.response.summary, "local process paused");
    let step = state.finish_control(ControlAction::Step);
    assert!(!step.response.accepted);
    assert_eq!(step.response.summary, "step is not supported for local processes");

    let exit = state.record_exit(Some(-3));
    assert_eq!(text_of(&exit.payload), "local process exited with code -3");
    assert!(state.exit_emitted() && !state.is_paused());
    assert_eq!(state.control_signal(&ControlAction::Resume), None);
    assert_eq!(state.finish_control(ControlAction::Resume).response.summary, "local process already exited");
    assert_eq!(
        state.refuse_replay().unwrap_err().to_string(),
        "local process adapter does not support replay boundary injection"
    );

    let mut emission = AdapterEmission::empty();
    record_chunk(&mut state, OutputStream::Stdout, b"hello\n".to_vec(), &mut emission);
    record_chunk(&mut state, OutputStream::Stderr, vec![0xff, 0xfe], &mut emission);
    assert_eq!(emission.pending_artifacts[0].encoding, ArtifactEncoding::Utf8);
    assert_eq!(emission.pending_artifacts[1].encoding, ArtifactEncoding::Binary);
    assert_eq!(emission.pending_artifacts[1].alias.0, 2);
    assert_eq!(text_of(&emission.pending_events[0].payload), "captured stdout chunk (6 bytes)");
}

#[test]
fn python_specs_and_trace_records() {
    let spec = PythonAdapterSpec::script("/tmp/run.py".to_string())
        .with_cwd("/tmp".to_string())
        .with_env("A".to_string(), "1".to_string());
    assert_eq!(spec.entry, PythonEntry::ScriptPath("/tmp/run.py".to_string()));
    assert_eq!(spec.target_name(), "python:/tmp/run.py");
    assert_eq!(PythonAdapterSpec::inline("x = 1".to_string()).target_name(), "python:inline");
    assert_eq!(spec.env, vec![("A".to_string(), "1".to_string())]);
    assert_eq!(python_descriptor(&spec, TargetId(1)).adapter_name, "swat-adapter-python");

    let record = PythonTraceRecord {
        kind: "call".to_string(),
        function: Some("main".to_string()),
        file: Some("run.py".to_string()),
        line: Some(3),
        return_type: None,
        exception_type: None,
        message: None,
    };
    assert_eq!(python_trace_summary(&record), "python call main at run.py:3");
    let odd = PythonTraceRecord { kind: "line".to_string(), function: None, file: None, line: None, ..record.clone() };
    assert_eq!(python_trace_summary(&odd), "python trace line <unknown> at <unknown>:0");
    assert_eq!(trace_payload("__SWATPY__{}"), Some("{}"));
    assert_eq!(trace_payload("print"), None);

    let mut state = ProcessState::new(python_profile(), python_descriptor(&spec, TargetId(1)));
    state.complete_attach(5, None);
    let mut emission = AdapterEmission::empty();
    record_trace(&mut state, &record, b"{\"kind\":\"call\"}".to_vec(), &mut emission);
    record_python_line(&mut state, OutputStream::Stderr, "oops".to_string(), &mut emission);
    assert_eq!(emission.pending_events[0].kind, EventKind::Execution);
    match &emission.pending_events[1].payload {
        EventPayload::Value { value_key, summary } => {
            assert_eq!(value_key, "python.stderr");
            assert_eq!(summary, "captured python stderr line");
        }
        other => panic!("unexpected payload {other:?}"),
    }
    assert_eq!(emission.pending_artifacts[1].bytes, b"oops".to_vec());
}

#[test]
fn agent_records_become_events_with_stable_boundaries() {
    let spec = AgentRuntimeSpec::new("python3".to_string()).with_args(vec!["agent.py".to_string()]);
    assert_eq!(spec.command_summary(), "python3 agent.py");
    assert_eq!(spec.event_prefix, "__SWATAGENT__");
    let mut state = ProcessState::new(agent_profile(), agent_descriptor(&spec, TargetId(2)));
    state.complete_attach(7, Some(spec.command_summary()));
    let mut tracker = BoundaryTracker::new();
    let mut emission = AdapterEmission::empty();

    let request = AgentEventRecord::model("gpt".to_string())
        .with_phase("request".to_string())
        .with_span_id("model-1".to_string());
    let response = AgentEventRecord::model("gpt".to_string())
        .with_phase("response".to_string())
        .with_span_id("model-1".to_string());
    assert_eq!(agent_record_summary(&request), "agent model request gpt");
    record_structured(&mut state, &mut tracker, &request, b"{}".to_vec(), &mut emission);
    record_structured(&mut state, &mut tracker, &response, b"{}".to_vec(), &mut emission);
    record_structured(&mut state, &mut tracker, &request, b"{}".to_vec(), &mut emission);
    let ids: Vec<BoundaryId> = emission
        .pending_events
        .iter()
        .map(|e| match &e.payload {
            EventPayload::Boundary { boundary_id, determinism, .. } => {
                assert_eq!(*determinism, DeterminismClass::ExternalBoundary);
                *boundary_id
            }
            other => panic!("unexpected payload {other:?}"),
        })
        .collect();
    assert_eq!(ids, vec![BoundaryId(1), BoundaryId(1), BoundaryId(2)]);
    assert_eq!(emission.pending_events[0].causality.correlation_id.as_deref(), Some("model-1"));

    let policy = AgentEventRecord::policy("guard".to_string()).with_status("blocked".to_string());
    assert_eq!(verdict_for_record(&policy), PolicyVerdict::Deny);
    assert_eq!(agent_record_summary(&policy), "agent policy update guard status=blocked");
    let det = AgentEventRecord::tool("t".to_string()).with_determinism("replay-only".to_string());
    assert_eq!(determinism_for_record(&det), DeterminismClass::ReplayOnly);
    let corr = AgentEventRecord::new(AgentEventKind::Log).with_correlation_id("req-1".to_string());
    assert_eq!(correlation_id(&corr).as_deref(), Some("req-1"));

    record_agent_line(&mut state, OutputStream::Stdout, "hi".to_string(), &mut emission);
    record_protocol_error(&mut state, "__SWATAGENT__{".to_string(), "bad json", &mut emission);
    assert_eq!(text_of(&emission.pending_events[4].payload), "agent protocol error: bad json");
    assert_eq!(emission.pending_artifacts.len(), 5);
    assert_eq!(emission.pending_artifacts[4].alias.0, 5);
}

#[test]
fn defaults_match_the_empty_values() {
    assert_eq!(swat::model::CapabilitySet::default(), swat::model::CapabilitySet::none());
    assert!(swat::model::AdapterEmission::default().is_empty());
    let link = swat::model::CausalityLink::default();
    assert_eq!(link.parent_event_id, None);
    assert_eq!(link.correlation_id, None);
    assert!(swat::model::Timestamp::default().as_millis() > 0);
}
