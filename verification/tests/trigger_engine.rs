use swat::control::{Trigger, TriggerAction, TriggerPredicate};
use swat::model::{EventKind, TriggerId};
use swat::trigger_engine::TriggerEngine;
use swat::until::{until_resume_refused, until_step, until_summary, until_trigger, UntilAction};
use swat::eval::{predicate_matches, ArtifactFacts, ValueWatchKey, WatchedValue};
use swat::expr::{parse_expression, QueriedValue};
use swat::model::{CausalityLink, EventEnvelope, EventId, EventPayload, SessionId, TargetId, Timestamp};
use swat::persist::{
    format_loaded_trigger_line, restore_triggers, PersistedPredicateSpec, PersistedTriggerAction, PersistedTriggerFile,
    PersistedTriggerGroupSpec, PersistedTriggerSpec,
};

fn trigger(id: u64, name: &str) -> Trigger {
    Trigger::new(
        TriggerId(id),
        name.to_string(),
        TriggerPredicate::EventKindIs(EventKind::Lifecycle),
        vec![TriggerAction::PauseTarget],
    )
}

#[test]
fn groups_get_policies_while_they_have_triggers() {
    let mut engine = TriggerEngine::new()
        .with_trigger(trigger(1, "a").in_group("g1".to_string()))
        .with_trigger(trigger(2, "b").in_group("g1".to_string()))
        .with_trigger(trigger(3, "c"));
    engine.add_trigger(trigger(4, "d").in_group("g0".to_string()));
    let policies = engine.group_policies();
    assert_eq!(policies.len(), 2);
    assert_eq!(policies[0].name, "g0");
    assert!(policies[0].enabled);
    assert_eq!(policies[1].name, "g1");

    assert_eq!(engine.set_group_enabled("g1", false), Some(true));
    assert_eq!(engine.group_enabled("g1"), Some(false));
    assert_eq!(engine.set_group_enabled("nope", false), None);
    assert_eq!(engine.group_enabled("nope"), None);

    let removed = engine.remove_trigger(TriggerId(1)).unwrap();
    assert_eq!(removed.name, "a");
    assert_eq!(engine.group_enabled("g1"), Some(false));
    engine.remove_trigger(TriggerId(2)).unwrap();
    assert_eq!(engine.group_enabled("g1"), None);
    assert!(engine.remove_trigger(TriggerId(2)).is_none());
    assert_eq!(engine.triggers().len(), 2);
    assert_eq!(engine.triggers()[0].name, "c");
}

#[test]
fn re_adding_a_group_arms_it_again() {
    let mut engine = TriggerEngine::new();
    engine.add_trigger(trigger(7, "x").in_group("g".to_string()));
    engine.set_group_enabled("g", false);
    engine.remove_trigger(TriggerId(7));
    engine.add_trigger(trigger(8, "y").in_group("g".to_string()));
    assert_eq!(engine.group_enabled("g"), Some(true));
}

#[test]
fn set_enabled_reports_the_previous_state() {
    let mut engine = TriggerEngine::new().with_trigger(trigger(5, "e"));
    assert_eq!(engine.set_enabled(TriggerId(5), false), Some(true));
    assert!(!engine.triggers()[0].enabled);
    assert_eq!(engine.set_enabled(TriggerId(5), false), Some(false));
    assert_eq!(engine.set_enabled(TriggerId(6), true), None);
}

#[test]
fn predicate_library_keeps_one_predicate_per_name() {
    let mut engine = TriggerEngine::new();
    assert!(engine
        .define_predicate("exit".to_string(), TriggerPredicate::EventKindIs(EventKind::Lifecycle))
        .is_none());
    let previous = engine.define_predicate(
        "exit".to_string(),
        TriggerPredicate::SummaryContains("exited".to_string()),
    );
    assert_eq!(previous, Some(TriggerPredicate::EventKindIs(EventKind::Lifecycle)));
    engine.define_predicate("a".to_string(), TriggerPredicate::Named("exit".to_string()));
    assert_eq!(engine.predicate_names(), vec!["a", "exit"]);
    assert_eq!(
        engine.predicate("exit"),
        Some(&TriggerPredicate::SummaryContains("exited".to_string()))
    );
    assert_eq!(
        engine.remove_predicate("a"),
        Some(TriggerPredicate::Named("exit".to_string()))
    );
    assert_eq!(engine.remove_predicate("a"), None);
    assert_eq!(engine.predicate_names(), vec!["exit"]);
}

#[test]
fn watchpoint_descriptors_follow_names_and_conjunctions() {
    let mut engine = TriggerEngine::new();
    engine.define_predicate(
        "counter".to_string(),
        TriggerPredicate::ValueChanged { value_key: "count".to_string(), path: Some("$.n".to_string()) },
    );
    let all = TriggerPredicate::All(vec![
        TriggerPredicate::Named("counter".to_string()),
        TriggerPredicate::ObservedAfter { millis: 250 },
        TriggerPredicate::SummaryContains("tick".to_string()),
    ]);
    let d = engine.extract_watchpoint_descriptor(&all).unwrap();
    assert_eq!(d.value_key.as_deref(), Some("count"));
    assert_eq!(d.path.as_deref(), Some("$.n"));
    assert_eq!(d.after_millis, Some(250));
    assert_eq!(d.event_kind, None);
    assert_eq!(d.summary_contains.as_deref(), Some("tick"));

    let clash = TriggerPredicate::All(vec![
        TriggerPredicate::ObservedAfter { millis: 1 },
        TriggerPredicate::ObservedAfter { millis: 2 },
        TriggerPredicate::Named("counter".to_string()),
    ]);
    assert!(engine.extract_watchpoint_descriptor(&clash).is_none());
    let no_value = TriggerPredicate::All(vec![TriggerPredicate::EventKindIs(EventKind::Lifecycle)]);
    assert!(engine.extract_watchpoint_descriptor(&no_value).is_none());
    assert!(engine
        .extract_watchpoint_descriptor(&TriggerPredicate::Named("missing".to_string()))
        .is_none());
    let kind = engine
        .extract_watchpoint_descriptor(&TriggerPredicate::EventKindIs(EventKind::Lifecycle))
        .unwrap();
    assert_eq!(kind.event_kind, Some(EventKind::Lifecycle));
    assert!(engine
        .extract_watchpoint_descriptor(&TriggerPredicate::SummaryContains("x".to_string()))
        .is_some());
    assert!(engine
        .extract_watchpoint_descriptor(&TriggerPredicate::ArtifactUtf8Contains("x".to_string()))
        .is_none());
}

fn saved_trigger(name: &str, expr: Option<&str>, predicate_ref: Option<&str>, group: Option<&str>) -> PersistedTriggerSpec {
    PersistedTriggerSpec {
        name: name.to_string(),
        expr: expr.map(|e| e.to_string()),
        predicate_ref: predicate_ref.map(|p| p.to_string()),
        watchpoint: None,
        fire_once: false,
        enabled: true,
        group: group.map(|g| g.to_string()),
        actions: vec![PersistedTriggerAction::PauseTarget],
    }
}

#[test]
fn restoring_a_trigger_file_replaces_the_engine() {
    let file = PersistedTriggerFile {
        format_version: 4,
        predicates: vec![PersistedPredicateSpec { name: "lifecycle".to_string(), expr: "kind == Lifecycle".to_string() }],
        groups: vec![
            PersistedTriggerGroupSpec { name: "g".to_string(), enabled: false },
            PersistedTriggerGroupSpec { name: "absent".to_string(), enabled: false },
        ],
        triggers: vec![
            saved_trigger("named", None, Some("lifecycle"), Some("g")),
            saved_trigger("direct", Some("kind == ModelBoundary"), None, None),
        ],
    };
    let mut engine = TriggerEngine::new().with_trigger(trigger(99, "old"));
    let out = restore_triggers(&mut engine, &file, &vec![TriggerId(10), TriggerId(11)]).unwrap();
    assert_eq!(out.summary, "loaded 2 trigger(s)");
    assert_eq!(out.lines.len(), 5);
    assert_eq!(out.lines[0], "predicate=lifecycle expr=\"kind == Lifecycle\"");
    assert_eq!(out.lines[1], format_loaded_trigger_line(TriggerId(10), &file.triggers[0]));
    assert!(out.lines[1].starts_with("trigger=10 name=named "));
    assert!(out.lines[2].starts_with("trigger=11 name=direct "));
    assert_eq!(out.lines[3], "group=g enabled=false");
    assert_eq!(out.lines[4], "group=absent enabled=false");
    assert_eq!(engine.triggers().len(), 2);
    assert_eq!(engine.triggers()[0].trigger_id, TriggerId(10));
    assert_eq!(engine.triggers()[1].trigger_id, TriggerId(11));
    assert_eq!(engine.group_enabled("g"), Some(false));
    assert_eq!(engine.group_enabled("absent"), None);
    assert!(engine.predicate("lifecycle").is_some());
}

#[test]
fn restoring_stops_at_the_first_error() {
    let mut engine = TriggerEngine::new().with_trigger(trigger(99, "old"));
    let bad_version = PersistedTriggerFile { format_version: 9, predicates: vec![], groups: vec![], triggers: vec![] };
    assert_eq!(
        restore_triggers(&mut engine, &bad_version, &vec![]).unwrap_err().to_string(),
        "unsupported trigger file format version 9"
    );
    assert_eq!(engine.triggers().len(), 1);
    let missing = PersistedTriggerFile {
        format_version: 1,
        predicates: vec![],
        groups: vec![],
        triggers: vec![saved_trigger("lost", None, None, None)],
    };
    assert_eq!(
        restore_triggers(&mut engine, &missing, &vec![TriggerId(1)]).unwrap_err().to_string(),
        "trigger lost is missing a condition"
    );
}

#[test]
fn until_adds_a_fire_once_pausing_trigger() {
    assert_eq!(
        until_trigger(TriggerId(5), false, "kind == Lifecycle").unwrap_err().to_string(),
        "active target cannot resume execution, so 'until' is unavailable"
    );
    assert!(until_trigger(TriggerId(5), true, "kind ==").is_err());
    let t = until_trigger(TriggerId(5), true, "kind == Lifecycle").unwrap();
    assert_eq!(t.trigger_id, TriggerId(5));
    assert_eq!(t.name, "until \"kind == Lifecycle\"");
    assert!(t.fire_once && t.enabled);
    assert_eq!(t.actions, vec![TriggerAction::PauseTarget]);
    assert!(matches!(t.predicate, TriggerPredicate::Expr(_)));
}

#[test]
fn until_decides_after_each_pump() {
    assert_eq!(until_step(true, true, true, true), UntilAction::Matched);
    assert_eq!(until_step(false, true, true, true), UntilAction::Exited);
    assert_eq!(until_step(false, false, true, false), UntilAction::Resume { then_wait: true });
    assert_eq!(until_step(false, false, false, true), UntilAction::Pump { wait: false });
    assert_eq!(until_step(false, false, false, false), UntilAction::Pump { wait: true });
    assert_eq!(until_summary(true, 3), "until matched after 3 pump(s)");
    assert_eq!(until_summary(false, 1), "until stopped after target exit without a match after 1 pump(s)");
    assert_eq!(until_resume_refused(true, "busy"), "until could not resume target: busy");
    assert_eq!(until_resume_refused(false, "busy"), "until stopped because the target could not resume: busy");
}

fn value_event(key: &str, summary: &str, observed_at: u64) -> EventEnvelope {
    EventEnvelope {
        event_id: EventId(1),
        session_id: SessionId(1),
        target_id: TargetId(1),
        sequence_no: 7,
        observed_at: Timestamp(observed_at),
        kind: EventKind::StateMutation,
        causality: CausalityLink { parent_event_id: None, correlation_id: None },
        payload: EventPayload::Value { value_key: key.to_string(), summary: summary.to_string() },
        artifact_refs: Vec::new(),
    }
}

#[test]
fn predicates_decide_when_triggers_fire() {
    let mut engine = TriggerEngine::new();
    engine.define_predicate("state".to_string(), TriggerPredicate::EventKindIs(EventKind::StateMutation));
    engine.define_predicate("loop".to_string(), TriggerPredicate::Named("loop".to_string()));
    let event = value_event("agent.state", "2", 1500);
    let facts: Vec<ArtifactFacts> = Vec::new();
    let watched = vec![(
        ValueWatchKey { value_key: "agent.state".to_string(), path: None },
        WatchedValue::Text("1".to_string()),
    )];
    let mut pending = Vec::new();
    let mut visiting = Vec::new();
    let mut holds = |p: &TriggerPredicate, pending: &mut Vec<(ValueWatchKey, WatchedValue)>| {
        predicate_matches(p, &event, &facts, &engine, Some(Timestamp(1000)), &watched, pending, &mut visiting)
    };
    assert!(holds(&TriggerPredicate::Named("state".to_string()), &mut pending));
    assert!(!holds(&TriggerPredicate::Named("loop".to_string()), &mut pending));
    assert!(!holds(&TriggerPredicate::Named("missing".to_string()), &mut pending));
    assert!(holds(&TriggerPredicate::ObservedAfter { millis: 500 }, &mut pending));
    assert!(!holds(&TriggerPredicate::ObservedAfter { millis: 501 }, &mut pending));
    assert!(holds(&TriggerPredicate::SummaryContains("2".to_string()), &mut pending));
    assert!(holds(
        &TriggerPredicate::All(vec![
            TriggerPredicate::EventKindIs(EventKind::StateMutation),
            TriggerPredicate::Expr(parse_expression("value.key == \"agent.state\"").unwrap()),
        ]),
        &mut pending
    ));
    assert!(!holds(&TriggerPredicate::Any(vec![]), &mut pending));
    assert!(pending.is_empty());
    let changed = TriggerPredicate::ValueChanged { value_key: "agent.state".to_string(), path: None };
    assert!(holds(&changed, &mut pending));
    assert_eq!(pending.len(), 1);
    assert_eq!(pending[0].1, WatchedValue::Text("2".to_string()));
    assert!(!holds(&TriggerPredicate::ValueChanged { value_key: "other".to_string(), path: None }, &mut pending));
    assert_eq!(pending.len(), 1);
}

#[test]
fn artifact_predicates_read_the_artifact_facts() {
    let engine = TriggerEngine::new();
    let event = value_event("k", "s", 0);
    let facts = vec![ArtifactFacts {
        text: Some("hello world".to_string()),
        detail: Some("detail".to_string()),
        json: None,
        paths: vec![("$.tool".to_string(), QueriedValue::String("search".to_string()))],
    }];
    let mut pending = Vec::new();
    let mut visiting = Vec::new();
    let mut holds = |p: &TriggerPredicate| {
        predicate_matches(p, &event, &facts, &engine, None, &Vec::new(), &mut pending, &mut visiting)
    };
    assert!(holds(&TriggerPredicate::ArtifactUtf8Contains("world".to_string())));
    assert!(holds(&TriggerPredicate::ArtifactJsonPathExists("$.tool".to_string())));
    assert!(!holds(&TriggerPredicate::ArtifactJsonPathExists("$.args".to_string())));
    assert!(holds(&TriggerPredicate::ArtifactJsonPathEquals {
        path: "$.tool".to_string(),
        expected: QueriedValue::String("search".to_string()),
    }));
    assert!(!holds(&TriggerPredicate::ObservedAfter { millis: 0 }));
    assert!(holds(&TriggerPredicate::Expr(parse_expression("artifact.json $.tool == \"search\"").unwrap())));
    assert!(holds(&TriggerPredicate::ValueChanged { value_key: "k".to_string(), path: None }) == false);
}
