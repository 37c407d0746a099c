use swat::command::BreakpointConditionInput;
use swat::api::{
    BreakpointActivity, BreakpointDisposition, BreakpointLifetime, BreakpointState, BreakpointSummary,
    StackFrame, WatchpointSpec, WatchpointSummary,
};
use swat::cli::{
    history_entries, history_text, join_path, parse_cli, persisted_command_history_path, shell_step,
    CliOutcome, Mode, ShellStep,
};
use swat::command::{parse_command, Command, CommandSurface};
use swat::control::{
    breakpoint_disposition, build_watchpoint_trigger, control_allowed, format_trigger_action,
    merge_watchpoint_descriptor, StopReason, StopReasonKind, TriggerAction, TriggerMatch,
    TriggerPredicate, WatchpointDescriptor,
};
use swat::format::{
    format_breakpoint_summary, format_event_line, format_stack_frame_detail,
    format_stack_frame_summary, format_stop_reason, format_trigger_match, format_watchpoint_summary,
};
use swat::model::{
    BoundaryId, CapabilitySet, CausalityLink, ControlAction, EventEnvelope, EventId, EventKind,
    EventPayload, SessionId, SnapshotId, TargetId, Timestamp, TriggerId,
};
use swat::persist::{
    build_trigger_from_spec, check_trigger_file_version, format_persisted_trigger_actions,
    format_watchpoint_spec_line, persisted_watchpoint_trigger_spec, PersistedTriggerAction,
    PersistedTriggerSpec,
};
use swat::registry::{find_command, format_synopsis, overview_lines, CommandDescriptor, CommandFamily};
use swat::help::{
    command_completions, command_help, command_registry, command_search, family_registry, ScriptExport, ScriptPackageInfo,
};

fn summary() -> BreakpointSummary {
    BreakpointSummary {
        trigger_id: TriggerId(4),
        name: "pause_search".to_string(),
        group: Some("net".to_string()),
        group_enabled: Some(true),
        configured_state: BreakpointState::Enabled,
        predicate_name: None,
        predicate: "kind == ModelBoundary".to_string(),
        actions: vec!["PauseTarget".to_string(), "CreateSnapshot(\"x\")".to_string()],
        state: BreakpointState::Enabled,
        lifetime: BreakpointLifetime::Persistent,
        disposition: BreakpointDisposition::Mixed,
        activity: BreakpointActivity::Hit,
        hit_count: 1,
        last_hit_event_id: Some(EventId(12)),
        last_hit_sequence_no: None,
    }
}

#[test]
fn parse_command_understands_aliases() {
    assert_eq!(parse_command("stack").unwrap(), Command::Spans);
    assert_eq!(
        parse_command("help search break").unwrap(),
        Command::HelpSearch { needle: "break".to_string() }
    );
    assert_eq!(parse_command("stack frame 0").unwrap(), Command::Frame { frame_index: 0 });
    assert_eq!(parse_command("stack show 42").unwrap(), Command::Span { boundary_id: BoundaryId(42) });
    assert_eq!(
        parse_command("source show 7 1 3").unwrap(),
        Command::Source { event_id: EventId(7), before: 1, after: 3 }
    );
    assert_eq!(
        parse_command("source view /tmp/agent.py 4 1 2").unwrap(),
        Command::SourceView { file: "/tmp/agent.py".to_string(), line: 4, before: 1, after: 2 }
    );
    assert_eq!(parse_command("breakpoint list").unwrap(), Command::Breakpoints);
    assert_eq!(
        parse_command("breakpoint disable 9").unwrap(),
        Command::TriggerDisable { trigger_id: TriggerId(9) }
    );
    assert_eq!(parse_command("snapshot-show 3").unwrap(), Command::SnapshotShow { snapshot_id: SnapshotId(3) });
    assert!(parse_command("frobnicate").is_err());
}

#[test]
fn formats_events_matches_and_breakpoints() {
    let event = EventEnvelope {
        event_id: EventId(5),
        session_id: SessionId(1),
        target_id: TargetId(2),
        sequence_no: 9,
        observed_at: Timestamp(0),
        kind: EventKind::ModelBoundary,
        causality: CausalityLink { parent_event_id: None, correlation_id: None },
        payload: EventPayload::Empty,
        artifact_refs: Vec::new(),
    };
    assert_eq!(format_event_line(&event), "event=5 seq=9 kind=ModelBoundary summary=<none>");

    let hit = TriggerMatch {
        trigger_id: TriggerId(4),
        trigger_name: "pause_search".to_string(),
        group: None,
        predicate_name: Some("search".to_string()),
        event_id: EventId(5),
        sequence_no: 9,
        summary: String::new(),
        actions: vec![TriggerAction::PauseTarget],
    };
    assert_eq!(format_trigger_match(&hit), "trigger=4 name=pause_search event=5 seq=9 predicate=search");

    assert_eq!(
        format_breakpoint_summary(&summary()),
        "bp=4 state=enabled configured=enabled lifetime=persistent disposition=mixed hits=1 last_event=12 last_seq=- name=pause_search group=net predicate=inline actions=PauseTarget,CreateSnapshot(\"x\") when=kind == ModelBoundary"
    );
    let watch = WatchpointSummary {
        breakpoint: summary(),
        value_key: "agent.state".to_string(),
        path: Some("$.count".to_string()),
        after_millis: None,
        event_kind: Some(EventKind::StateMutation),
        summary_contains: None,
    };
    assert!(format_watchpoint_summary(&watch).ends_with(
        "value_key=agent.state path=$.count after=- kind=StateMutation summary=- actions=PauseTarget,CreateSnapshot(\"x\")"
    ));

    let stop = StopReason {
        kind: StopReasonKind::ControlRejected,
        summary: "no".to_string(),
        trigger_id: None,
        trigger_name: None,
        group: None,
        event_id: None,
        sequence_no: None,
        control_action: Some(ControlAction::CreateSnapshot { reason: "r".to_string() }),
    };
    assert_eq!(
        format_stop_reason(&stop),
        "stop kind=control_rejected action=CreateSnapshot { reason: \"r\" } summary=no"
    );
}

#[test]
fn formats_stack_frames() {
    let frame = StackFrame {
        frame_index: 0,
        depth: 1,
        boundary_id: BoundaryId(3),
        event_kind: EventKind::ToolBoundary,
        label: "web_search".to_string(),
        event_ids: vec![EventId(1), EventId(2)],
        first_event_id: EventId(1),
        last_event_id: EventId(2),
        sequence_start: 1,
        sequence_end: 2,
        correlation_id: None,
        span_id: Some("tool-1".to_string()),
        function: None,
        source_file: Some("/tmp/agent.py".to_string()),
        source_line: Some(7),
        entry_summary: "tool started".to_string(),
        latest_summary: "tool done".to_string(),
    };
    assert_eq!(
        format_stack_frame_summary(&frame),
        "frame=0 boundary=3 depth=1 kind=ToolBoundary events=2 seq=1..2 label=web_search span=tool-1 source=/tmp/agent.py:7 latest=tool done"
    );
    let detail = format_stack_frame_detail(&frame);
    assert_eq!(detail.len(), 13);
    assert_eq!(detail[9], "correlation=-");
    assert_eq!(detail[12], "source=/tmp/agent.py:7");
}

#[test]
fn trigger_helpers_follow_their_rules() {
    assert_eq!(
        breakpoint_disposition(&vec![TriggerAction::CreateSnapshot { reason: "a".to_string() }]),
        BreakpointDisposition::Snapshot
    );
    assert_eq!(breakpoint_disposition(&vec![]), BreakpointDisposition::Passive);
    assert_eq!(
        format_trigger_action(&TriggerAction::CreateSnapshot { reason: "capture search boundary".to_string() }),
        "CreateSnapshot(\"capture search boundary\")"
    );
    let caps = CapabilitySet::basic_observer();
    assert!(control_allowed(caps, &ControlAction::Step));
    assert!(!control_allowed(CapabilitySet::none(), &ControlAction::Pause));

    let mut d = WatchpointDescriptor::empty();
    let first = WatchpointDescriptor { value_key: Some("k".to_string()), ..WatchpointDescriptor::empty() };
    assert_eq!(merge_watchpoint_descriptor(&mut d, first), Some(()));
    let clash = WatchpointDescriptor { value_key: Some("j".to_string()), ..WatchpointDescriptor::empty() };
    assert_eq!(merge_watchpoint_descriptor(&mut d, clash), None);
    assert_eq!(d.value_key.as_deref(), Some("j"));

    let spec = WatchpointSpec::new("w".to_string(), "agent.state".to_string()).after_millis(5);
    let trigger = build_watchpoint_trigger(TriggerId(1), spec);
    match &trigger.predicate {
        TriggerPredicate::All(parts) => assert_eq!(parts.len(), 2),
        other => panic!("unexpected predicate {other:?}"),
    }
    assert_eq!(trigger.actions, vec![TriggerAction::PauseTarget]);
}

#[test]
fn saved_triggers_round_trip_their_descriptions() {
    assert!(check_trigger_file_version(1).is_ok());
    assert!(check_trigger_file_version(4).is_ok());
    assert_eq!(
        check_trigger_file_version(5).unwrap_err().to_string(),
        "unsupported trigger file format version 5"
    );
    assert_eq!(
        format_persisted_trigger_actions(&vec![
            PersistedTriggerAction::PauseTarget,
            PersistedTriggerAction::CreateSnapshot { reason: "s".to_string() },
        ]),
        "PauseTarget,CreateSnapshot(\"s\")"
    );
    let spec = WatchpointSpec::new("watch".to_string(), "agent.state".to_string())
        .at_path("$.count".to_string())
        .create_snapshot("snap".to_string());
    let saved = persisted_watchpoint_trigger_spec(&spec);
    assert_eq!(
        format_watchpoint_spec_line(TriggerId(3), &saved),
        "watchpoint=3 name=watch fire_once=false enabled=true value_key=agent.state path=$.count after=- kind=- summary=- actions=CreateSnapshot(\"snap\") condition=watch agent.state path=$.count"
    );
    let expr_spec = PersistedTriggerSpec {
        name: "pause_search".to_string(),
        expr: Some("kind == ModelBoundary".to_string()),
        predicate_ref: None,
        watchpoint: None,
        fire_once: true,
        enabled: false,
        group: None,
        actions: vec![PersistedTriggerAction::PauseTarget],
    };
    let trigger = build_trigger_from_spec(TriggerId(8), &expr_spec).unwrap();
    assert!(trigger.fire_once && !trigger.enabled);
    let missing = PersistedTriggerSpec { expr: None, ..expr_spec };
    assert_eq!(
        build_trigger_from_spec(TriggerId(9), &missing).unwrap_err().to_string(),
        "trigger pause_search is missing a condition"
    );
}

#[test]
fn command_line_and_history() {
    let args = |v: &[&str]| v.iter().map(|s| s.to_string()).collect::<Vec<_>>();
    match parse_cli(args(&["--store", "/tmp/s", "local", "python3", "-c", "x"])).unwrap() {
        CliOutcome::Run(config) => {
            assert_eq!(config.store_path.as_deref(), Some("/tmp/s"));
            assert_eq!(
                config.mode,
                Mode::Local { program: "python3".to_string(), args: args(&["-c", "x"]) }
            );
        }
        CliOutcome::Help => panic!("unexpected help"),
    }
    assert_eq!(parse_cli(args(&["help"])).unwrap(), CliOutcome::Help);
    assert!(parse_cli(args(&["mock", "extra"])).unwrap_err().to_string().starts_with("mock mode does not accept a program\nusage:"));
    assert!(parse_cli(args(&["agent"])).unwrap_err().to_string().starts_with("agent mode requires a program"));
    assert!(parse_cli(args(&[])).unwrap_err().to_string().starts_with("missing mode"));

    assert_eq!(shell_step("  quit ").unwrap(), ShellStep::Quit);
    assert_eq!(shell_step("sleep 150").unwrap(), ShellStep::Sleep(150));
    assert!(shell_step("sleep soon").is_err());
    assert_eq!(shell_step("pump").unwrap(), ShellStep::Execute("pump".to_string()));
    assert_eq!(shell_step("   ").unwrap(), ShellStep::Skip);

    assert_eq!(history_entries(" a \n\n b\nc\n", 2), vec!["b".to_string(), "c".to_string()]);
    assert_eq!(history_text(&vec!["a".to_string(), "b".to_string()]), "a\nb\n");
    assert_eq!(history_text(&vec![]), "");
    assert_eq!(join_path("/home/u", ".local"), "/home/u/.local");
    assert_eq!(
        persisted_command_history_path(CommandSurface::Shell, None, None, Some("/home/u")).as_deref(),
        Some("/home/u/.local/state/swat-rs/swat-command.history")
    );
    assert_eq!(
        persisted_command_history_path(CommandSurface::Tui, Some(" /x/h "), None, None).as_deref(),
        Some("/x/h")
    );
}

#[test]
fn registry_lookup_and_overview() {
    let commands = vec![
        CommandDescriptor {
            key: "breakpoint list".to_string(),
            synopsis: "breakpoint list".to_string(),
            summary: "list breakpoints".to_string(),
            aliases: vec!["Breakpoints".to_string()],
            tui_supported: false,
        },
        CommandDescriptor {
            key: "pump".to_string(),
            synopsis: "pump".to_string(),
            summary: "capture events".to_string(),
            aliases: vec![],
            tui_supported: true,
        },
    ];
    let families = vec![CommandFamily {
        topic: "breakpoint".to_string(),
        aliases: vec!["br".to_string()],
        summary: "semantic breakpoints".to_string(),
        commands: vec!["breakpoint list".to_string(), "missing".to_string(), "pump".to_string()],
        notes: vec![],
        examples: vec![],
    }];
    assert_eq!(find_command(&commands, "breakpoints").unwrap().key, "breakpoint list");
    assert!(find_command(&commands, "nothing").is_none());
    assert_eq!(format_synopsis(&commands[0], CommandSurface::Tui), "breakpoint list [shell]");
    let lines = overview_lines(&families, &commands, CommandSurface::Tui);
    assert_eq!(lines[0], "breakpoint: breakpoint list [shell] | pump");
    assert_eq!(lines.len(), 4);
}

#[test]
fn condition_inputs_expose_their_one_part() {
    let expr = BreakpointConditionInput::Expression("kind == lifecycle".to_string());
    assert_eq!(expr.as_expression(), Some("kind == lifecycle"));
    assert_eq!(expr.predicate_ref(), None);
    let named = BreakpointConditionInput::PredicateRef("exit".to_string());
    assert_eq!(named.as_expression(), None);
    assert_eq!(named.predicate_ref(), Some("exit"));
}

#[test]
fn showing_a_watchpoint_lists_its_details() {
    let detail = swat::api::WatchpointDetail {
        watchpoint: WatchpointSummary {
            breakpoint: summary(),
            value_key: "agent.state".to_string(),
            path: Some("$.count".to_string()),
            after_millis: None,
            event_kind: Some(EventKind::Lifecycle),
            summary_contains: None,
        },
        last_hit_event: None,
    };
    let out = swat::format::show_watchpoint_output(TriggerId(4), Some(&detail)).unwrap();
    assert_eq!(out.summary, "watchpoint 4");
    assert_eq!(
        out.lines,
        vec![
            "wp=4 name=pause_search",
            "state=enabled configured=enabled lifetime=persistent disposition=mixed activity=hit",
            "group=net group_enabled=true",
            "value_key=agent.state",
            "path=$.count",
            "after_millis=-",
            "event_kind=Lifecycle",
            "summary_contains=-",
            "actions=PauseTarget,CreateSnapshot(\"x\")",
            "hits=1",
            "last_event=12",
            "last_seq=-",
        ]
    );
    assert_eq!(
        swat::format::show_watchpoint_output(TriggerId(9), None).unwrap_err().to_string(),
        "unknown watchpoint 9"
    );
}

#[test]
fn command_registry_exposes_family_help_and_alias_parsing() {
    let families = family_registry();
    let commands = command_registry();
    let packages: Vec<ScriptPackageInfo> = Vec::new();
    let help = command_help(Some("breakpoint"), CommandSurface::Shell, &families, &commands, &packages, None);
    assert!(help.summary.contains("help breakpoint"));
    assert!(help.lines.iter().any(|line| line.contains("breakpoint add <name> <expr>")));
    assert!(help.lines.iter().any(|line| line.contains("semantic breakpoints")));

    let tui_help = command_help(Some("source"), CommandSurface::Tui, &families, &commands, &packages, None);
    assert!(tui_help.lines.iter().any(|line| line.contains("source file <path>")));
    assert!(command_help(None, CommandSurface::Shell, &families, &commands, &packages, None)
        .lines
        .iter()
        .any(|line| line.contains("help search <needle>")));

    let search = command_search("break", CommandSurface::Tui, &families, &commands, &packages);
    assert!(search.summary.contains("help search break"));
    assert!(search.lines.iter().any(|line| line.contains("topic=breakpoint")));
    assert!(search.lines.iter().any(|line| line.contains("breakpoint list [shell]")));

    let completions = command_completions("help br", CommandSurface::Shell, &families, &commands, &packages);
    assert!(completions.contains(&"help breakpoint".to_string()));
    let tui_completions = command_completions("sou", CommandSurface::Tui, &families, &commands, &packages);
    assert!(tui_completions.contains(&"source show <event_id> [before] [after]".to_string()));

    assert_eq!(parse_command("stack").unwrap(), Command::Spans);
    assert_eq!(
        parse_command("help search break").unwrap(),
        Command::HelpSearch { needle: "break".to_string() }
    );
    assert_eq!(parse_command("stack frame 0").unwrap(), Command::Frame { frame_index: 0 });
    assert_eq!(parse_command("stack show 42").unwrap(), Command::Span { boundary_id: BoundaryId(42) });
    assert_eq!(
        parse_command("source show 7 1 3").unwrap(),
        Command::Source { event_id: EventId(7), before: 1, after: 3 }
    );
    assert_eq!(
        parse_command("source file /tmp/agent.py").unwrap(),
        Command::SourceFile { file: "/tmp/agent.py".to_string() }
    );
    assert_eq!(parse_command("source files").unwrap(), Command::SourceFiles);
    assert_eq!(
        parse_command("source view /tmp/agent.py 4 1 2").unwrap(),
        Command::SourceView { file: "/tmp/agent.py".to_string(), line: 4, before: 1, after: 2 }
    );
    assert_eq!(parse_command("breakpoint list").unwrap(), Command::Breakpoints);
    assert_eq!(
        parse_command("breakpoint show 9").unwrap(),
        Command::BreakpointShow { trigger_id: TriggerId(9) }
    );
    assert_eq!(parse_command("breakpoint groups").unwrap(), Command::BreakpointGroups);
    assert_eq!(
        parse_command("breakpoint disable 9").unwrap(),
        Command::TriggerDisable { trigger_id: TriggerId(9) }
    );
}

#[test]
fn help_search_and_completion_edge_cases() {
    let families = family_registry();
    let commands = command_registry();
    let packages = vec![ScriptPackageInfo {
        name: "stack".to_string(),
        aliases: vec![],
        summary: "stack helpers".to_string(),
        notes: vec!["note".to_string()],
        exports: vec![ScriptExport { name: "frames".to_string(), summary: "list frames".to_string() }],
        legacy_references: vec!["where".to_string()],
    }];
    let blank = command_search("  ", CommandSurface::Shell, &families, &commands, &packages);
    assert_eq!(blank.summary, "help search requires a pattern");
    assert_eq!(blank.lines, vec!["usage: help search <needle>".to_string()]);
    let none = command_search("zzzzqq", CommandSurface::Shell, &families, &commands, &packages);
    assert_eq!(none.lines, vec!["no command topics matched".to_string()]);
    let frames = command_search("FRAMES", CommandSurface::Shell, &families, &commands, &packages);
    assert!(frames.lines.contains(&"script-package=stack aliases= exports=frames legacy=where summary=stack helpers".to_string()));
    let unknown = command_help(Some("nope"), CommandSurface::Shell, &families, &commands, &packages, None);
    assert_eq!(unknown.summary, "unknown help topic nope");
    assert!(unknown.lines[0].starts_with("topics: "));
    let pkg = command_help(Some("stack-pkg"), CommandSurface::Shell, &Vec::new(), &commands, &packages, Some(&packages[0]));
    assert_eq!(pkg.summary, "help stack");
    assert_eq!(pkg.lines, vec!["stack helpers", "note", "exports:", "frames  list frames", "legacy: where"]);
    let all = command_completions("", CommandSurface::Shell, &families, &commands, &packages);
    let mut sorted = all.clone();
    sorted.sort();
    sorted.dedup();
    assert_eq!(all, sorted);
    assert!(all.contains(&"script package load stack".to_string()));
    assert!(!command_completions("", CommandSurface::Tui, &families, &commands, &packages)
        .contains(&"script package load stack".to_string()));
}
