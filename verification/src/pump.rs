//! What one controlled pump of a session reports: the events it stored,
//! what the triggers matched, what the control requests answered, and why
//! the target stopped.
use vstd::prelude::*;
use crate::control::{StopReason, StopReasonKind, TriggerAction, TriggerMatch, is_exit_event, target_exit_summary};
use crate::format::{
    bool_text, event_line, format_event_line, format_stop_reason, format_trigger_match,
    push_bool, stop_reason_line, trigger_match_line,
};
use crate::model::{ControlAction, ControlResponse, EventEnvelope, EventPayload};
use crate::text::{owned, push_str};

verus! {

/// What a control request gave: the target's answer and the events stored
/// for it.
pub struct ControlReport {
    pub response: ControlResponse,
    pub stored_events: Vec<EventEnvelope>,
}

/// One pump with triggers: the events the pump stored, the events the
/// triggers stored, the trigger matches, the control reports and the stop
/// reasons, each in order.
pub struct ControlledPumpReport {
    pub stored_events: Vec<EventEnvelope>,
    pub trigger_events: Vec<EventEnvelope>,
    pub trigger_matches: Vec<TriggerMatch>,
    pub control_reports: Vec<ControlReport>,
    pub stop_reasons: Vec<StopReason>,
}

/// The action of the first control event among `es`.
pub open spec fn first_control_action(es: Seq<EventEnvelope>) -> Option<ControlAction>
    decreases es.len(),
{
    if es.len() == 0 {
        None
    } else {
        match es[0].payload {
            EventPayload::Control { action, .. } => Some(action),
            _ => first_control_action(es.drop_first()),
        }
    }
}

fn copy_action(a: &ControlAction) -> (r: ControlAction)
    ensures
        r == *a,
{
    match a {
        ControlAction::Pause => ControlAction::Pause,
        ControlAction::Resume => ControlAction::Resume,
        ControlAction::Step => ControlAction::Step,
        ControlAction::CreateSnapshot { reason } => ControlAction::CreateSnapshot { reason: reason.clone() },
    }
}

/// The action that a control report's events record, if any.
pub fn control_action_from_report(report: &ControlReport) -> (r: Option<ControlAction>)
    ensures
        r == first_control_action(report.stored_events@),
{
    let ghost es = report.stored_events@;
    let n = report.stored_events.len();
    let mut i: usize = 0;
    assert(es.skip(0) =~= es);
    while i < n
        invariant
            n == es.len(),
            es == report.stored_events@,
            i <= n,
            first_control_action(es) == first_control_action(es.skip(i as int)),
        decreases n - i,
    {
        proof {
            assert(es.skip(i as int)[0] == es[i as int]);
            assert(es.skip(i as int).drop_first() =~= es.skip(i as int + 1));
        }
        match &report.stored_events[i].payload {
            EventPayload::Control { action, .. } => {
                return Some(copy_action(action));
            },
            _ => {},
        }
        i = i + 1;
    }
    None
}

/// Whether an action list pauses the target.
pub open spec fn pauses(actions: Seq<TriggerAction>) -> bool {
    exists|i: int| 0 <= i < actions.len() && actions[i] is PauseTarget
}

/// The stop reason of a match that pauses the target.
pub open spec fn breakpoint_reason(m: TriggerMatch) -> StopReason {
    StopReason {
        kind: StopReasonKind::Breakpoint,
        summary: m.summary,
        trigger_id: Some(m.trigger_id),
        trigger_name: Some(m.trigger_name),
        group: m.group,
        event_id: Some(m.event_id),
        sequence_no: Some(m.sequence_no),
        control_action: Some(ControlAction::Pause),
    }
}

/// The stop reason of a refused control request.
pub open spec fn rejection_reason(r: ControlReport) -> StopReason {
    StopReason {
        kind: StopReasonKind::ControlRejected,
        summary: r.response.summary,
        trigger_id: None,
        trigger_name: None,
        group: None,
        event_id: None,
        sequence_no: None,
        control_action: first_control_action(r.stored_events@),
    }
}

/// The stop reason of an event that reports the target's exit.
pub open spec fn exit_reason(e: EventEnvelope) -> StopReason {
    StopReason {
        kind: StopReasonKind::TargetExit,
        summary: e.payload->Text_summary,
        trigger_id: None,
        trigger_name: None,
        group: None,
        event_id: Some(e.event_id),
        sequence_no: Some(e.sequence_no),
        control_action: None,
    }
}

/// The matches that pause the target, as stop reasons, in order.
pub open spec fn breakpoint_reasons(ms: Seq<TriggerMatch>) -> Seq<StopReason>
    decreases ms.len(),
{
    if ms.len() == 0 {
        seq![]
    } else if pauses(ms.last().actions@) {
        breakpoint_reasons(ms.drop_last()).push(breakpoint_reason(ms.last()))
    } else {
        breakpoint_reasons(ms.drop_last())
    }
}

/// The refused control requests, as stop reasons, in order.
pub open spec fn rejection_reasons(rs: Seq<ControlReport>) -> Seq<StopReason>
    decreases rs.len(),
{
    if rs.len() == 0 {
        seq![]
    } else if !rs.last().response.accepted {
        rejection_reasons(rs.drop_last()).push(rejection_reason(rs.last()))
    } else {
        rejection_reasons(rs.drop_last())
    }
}

/// The events that report the target's exit, as stop reasons, in order.
pub open spec fn exit_reasons(es: Seq<EventEnvelope>) -> Seq<StopReason>
    decreases es.len(),
{
    if es.len() == 0 {
        seq![]
    } else if is_exit_event(es.last()) {
        exit_reasons(es.drop_last()).push(exit_reason(es.last()))
    } else {
        exit_reasons(es.drop_last())
    }
}

/// Why the target stopped: each pausing match, then each refused control
/// request, then each exit among the stored events.
pub open spec fn stop_reasons(stored: Seq<EventEnvelope>, ms: Seq<TriggerMatch>, rs: Seq<ControlReport>) -> Seq<StopReason> {
    breakpoint_reasons(ms) + rejection_reasons(rs) + exit_reasons(stored)
}

fn pauses_target(actions: &Vec<TriggerAction>) -> (r: bool)
    ensures
        r == pauses(actions@),
{
    let n = actions.len();
    let mut i: usize = 0;
    while i < n
        invariant
            n == actions@.len(),
            i <= n,
            forall|j: int| 0 <= j < i ==> !(actions@[j] is PauseTarget),
        decreases n - i,
    {
        if matches!(actions[i], TriggerAction::PauseTarget) {
            return true;
        }
        i = i + 1;
    }
    false
}

/// The stop reasons of a pump, as `stop_reasons` states.
pub fn collect_stop_reasons(
    stored_events: &Vec<EventEnvelope>,
    trigger_matches: &Vec<TriggerMatch>,
    control_reports: &Vec<ControlReport>,
) -> (r: Vec<StopReason>)
    ensures
        r@ == stop_reasons(stored_events@, trigger_matches@, control_reports@),
{
    let mut out: Vec<StopReason> = Vec::new();
    let ghost ms = trigger_matches@;
    let n = trigger_matches.len();
    let mut i: usize = 0;
    while i < n
        invariant
            n == ms.len(),
            ms == trigger_matches@,
            i <= n,
            out@ == breakpoint_reasons(ms.take(i as int)),
        decreases n - i,
    {
        proof {
            assert(ms.take(i as int + 1).drop_last() =~= ms.take(i as int));
        }
        let m = &trigger_matches[i];
        if pauses_target(&m.actions) {
            out.push(StopReason {
                kind: StopReasonKind::Breakpoint,
                summary: m.summary.clone(),
                trigger_id: Some(m.trigger_id),
                trigger_name: Some(m.trigger_name.clone()),
                group: m.group.clone(),
                event_id: Some(m.event_id),
                sequence_no: Some(m.sequence_no),
                control_action: Some(ControlAction::Pause),
            });
        }
        i = i + 1;
    }
    proof {
        assert(ms.take(n as int) =~= ms);
    }
    let ghost b = out@;
    let ghost rs = control_reports@;
    let n = control_reports.len();
    let mut i: usize = 0;
    while i < n
        invariant
            n == rs.len(),
            rs == control_reports@,
            i <= n,
            out@ == b + rejection_reasons(rs.take(i as int)),
        decreases n - i,
    {
        proof {
            assert(rs.take(i as int + 1).drop_last() =~= rs.take(i as int));
        }
        let c = &control_reports[i];
        if !c.response.accepted {
            let reason = StopReason {
                kind: StopReasonKind::ControlRejected,
                summary: c.response.summary.clone(),
                trigger_id: None,
                trigger_name: None,
                group: None,
                event_id: None,
                sequence_no: None,
                control_action: control_action_from_report(c),
            };
            let ghost before = out@;
            out.push(reason);
            proof {
                assert(out@ =~= before.push(rejection_reason(rs[i as int])));
            }
        }
        i = i + 1;
    }
    proof {
        assert(rs.take(n as int) =~= rs);
    }
    let ghost c = out@;
    let ghost es = stored_events@;
    let n = stored_events.len();
    let mut i: usize = 0;
    while i < n
        invariant
            n == es.len(),
            es == stored_events@,
            i <= n,
            out@ == c + exit_reasons(es.take(i as int)),
        decreases n - i,
    {
        proof {
            assert(es.take(i as int + 1).drop_last() =~= es.take(i as int));
        }
        let e = &stored_events[i];
        match target_exit_summary(e) {
            Some(_) => {
                let summary = match &e.payload {
                    EventPayload::Text { summary } => summary.clone(),
                    _ => String::new(),
                };
                let reason = StopReason {
                    kind: StopReasonKind::TargetExit,
                    summary,
                    trigger_id: None,
                    trigger_name: None,
                    group: None,
                    event_id: Some(e.event_id),
                    sequence_no: Some(e.sequence_no),
                    control_action: None,
                };
                let ghost before = out@;
                out.push(reason);
                proof {
                    assert(out@ =~= before.push(exit_reason(es[i as int])));
                }
            },
            None => {},
        }
        i = i + 1;
    }
    proof {
        assert(es.take(n as int) =~= es);
        assert(out@ =~= stop_reasons(stored_events@, trigger_matches@, control_reports@));
    }
    out
}

/// Whether some control report records a pause request.
pub open spec fn paused_by_control(rs: Seq<ControlReport>) -> bool {
    exists|i: int, j: int| 0 <= i < rs.len() && 0 <= j < rs[i].stored_events@.len()
        && (#[trigger] rs[i].stored_events@[j]).payload matches EventPayload::Control { action: ControlAction::Pause, .. }
}

fn records_pause(events: &Vec<EventEnvelope>) -> (r: bool)
    ensures
        r == exists|j: int| 0 <= j < events@.len()
            && (#[trigger] events@[j]).payload matches EventPayload::Control { action: ControlAction::Pause, .. },
{
    let n = events.len();
    let mut j: usize = 0;
    while j < n
        invariant
            n == events@.len(),
            j <= n,
            forall|k: int| 0 <= k < j ==> !((#[trigger] events@[k]).payload matches EventPayload::Control { action: ControlAction::Pause, .. }),
        decreases n - j,
    {
        match &events[j].payload {
            EventPayload::Control { action: ControlAction::Pause, .. } => {
                return true;
            },
            _ => {},
        }
        j = j + 1;
    }
    false
}

/// Whether one of the pump's control requests paused the target.
pub fn report_paused_target(report: &ControlledPumpReport) -> (r: bool)
    ensures
        r == paused_by_control(report.control_reports@),
{
    let ghost rs = report.control_reports@;
    let n = report.control_reports.len();
    let mut i: usize = 0;
    while i < n
        invariant
            n == rs.len(),
            rs == report.control_reports@,
            i <= n,
            forall|k: int, j: int| 0 <= k < i && 0 <= j < rs[k].stored_events@.len()
                ==> !((#[trigger] rs[k].stored_events@[j]).payload matches EventPayload::Control { action: ControlAction::Pause, .. }),
        decreases n - i,
    {
        if records_pause(&report.control_reports[i].stored_events) {
            return true;
        }
        i = i + 1;
    }
    false
}

/// The lines of the events `es`, in order.
pub open spec fn event_lines(es: Seq<EventEnvelope>) -> Seq<Seq<char>> {
    es.map_values(|e: EventEnvelope| event_line(e))
}

/// The lines of the control reports: each one's events, then its answer.
pub open spec fn control_lines(rs: Seq<ControlReport>) -> Seq<Seq<char>>
    decreases rs.len(),
{
    if rs.len() == 0 {
        seq![]
    } else {
        let r = rs.last();
        control_lines(rs.drop_last()) + event_lines(r.stored_events@).push(
            "control accepted="@ + bool_text(r.response.accepted) + " summary="@ + r.response.summary@,
        )
    }
}

/// The lines of a pump report: the pump's events, the triggers' events,
/// the matches, the stop reasons, then the control reports.
pub open spec fn pump_lines(r: ControlledPumpReport) -> Seq<Seq<char>> {
    event_lines(r.stored_events@) + event_lines(r.trigger_events@)
        + r.trigger_matches@.map_values(|m: TriggerMatch| trigger_match_line(m))
        + r.stop_reasons@.map_values(|s: StopReason| stop_reason_line(s)) + control_lines(r.control_reports@)
}

fn push_event_lines(out: &mut Vec<String>, es: &Vec<EventEnvelope>)
    ensures
        crate::text::views(final(out)@) == crate::text::views(old(out)@) + event_lines(es@),
{
    let n = es.len();
    let mut i: usize = 0;
    while i < n
        invariant
            n == es@.len(),
            i <= n,
            crate::text::views(out@) == crate::text::views(old(out)@) + event_lines(es@.take(i as int)),
        decreases n - i,
    {
        let line = format_event_line(&es[i]);
        let ghost before = out@;
        out.push(line);
        proof {
            assert(crate::text::views(out@) =~= crate::text::views(before).push(line@));
            assert(event_lines(es@.take(i as int + 1)) =~= event_lines(es@.take(i as int)).push(event_line(es@[i as int])));
        }
        i = i + 1;
    }
    proof {
        assert(es@.take(n as int) =~= es@);
    }
}

/// The lines that report a controlled pump, as `pump_lines` states.
pub fn format_controlled_pump_lines(report: &ControlledPumpReport) -> (r: Vec<String>)
    ensures
        crate::text::views(r@) == pump_lines(*report),
{
    let mut lines: Vec<String> = Vec::new();
    push_event_lines(&mut lines, &report.stored_events);
    push_event_lines(&mut lines, &report.trigger_events);
    let ghost ms = report.trigger_matches@;
    let ghost base = crate::text::views(lines@);
    let n = report.trigger_matches.len();
    let mut i: usize = 0;
    while i < n
        invariant
            n == ms.len(),
            ms == report.trigger_matches@,
            i <= n,
            crate::text::views(lines@) == base + ms.take(i as int).map_values(|m: TriggerMatch| trigger_match_line(m)),
        decreases n - i,
    {
        let line = format_trigger_match(&report.trigger_matches[i]);
        let ghost before = lines@;
        lines.push(line);
        proof {
            assert(crate::text::views(lines@) =~= crate::text::views(before).push(line@));
            assert(ms.take(i as int + 1).map_values(|m: TriggerMatch| trigger_match_line(m))
                =~= ms.take(i as int).map_values(|m: TriggerMatch| trigger_match_line(m)).push(trigger_match_line(ms[i as int])));
        }
        i = i + 1;
    }
    proof {
        assert(ms.take(n as int) =~= ms);
    }
    let ghost ss = report.stop_reasons@;
    let ghost base2 = crate::text::views(lines@);
    let n = report.stop_reasons.len();
    let mut i: usize = 0;
    while i < n
        invariant
            n == ss.len(),
            ss == report.stop_reasons@,
            i <= n,
            crate::text::views(lines@) == base2 + ss.take(i as int).map_values(|s: StopReason| stop_reason_line(s)),
        decreases n - i,
    {
        let line = format_stop_reason(&report.stop_reasons[i]);
        let ghost before = lines@;
        lines.push(line);
        proof {
            assert(crate::text::views(lines@) =~= crate::text::views(before).push(line@));
            assert(ss.take(i as int + 1).map_values(|s: StopReason| stop_reason_line(s))
                =~= ss.take(i as int).map_values(|s: StopReason| stop_reason_line(s)).push(stop_reason_line(ss[i as int])));
        }
        i = i + 1;
    }
    proof {
        assert(ss.take(n as int) =~= ss);
    }
    let ghost rs = report.control_reports@;
    let ghost base3 = crate::text::views(lines@);
    let n = report.control_reports.len();
    let mut i: usize = 0;
    while i < n
        invariant
            n == rs.len(),
            rs == report.control_reports@,
            i <= n,
            crate::text::views(lines@) == base3 + control_lines(rs.take(i as int)),
        decreases n - i,
    {
        proof {
            assert(rs.take(i as int + 1).drop_last() =~= rs.take(i as int));
        }
        let c = &report.control_reports[i];
        let ghost before_events = crate::text::views(lines@);
        push_event_lines(&mut lines, &c.stored_events);
        let mut line = owned("control accepted=");
        push_bool(&mut line, c.response.accepted);
        push_str(&mut line, " summary=");
        push_str(&mut line, c.response.summary.as_str());
        let ghost before = lines@;
        lines.push(line);
        proof {
            assert(crate::text::views(lines@) =~= crate::text::views(before).push(line@));
        }
        i = i + 1;
    }
    proof {
        assert(rs.take(n as int) =~= rs);
    }
    lines
}

} // verus!
