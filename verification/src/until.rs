//! `until <expr>`: a fire-once pausing trigger on the expression, then
//! pumps and resumes until it matches or the target exits. The loop itself
//! runs where the session is; the decisions are here.
use vstd::prelude::*;
use crate::control::{is_exit_event, Trigger, TriggerAction, TriggerPredicate};
use crate::expr::{debug_quoted, debug_text, expr_view, parse_expression, parse_expression_spec};
use crate::format::event_looks_like_target_exit;
use crate::model::{EventEnvelope, SwatError, SwatResult, TriggerId};
use crate::pump::{paused_by_control, report_paused_target, ControlledPumpReport};
use crate::text::{decimal, owned, push_decimal, push_str};

verus! {

/// The name of the trigger that `until expr` adds.
pub open spec fn until_trigger_name(expr: Seq<char>) -> Seq<char> {
    "until "@ + debug_text(expr)
}

/// The trigger that `until expr` adds, with id `trigger_id`: it pauses the
/// target once, when the expression holds. Refused where the target cannot
/// resume or the expression does not parse.
pub fn until_trigger(trigger_id: TriggerId, can_resume: bool, expr: &str) -> (r: SwatResult<Trigger>)
    ensures
        !can_resume ==> (r matches Err(e)
            && e@ == "active target cannot resume execution, so 'until' is unavailable"@),
        can_resume && parse_expression_spec(expr@) is Err ==> (r matches Err(e)
            && parse_expression_spec(expr@) == Err::<crate::expr::ExprModel, Seq<char>>(e@)),
        can_resume && parse_expression_spec(expr@) is Ok ==> (r matches Ok(t) && {
            &&& t.trigger_id == trigger_id
            &&& t.name@ == until_trigger_name(expr@)
            &&& t.group is None
            &&& t.predicate matches TriggerPredicate::Expr(q) && parse_expression_spec(expr@)
                == Ok::<crate::expr::ExprModel, Seq<char>>(expr_view(q))
            &&& t.actions@.len() == 1 && t.actions@[0] is PauseTarget
            &&& t.fire_once
            &&& t.enabled
            &&& t.hit_count == 0
            &&& t.last_hit_event_id is None && t.last_hit_sequence_no is None
        }),
{
    if !can_resume {
        return Err(SwatError::new(owned("active target cannot resume execution, so 'until' is unavailable")));
    }
    let parsed = match parse_expression(expr) {
        Ok(p) => p,
        Err(e) => {
            return Err(e);
        },
    };
    let mut name = owned("until ");
    let quoted = debug_quoted(expr);
    push_str(&mut name, quoted.as_str());
    let mut actions: Vec<TriggerAction> = Vec::new();
    actions.push(TriggerAction::PauseTarget);
    Ok(Trigger::new(trigger_id, name, TriggerPredicate::Expr(parsed), actions).fire_once())
}

/// What the `until` loop does after a pump.
#[derive(Clone, Copy, Debug, PartialEq, Eq, Structural)]
pub enum UntilAction {
    /// The until trigger matched: remove it and report the match.
    Matched,
    /// The target exited first: remove the trigger and report the exit.
    Exited,
    /// A trigger paused the target: resume it, then pump again, after a
    /// short wait where the pump stored nothing.
    Resume { then_wait: bool },
    /// Pump again, after a short wait where the pump stored nothing.
    Pump { wait: bool },
}

/// The decision after a pump: a match of the until trigger ends the loop,
/// else the target's exit does; else a paused target is resumed; and the
/// loop waits before the next pump where the pump stored no event.
pub open spec fn until_decision(matched: bool, exited: bool, paused: bool, stored_any: bool) -> UntilAction {
    if matched {
        UntilAction::Matched
    } else if exited {
        UntilAction::Exited
    } else if paused {
        UntilAction::Resume { then_wait: !stored_any }
    } else {
        UntilAction::Pump { wait: !stored_any }
    }
}

/// The decision after a pump, as `until_decision` states.
pub fn until_step(matched: bool, exited: bool, paused: bool, stored_any: bool) -> (r: UntilAction)
    ensures
        r == until_decision(matched, exited, paused, stored_any),
{
    if matched {
        UntilAction::Matched
    } else if exited {
        UntilAction::Exited
    } else if paused {
        UntilAction::Resume { then_wait: !stored_any }
    } else {
        UntilAction::Pump { wait: !stored_any }
    }
}

/// Whether the pump matched the trigger `until_id`.
pub open spec fn pump_matched(report: ControlledPumpReport, until_id: TriggerId) -> bool {
    exists|i: int| 0 <= i < report.trigger_matches@.len() && (#[trigger] report.trigger_matches@[i]).trigger_id == until_id
}

/// Whether the pump stored an event that reports the target's exit.
pub open spec fn pump_exited(report: ControlledPumpReport) -> bool {
    exists|i: int| 0 <= i < report.stored_events@.len() && is_exit_event(#[trigger] report.stored_events@[i])
}

/// The decision after `report`, the until trigger being `until_id`.
pub fn until_step_after(report: &ControlledPumpReport, until_id: TriggerId) -> (r: UntilAction)
    ensures
        r == until_decision(
            pump_matched(*report, until_id),
            pump_exited(*report),
            paused_by_control(report.control_reports@),
            report.stored_events@.len() > 0,
        ),
{
    let mut matched = false;
    let mut i: usize = 0;
    while i < report.trigger_matches.len()
        invariant
            i <= report.trigger_matches@.len(),
            matched == exists|k: int| 0 <= k < i && (#[trigger] report.trigger_matches@[k]).trigger_id == until_id,
        decreases report.trigger_matches@.len() - i,
    {
        if report.trigger_matches[i].trigger_id.0 == until_id.0 {
            matched = true;
        }
        i += 1;
    }
    let mut exited = false;
    let mut j: usize = 0;
    while j < report.stored_events.len()
        invariant
            j <= report.stored_events@.len(),
            exited == exists|k: int| 0 <= k < j && is_exit_event(#[trigger] report.stored_events@[k]),
        decreases report.stored_events@.len() - j,
    {
        if event_looks_like_target_exit(&report.stored_events[j]) {
            exited = true;
        }
        j += 1;
    }
    let paused = report_paused_target(report);
    until_step(matched, exited, paused, report.stored_events.len() > 0)
}

/// The summary with which `until` ends: a match, or the target's exit,
/// after `pumps` pumps.
pub open spec fn until_summary_text(matched: bool, pumps: u64) -> Seq<char> {
    if matched {
        "until matched after "@ + decimal(pumps as nat) + " pump(s)"@
    } else {
        "until stopped after target exit without a match after "@ + decimal(pumps as nat) + " pump(s)"@
    }
}

/// The summary with which `until` ends, as `until_summary_text` states.
pub fn until_summary(matched: bool, pumps: u64) -> (r: String)
    ensures
        r@ == until_summary_text(matched, pumps),
{
    let mut s = if matched {
        owned("until matched after ")
    } else {
        owned("until stopped after target exit without a match after ")
    };
    push_decimal(&mut s, pumps);
    push_str(&mut s, " pump(s)");
    s
}

/// The summary when the target refuses to resume: before the first pump,
/// or later in the loop.
pub fn until_resume_refused(before_first_pump: bool, summary: &str) -> (r: String)
    ensures
        r@ == (if before_first_pump {
            "until could not resume target: "@
        } else {
            "until stopped because the target could not resume: "@
        }) + summary@,
{
    let mut s = if before_first_pump {
        owned("until could not resume target: ")
    } else {
        owned("until stopped because the target could not resume: ")
    };
    push_str(&mut s, summary);
    s
}

} // verus!
