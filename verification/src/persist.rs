//! The saved form of triggers: stored predicates, groups and trigger
//! definitions, how a saved definition becomes a trigger again, and how
//! saved definitions are described.
use vstd::prelude::*;
use crate::api::WatchpointSpec;
use crate::control::{Trigger, TriggerAction, TriggerPredicate};
use crate::expr::{debug_quoted, debug_text, parse_expression, parse_expression_spec, QueryExpr, expr_view};
use crate::format::{bool_text, event_kind_name, group_part, kind_name, num_or_dash, text_or};
use crate::model::{EventKind, SwatError, SwatResult, TriggerId};
use crate::text::{decimal, owned, push_decimal, push_str, views};
use crate::command::CommandOutput;
use crate::strmap::{has_key, with_key};
use crate::trigger_engine::{with_trigger_added, EngineModel, TriggerEngine};

verus! {

/// The first trigger file format.
pub const LEGACY_TRIGGER_FILE_FORMAT_VERSION: u32 = 1;
/// The format before groups were saved.
pub const PRE_GROUP_TRIGGER_FILE_FORMAT_VERSION: u32 = 2;
/// The format before watchpoints were saved.
pub const PRE_WATCHPOINT_TRIGGER_FILE_FORMAT_VERSION: u32 = 3;
/// The format that is written.
pub const TRIGGER_FILE_FORMAT_VERSION: u32 = 4;

/// A saved action.
#[derive(Clone, Debug, PartialEq, Eq)]
pub enum PersistedTriggerAction {
    PauseTarget,
    CreateSnapshot { reason: String },
}

impl PersistedTriggerAction {
    /// The action this saved action stands for.
    pub fn to_runtime_action(&self) -> (r: TriggerAction)
        ensures
            match self {
                PersistedTriggerAction::PauseTarget => r is PauseTarget,
                PersistedTriggerAction::CreateSnapshot { reason } => r matches TriggerAction::CreateSnapshot { reason: x } && x@ == reason@,
            },
    {
        match self {
            PersistedTriggerAction::PauseTarget => TriggerAction::PauseTarget,
            PersistedTriggerAction::CreateSnapshot { reason } => TriggerAction::CreateSnapshot { reason: reason.clone() },
        }
    }

    /// The saved form of `action`.
    pub fn from_runtime_action(action: &TriggerAction) -> (r: Self)
        ensures
            match action {
                TriggerAction::PauseTarget => r is PauseTarget,
                TriggerAction::CreateSnapshot { reason } => r matches PersistedTriggerAction::CreateSnapshot { reason: x } && x@ == reason@,
            },
    {
        match action {
            TriggerAction::PauseTarget => PersistedTriggerAction::PauseTarget,
            TriggerAction::CreateSnapshot { reason } => PersistedTriggerAction::CreateSnapshot { reason: reason.clone() },
        }
    }
}

/// A saved stored predicate.
#[derive(Clone, Debug, PartialEq, Eq)]
pub struct PersistedPredicateSpec {
    pub name: String,
    pub expr: String,
}

/// A saved group.
#[derive(Clone, Debug, PartialEq, Eq)]
pub struct PersistedTriggerGroupSpec {
    pub name: String,
    pub enabled: bool,
}

/// A saved watchpoint condition.
#[derive(Clone, Debug, PartialEq, Eq)]
pub struct PersistedWatchpointSpec {
    pub value_key: String,
    pub path: Option<String>,
    pub after_millis: Option<u64>,
    pub event_kind: Option<EventKind>,
    pub summary_contains: Option<String>,
}

/// A saved trigger: its name, its condition (a stored predicate, a
/// watchpoint or an expression, in that order of precedence), whether it
/// fires once, whether it is armed, its group and its actions.
#[derive(Clone, Debug, PartialEq, Eq)]
pub struct PersistedTriggerSpec {
    pub name: String,
    pub expr: Option<String>,
    pub predicate_ref: Option<String>,
    pub watchpoint: Option<PersistedWatchpointSpec>,
    pub fire_once: bool,
    pub enabled: bool,
    pub group: Option<String>,
    pub actions: Vec<PersistedTriggerAction>,
}

/// A saved trigger file.
#[derive(Clone, Debug, PartialEq, Eq)]
pub struct PersistedTriggerFile {
    pub format_version: u32,
    pub predicates: Vec<PersistedPredicateSpec>,
    pub groups: Vec<PersistedTriggerGroupSpec>,
    pub triggers: Vec<PersistedTriggerSpec>,
}

/// A saved trigger that says nothing of being armed is armed.
pub fn default_trigger_enabled() -> (r: bool)
    ensures
        r,
{
    true
}

/// A saved trigger that names no actions pauses the target.
pub fn default_persisted_trigger_actions() -> (r: Vec<PersistedTriggerAction>)
    ensures
        r@ == seq![PersistedTriggerAction::PauseTarget],
{
    let mut v: Vec<PersistedTriggerAction> = Vec::new();
    v.push(PersistedTriggerAction::PauseTarget);
    v
}

/// Accepts the file format versions that can be read.
pub fn check_trigger_file_version(version: u32) -> (r: SwatResult<()>)
    ensures
        r is Ok <==> (1 <= version <= 4),
        r matches Err(e) ==> e@ == "unsupported trigger file format version "@ + decimal(version as nat),
{
    if version != LEGACY_TRIGGER_FILE_FORMAT_VERSION && version != PRE_GROUP_TRIGGER_FILE_FORMAT_VERSION
        && version != PRE_WATCHPOINT_TRIGGER_FILE_FORMAT_VERSION && version != TRIGGER_FILE_FORMAT_VERSION {
        let mut m = owned("unsupported trigger file format version ");
        push_decimal(&mut m, version as u64);
        Err(SwatError::new(m))
    } else {
        Ok(())
    }
}

/// The text of a saved action.
pub open spec fn persisted_action_text(a: PersistedTriggerAction) -> Seq<char> {
    match a {
        PersistedTriggerAction::PauseTarget => "PauseTarget"@,
        PersistedTriggerAction::CreateSnapshot { reason } => "CreateSnapshot("@ + debug_text(reason@) + ")"@,
    }
}

/// The texts of saved actions joined with commas.
pub open spec fn actions_text(s: Seq<PersistedTriggerAction>) -> Seq<char>
    decreases s.len(),
{
    if s.len() == 0 {
        Seq::empty()
    } else if s.len() == 1 {
        persisted_action_text(s[0])
    } else {
        actions_text(s.drop_last()) + ","@ + persisted_action_text(s.last())
    }
}

/// The saved actions as a comma-separated list.
pub fn format_persisted_trigger_actions(actions: &Vec<PersistedTriggerAction>) -> (r: String)
    ensures
        r@ == actions_text(actions@),
{
    let mut s = String::new();
    let n = actions.len();
    let mut i: usize = 0;
    while i < n
        invariant
            n == actions@.len(),
            i <= n,
            s@ == actions_text(actions@.take(i as int)),
        decreases n - i,
    {
        proof {
            assert(actions@.take(i as int + 1).drop_last() =~= actions@.take(i as int));
        }
        if i > 0 {
            push_str(&mut s, ",");
        }
        match &actions[i] {
            PersistedTriggerAction::PauseTarget => push_str(&mut s, "PauseTarget"),
            PersistedTriggerAction::CreateSnapshot { reason } => {
                push_str(&mut s, "CreateSnapshot(");
                let q = debug_quoted(reason.as_str());
                push_str(&mut s, q.as_str());
                push_str(&mut s, ")");
            },
        }
        i = i + 1;
        proof {
            assert(s@ =~= actions_text(actions@.take(i as int)));
        }
    }
    assert(actions@.take(n as int) =~= actions@);
    s
}

/// The text of a saved watchpoint condition: the value watched, then each
/// filter it has.
pub open spec fn watchpoint_condition_text(w: PersistedWatchpointSpec) -> Seq<char> {
    "watch "@ + w.value_key@ + match w.path {
        Some(p) => " path="@ + p@,
        None => Seq::empty(),
    } + match w.after_millis {
        Some(m) => " after="@ + decimal(m as nat),
        None => Seq::empty(),
    } + match w.event_kind {
        Some(k) => " kind="@ + kind_name(k),
        None => Seq::empty(),
    } + match w.summary_contains {
        Some(t) => " summary="@ + t@,
        None => Seq::empty(),
    }
}

/// The text of a saved watchpoint condition, as
/// `watchpoint_condition_text` says.
pub fn format_persisted_watchpoint_condition(watchpoint: &PersistedWatchpointSpec) -> (r: String)
    ensures
        r@ == watchpoint_condition_text(*watchpoint),
{
    let mut s = owned("watch ");
    push_str(&mut s, watchpoint.value_key.as_str());
    match &watchpoint.path {
        Some(p) => {
            push_str(&mut s, " path=");
            push_str(&mut s, p.as_str());
        },
        None => {},
    }
    match watchpoint.after_millis {
        Some(m) => {
            push_str(&mut s, " after=");
            push_decimal(&mut s, m);
        },
        None => {},
    }
    match watchpoint.event_kind {
        Some(k) => {
            push_str(&mut s, " kind=");
            push_str(&mut s, event_kind_name(k));
        },
        None => {},
    }
    match &watchpoint.summary_contains {
        Some(t) => {
            push_str(&mut s, " summary=");
            push_str(&mut s, t.as_str());
        },
        None => {},
    }
    assert(s@ =~= watchpoint_condition_text(*watchpoint));
    s
}

/// The text of a saved trigger's condition: `@` and the stored predicate,
/// else the watchpoint, else the expression, else `<missing>`.
pub open spec fn condition_text(spec: PersistedTriggerSpec) -> Seq<char> {
    match spec.predicate_ref {
        Some(name) => "@"@ + name@,
        None => match spec.watchpoint {
            Some(w) => watchpoint_condition_text(w),
            None => text_or(spec.expr, "<missing>"@),
        },
    }
}

/// The text of a saved trigger's condition, as `condition_text` says.
pub fn format_persisted_trigger_condition(spec: &PersistedTriggerSpec) -> (r: String)
    ensures
        r@ == condition_text(*spec),
{
    match &spec.predicate_ref {
        Some(name) => {
            let mut s = owned("@");
            push_str(&mut s, name.as_str());
            s
        },
        None => match &spec.watchpoint {
            Some(w) => format_persisted_watchpoint_condition(w),
            None => match &spec.expr {
                Some(e) => e.clone(),
                None => owned("<missing>"),
            },
        },
    }
}

/// The saved form of a watchpoint definition: armed, with the watchpoint
/// condition, and the snapshot it asks for or else a pause.
pub fn persisted_watchpoint_trigger_spec(spec: &WatchpointSpec) -> (r: PersistedTriggerSpec)
    ensures
        r.name@ == spec.name@,
        r.expr is None,
        r.predicate_ref is None,
        r.watchpoint matches Some(w) && w.value_key@ == spec.value_key@ && crate::agent_protocol::opt_text(w.path)
            == crate::agent_protocol::opt_text(spec.path) && w.after_millis == spec.after_millis
            && w.event_kind == spec.event_kind && crate::agent_protocol::opt_text(w.summary_contains)
            == crate::agent_protocol::opt_text(spec.summary_contains),
        r.fire_once == spec.fire_once,
        r.enabled,
        crate::agent_protocol::opt_text(r.group) == crate::agent_protocol::opt_text(spec.group),
        r.actions@.len() == 1,
        match spec.snapshot_reason {
            Some(reason) => r.actions@[0] matches PersistedTriggerAction::CreateSnapshot { reason: x } && x@ == reason@,
            None => r.actions@[0] is PauseTarget,
        },
{
    let actions = match &spec.snapshot_reason {
        Some(reason) => {
            let mut v: Vec<PersistedTriggerAction> = Vec::new();
            v.push(PersistedTriggerAction::CreateSnapshot { reason: reason.clone() });
            v
        },
        None => default_persisted_trigger_actions(),
    };
    PersistedTriggerSpec {
        name: spec.name.clone(),
        expr: None,
        predicate_ref: None,
        watchpoint: Some(
            PersistedWatchpointSpec {
                value_key: spec.value_key.clone(),
                path: spec.path.clone(),
                after_millis: spec.after_millis,
                event_kind: spec.event_kind,
                summary_contains: spec.summary_contains.clone(),
            },
        ),
        fire_once: spec.fire_once,
        enabled: true,
        group: spec.group.clone(),
        actions,
    }
}

/// Success when `spec` is a saved watchpoint, else the error that
/// `trigger_id` is no watchpoint.
pub fn ensure_watchpoint_spec(spec: Option<&PersistedTriggerSpec>, trigger_id: TriggerId) -> (r: SwatResult<()>)
    ensures
        r is Ok <==> (spec matches Some(s) && s.watchpoint is Some),
        r matches Err(e) ==> e@ == "unknown watchpoint "@ + decimal(trigger_id.0 as nat),
{
    match spec {
        Some(s) => {
            if s.watchpoint.is_some() {
                return Ok(());
            }
        },
        None => {},
    }
    let mut m = owned("unknown watchpoint ");
    push_decimal(&mut m, trigger_id.0);
    Err(SwatError::new(m))
}

/// The watchpoint fields of a listing line; `-` for each where the saved
/// trigger is no watchpoint or leaves the field out.
pub open spec fn watch_fields(w: Option<PersistedWatchpointSpec>) -> Seq<char> {
    match w {
        Some(x) => " value_key="@ + x.value_key@ + " path="@ + text_or(x.path, "-"@) + " after="@
            + num_or_dash(x.after_millis) + " kind="@ + match x.event_kind {
            Some(k) => kind_name(k),
            None => "-"@,
        } + " summary="@ + text_or(x.summary_contains, "-"@),
        None => " value_key="@ + "-"@ + " path="@ + "-"@ + " after="@ + "-"@ + " kind="@ + "-"@ + " summary="@ + "-"@,
    }
}

/// The listing line of a saved watchpoint.
pub open spec fn watchpoint_spec_line(id: TriggerId, spec: PersistedTriggerSpec) -> Seq<char> {
    "watchpoint="@ + decimal(id.0 as nat) + " name="@ + spec.name@ + " fire_once="@ + bool_text(spec.fire_once)
        + " enabled="@ + bool_text(spec.enabled) + watch_fields(spec.watchpoint) + " actions="@ + actions_text(
        spec.actions@,
    ) + group_part(spec.group) + " condition="@ + condition_text(spec)
}

fn push_watch_fields(s: &mut String, w: &Option<PersistedWatchpointSpec>)
    ensures
        final(s)@ == old(s)@ + watch_fields(*w),
{
    push_str(s, " value_key=");
    match w {
        Some(w) => {
            push_str(s, w.value_key.as_str());
            push_str(s, " path=");
            push_or_dash(s, &w.path);
            push_str(s, " after=");
            match w.after_millis {
                Some(m) => push_decimal(s, m),
                None => push_str(s, "-"),
            }
            push_str(s, " kind=");
            match w.event_kind {
                Some(k) => push_str(s, event_kind_name(k)),
                None => push_str(s, "-"),
            }
            push_str(s, " summary=");
            push_or_dash(s, &w.summary_contains);
        },
        None => {
            push_str(s, "-");
            push_str(s, " path=");
            push_str(s, "-");
            push_str(s, " after=");
            push_str(s, "-");
            push_str(s, " kind=");
            push_str(s, "-");
            push_str(s, " summary=");
            push_str(s, "-");
        },
    }
    assert(final(s)@ =~= old(s)@ + watch_fields(*w));
}

fn push_bool(s: &mut String, b: bool)
    ensures
        final(s)@ == old(s)@ + bool_text(b),
{
    if b {
        push_str(s, "true");
    } else {
        push_str(s, "false");
    }
}

fn push_or_dash(s: &mut String, o: &Option<String>)
    ensures
        final(s)@ == old(s)@ + text_or(*o, "-"@),
{
    match o {
        Some(t) => push_str(s, t.as_str()),
        None => push_str(s, "-"),
    }
}

/// The listing line of a saved watchpoint, as `watchpoint_spec_line` says.
pub fn format_watchpoint_spec_line(trigger_id: TriggerId, spec: &PersistedTriggerSpec) -> (r: String)
    ensures
        r@ == watchpoint_spec_line(trigger_id, *spec),
{
    let mut s = owned("watchpoint=");
    push_decimal(&mut s, trigger_id.0);
    push_str(&mut s, " name=");
    push_str(&mut s, spec.name.as_str());
    push_str(&mut s, " fire_once=");
    push_bool(&mut s, spec.fire_once);
    push_str(&mut s, " enabled=");
    push_bool(&mut s, spec.enabled);
    push_watch_fields(&mut s, &spec.watchpoint);
    push_str(&mut s, " actions=");
    let actions = format_persisted_trigger_actions(&spec.actions);
    push_str(&mut s, actions.as_str());
    match &spec.group {
        Some(g) => {
            push_str(&mut s, " group=");
            push_str(&mut s, g.as_str());
        },
        None => {},
    }
    push_str(&mut s, " condition=");
    let condition = format_persisted_trigger_condition(spec);
    push_str(&mut s, condition.as_str());
    assert(s@ =~= watchpoint_spec_line(trigger_id, *spec));
    s
}

/// The conditions of a saved watchpoint: the value change, then each
/// filter it has.
pub open spec fn watch_parts(w: PersistedWatchpointSpec) -> (TriggerPredicate, Seq<TriggerPredicate>) {
    (
        TriggerPredicate::ValueChanged { value_key: w.value_key, path: w.path },
        (match w.after_millis {
            Some(m) => seq![TriggerPredicate::ObservedAfter { millis: m }],
            None => Seq::empty(),
        }) + (match w.event_kind {
            Some(k) => seq![TriggerPredicate::EventKindIs(k)],
            None => Seq::empty(),
        }) + (match w.summary_contains {
            Some(t) => seq![TriggerPredicate::SummaryContains(t)],
            None => Seq::empty(),
        }),
    )
}

/// `p` is the predicate of saved watchpoint `w`: the value change alone,
/// or the conjunction of it and the filters.
pub open spec fn is_watch_predicate(p: TriggerPredicate, w: PersistedWatchpointSpec) -> bool {
    let (first, rest) = watch_parts(w);
    &&& rest.len() == 0 ==> p == first
    &&& rest.len() > 0 ==> (p matches TriggerPredicate::All(v) && v@ == seq![first] + rest)
}

fn clone_opt(o: &Option<String>) -> (r: Option<String>)
    ensures
        r == *o,
{
    match o {
        Some(t) => Some(t.clone()),
        None => None,
    }
}

/// What a saved trigger's condition becomes: the stored predicate it
/// names; else the watchpoint's conjunction of conditions; else its parsed
/// expression; an error where it has none or the expression does not parse.
pub fn build_trigger_predicate(spec: &PersistedTriggerSpec) -> (r: SwatResult<TriggerPredicate>)
    ensures
        match spec.predicate_ref {
            Some(name) => r matches Ok(TriggerPredicate::Named(n)) && n@ == name@,
            None => match spec.watchpoint {
                Some(w) => r matches Ok(p) && is_watch_predicate(p, w),
                None => match spec.expr {
                    Some(e) => match parse_expression_spec(e@) {
                        Ok(x) => r matches Ok(TriggerPredicate::Expr(q)) && expr_view(q) == x,
                        Err(m) => r matches Err(err) && err@ == m,
                    },
                    None => r matches Err(err) && err@ == "trigger "@ + spec.name@ + " is missing a condition"@,
                },
            },
        },
{
    match &spec.predicate_ref {
        Some(name) => {
            return Ok(TriggerPredicate::Named(name.clone()));
        },
        None => {},
    }
    match &spec.watchpoint {
        Some(w) => {
            let first = TriggerPredicate::ValueChanged { value_key: w.value_key.clone(), path: clone_opt(&w.path) };
            let mut rest: Vec<TriggerPredicate> = Vec::new();
            match w.after_millis {
                Some(m) => rest.push(TriggerPredicate::ObservedAfter { millis: m }),
                None => {},
            }
            match w.event_kind {
                Some(k) => rest.push(TriggerPredicate::EventKindIs(k)),
                None => {},
            }
            match &w.summary_contains {
                Some(t) => rest.push(TriggerPredicate::SummaryContains(t.clone())),
                None => {},
            }
            if rest.len() == 0 {
                proof {
                    assert(rest@ =~= watch_parts(*w).1);
                }
                return Ok(first);
            }
            let ghost rest_view = rest@;
            let mut all: Vec<TriggerPredicate> = Vec::new();
            all.push(first);
            all.append(&mut rest);
            proof {
                assert(rest_view =~= watch_parts(*w).1);
                assert(all@ =~= seq![watch_parts(*w).0] + watch_parts(*w).1);
            }
            return Ok(TriggerPredicate::All(all));
        },
        None => {},
    }
    match &spec.expr {
        Some(e) => match parse_expression(e.as_str()) {
            Ok(q) => Ok(TriggerPredicate::Expr(q)),
            Err(err) => Err(err),
        },
        None => {
            let mut m = owned("trigger ");
            push_str(&mut m, spec.name.as_str());
            push_str(&mut m, " is missing a condition");
            Err(SwatError::new(m))
        },
    }
}


/// The condition that `p` is for saved trigger `spec`, as
/// `build_trigger_predicate` makes it.
pub open spec fn condition_built(p: TriggerPredicate, spec: PersistedTriggerSpec) -> bool {
    match spec.predicate_ref {
        Some(name) => p matches TriggerPredicate::Named(n) && n@ == name@,
        None => match spec.watchpoint {
            Some(w) => is_watch_predicate(p, w),
            None => match spec.expr {
                Some(e) => parse_expression_spec(e@) matches Ok(x) && p matches TriggerPredicate::Expr(
                    q,
                ) && expr_view(q) == x,
                None => false,
            },
        },
    }
}

/// The error of the condition of saved trigger `spec`, where it has one.
pub open spec fn condition_error(spec: PersistedTriggerSpec) -> Option<Seq<char>> {
    if spec.predicate_ref is Some || spec.watchpoint is Some {
        None
    } else {
        match spec.expr {
            Some(e) => match parse_expression_spec(e@) {
                Ok(_) => None,
                Err(m) => Some(m),
            },
            None => Some("trigger "@ + spec.name@ + " is missing a condition"@),
        }
    }
}

/// `t` is the trigger with id `id` that saved trigger `spec` makes: armed
/// and grouped as saved, never hit, with the saved actions and condition.
pub open spec fn trigger_built(t: Trigger, id: TriggerId, spec: PersistedTriggerSpec) -> bool {
    &&& t.trigger_id == id
    &&& t.name@ == spec.name@
    &&& crate::agent_protocol::opt_text(t.group) == crate::agent_protocol::opt_text(spec.group)
    &&& t.fire_once == spec.fire_once
    &&& t.enabled == spec.enabled
    &&& t.hit_count == 0
    &&& t.last_hit_event_id is None && t.last_hit_sequence_no is None
    &&& t.actions@.len() == spec.actions@.len()
    &&& forall|i: int| 0 <= i < t.actions@.len() ==> (match #[trigger] spec.actions@[i] {
        PersistedTriggerAction::PauseTarget => t.actions@[i] is PauseTarget,
        PersistedTriggerAction::CreateSnapshot { reason } => t.actions@[i] matches TriggerAction::CreateSnapshot { reason: x } && x@ == reason@,
    })
    &&& condition_built(t.predicate, spec)
}

/// The trigger that a saved definition makes, with id `trigger_id`; the
/// error of its condition where that has one.
pub fn build_trigger_from_spec(trigger_id: TriggerId, spec: &PersistedTriggerSpec) -> (r: SwatResult<Trigger>)
    ensures
        r is Ok <==> condition_error(*spec) is None,
        r matches Ok(t) ==> trigger_built(t, trigger_id, *spec),
        r matches Err(e) ==> condition_error(*spec) == Some(e@),
{
    let predicate = match build_trigger_predicate(spec) {
        Ok(p) => p,
        Err(e) => {
            return Err(e);
        },
    };
    let n = spec.actions.len();
    let mut actions: Vec<TriggerAction> = Vec::new();
    let mut i: usize = 0;
    while i < n
        invariant
            n == spec.actions@.len(),
            i <= n,
            actions@.len() == i,
            forall|j: int| 0 <= j < i ==> (match #[trigger] spec.actions@[j] {
                PersistedTriggerAction::PauseTarget => actions@[j] is PauseTarget,
                PersistedTriggerAction::CreateSnapshot { reason } => actions@[j] matches TriggerAction::CreateSnapshot { reason: x } && x@ == reason@,
            }),
        decreases n - i,
    {
        actions.push(spec.actions[i].to_runtime_action());
        i = i + 1;
    }
    let mut trigger = Trigger::new(trigger_id, spec.name.clone(), predicate, actions);
    match &spec.group {
        Some(g) => {
            trigger = trigger.in_group(g.clone());
        },
        None => {},
    }
    if spec.fire_once {
        trigger = trigger.fire_once();
    }
    if !spec.enabled {
        trigger = trigger.disabled();
    }
    Ok(trigger)
}

/// The line that reports a loaded stored predicate.
pub fn format_loaded_predicate_line(predicate: &PersistedPredicateSpec) -> (r: String)
    ensures
        r@ == "predicate="@ + predicate.name@ + " expr="@ + debug_text(predicate.expr@),
{
    let mut s = owned("predicate=");
    push_str(&mut s, predicate.name.as_str());
    push_str(&mut s, " expr=");
    let q = debug_quoted(predicate.expr.as_str());
    push_str(&mut s, q.as_str());
    s
}

/// The line that reports a loaded trigger.
pub open spec fn loaded_trigger_line(id: TriggerId, spec: PersistedTriggerSpec) -> Seq<char> {
    "trigger="@ + decimal(id.0 as nat) + " name="@ + spec.name@ + " fire_once="@ + bool_text(spec.fire_once)
        + " enabled="@ + bool_text(spec.enabled) + " actions="@ + actions_text(spec.actions@) + group_part(
        spec.group,
    ) + " condition="@ + condition_text(spec)
}

/// The line that reports a loaded trigger, as `loaded_trigger_line` says.
pub fn format_loaded_trigger_line(trigger_id: TriggerId, spec: &PersistedTriggerSpec) -> (r: String)
    ensures
        r@ == loaded_trigger_line(trigger_id, *spec),
{
    let mut s = owned("trigger=");
    push_decimal(&mut s, trigger_id.0);
    push_str(&mut s, " name=");
    push_str(&mut s, spec.name.as_str());
    push_str(&mut s, " fire_once=");
    push_bool(&mut s, spec.fire_once);
    push_str(&mut s, " enabled=");
    push_bool(&mut s, spec.enabled);
    push_str(&mut s, " actions=");
    let actions = format_persisted_trigger_actions(&spec.actions);
    push_str(&mut s, actions.as_str());
    match &spec.group {
        Some(g) => {
            push_str(&mut s, " group=");
            push_str(&mut s, g.as_str());
        },
        None => {},
    }
    push_str(&mut s, " condition=");
    let condition = format_persisted_trigger_condition(spec);
    push_str(&mut s, condition.as_str());
    assert(s@ =~= loaded_trigger_line(trigger_id, *spec));
    s
}

/// The line that reports a loaded group.
pub fn format_loaded_group_line(group: &PersistedTriggerGroupSpec) -> (r: String)
    ensures
        r@ == "group="@ + group.name@ + " enabled="@ + bool_text(group.enabled),
{
    let mut s = owned("group=");
    push_str(&mut s, group.name.as_str());
    push_str(&mut s, " enabled=");
    push_bool(&mut s, group.enabled);
    s
}

/// The first error among the expressions of saved predicates `ps`.
pub open spec fn first_predicate_error(ps: Seq<PersistedPredicateSpec>) -> Option<Seq<char>>
    decreases ps.len(),
{
    if ps.len() == 0 {
        None
    } else {
        match parse_expression_spec(ps[0].expr@) {
            Err(m) => Some(m),
            Ok(_) => first_predicate_error(ps.drop_first()),
        }
    }
}

/// The first error among the conditions of saved triggers `ts`.
pub open spec fn first_trigger_error(ts: Seq<PersistedTriggerSpec>) -> Option<Seq<char>>
    decreases ts.len(),
{
    if ts.len() == 0 {
        None
    } else {
        match condition_error(ts[0]) {
            Some(m) => Some(m),
            None => first_trigger_error(ts.drop_first()),
        }
    }
}

/// Why restoring `f` fails: its format version, else the first predicate
/// expression that does not parse, else the first trigger whose condition
/// cannot be made; none where it succeeds.
pub open spec fn restore_error(f: PersistedTriggerFile) -> Option<Seq<char>> {
    if !(1 <= f.format_version <= 4) {
        Some("unsupported trigger file format version "@ + decimal(f.format_version as nat))
    } else if first_predicate_error(f.predicates@) is Some {
        first_predicate_error(f.predicates@)
    } else {
        first_trigger_error(f.triggers@)
    }
}

/// The predicate library that defining `ps` in turn, with expressions
/// `qs`, gives; a later definition replaces an earlier one of its name.
pub open spec fn predicate_table(ps: Seq<PersistedPredicateSpec>, qs: Seq<QueryExpr>) -> Seq<
    (Seq<char>, TriggerPredicate),
>
    decreases ps.len(),
{
    if ps.len() == 0 || qs.len() == 0 {
        Seq::empty()
    } else {
        with_key(
            predicate_table(ps.drop_last(), qs.drop_last()),
            ps.last().name@,
            TriggerPredicate::Expr(qs.last()),
        )
    }
}

/// `m` with the triggers `ts` added in turn.
pub open spec fn triggers_added(m: EngineModel, ts: Seq<Trigger>) -> EngineModel
    decreases ts.len(),
{
    if ts.len() == 0 {
        m
    } else {
        with_trigger_added(triggers_added(m, ts.drop_last()), ts.last())
    }
}

/// `m` with the saved group switches `gs` applied in turn; a switch of a
/// group that no trigger is in changes nothing.
pub open spec fn groups_switched(m: EngineModel, gs: Seq<PersistedTriggerGroupSpec>) -> EngineModel
    decreases gs.len(),
{
    if gs.len() == 0 {
        m
    } else {
        let r = groups_switched(m, gs.drop_last());
        let g = gs.last();
        if has_key(r.groups, g.name@) {
            EngineModel { groups: with_key(r.groups, g.name@, g.enabled), ..r }
        } else {
            r
        }
    }
}

/// The engine that restoring `f` leaves, its predicate expressions being
/// `qs` and its triggers `ts`, built with ids `ids`.
pub open spec fn restored(
    m: EngineModel,
    f: PersistedTriggerFile,
    ids: Seq<TriggerId>,
    qs: Seq<QueryExpr>,
    ts: Seq<Trigger>,
) -> bool {
    &&& qs.len() == f.predicates@.len()
    &&& forall|j: int|
        0 <= j < qs.len() ==> parse_expression_spec(#[trigger] f.predicates@[j].expr@) == Ok::<
            crate::expr::ExprModel,
            Seq<char>,
        >(expr_view(qs[j]))
    &&& ts.len() == f.triggers@.len()
    &&& forall|j: int| 0 <= j < ts.len() ==> trigger_built(#[trigger] ts[j], ids[j], f.triggers@[j])
    &&& m == groups_switched(
        triggers_added(
            EngineModel {
                triggers: Seq::empty(),
                predicates: predicate_table(f.predicates@, qs),
                groups: Seq::empty(),
            },
            ts,
        ),
        f.groups@,
    )
}

pub open spec fn predicate_line(p: PersistedPredicateSpec) -> Seq<char> {
    "predicate="@ + p.name@ + " expr="@ + debug_text(p.expr@)
}

pub open spec fn group_line(g: PersistedTriggerGroupSpec) -> Seq<char> {
    "group="@ + g.name@ + " enabled="@ + bool_text(g.enabled)
}

/// The lines that restoring `f` with trigger ids `ids` reports: one per
/// predicate, then one per trigger, then one per group.
pub open spec fn restore_lines(f: PersistedTriggerFile, ids: Seq<TriggerId>) -> Seq<Seq<char>> {
    f.predicates@.map_values(|p: PersistedPredicateSpec| predicate_line(p)) + Seq::new(
        f.triggers@.len(),
        |i: int| loaded_trigger_line(ids[i], f.triggers@[i]),
    ) + f.groups@.map_values(|g: PersistedTriggerGroupSpec| group_line(g))
}

/// Replaces what `engine` holds with what a saved trigger file holds:
/// after the version check the engine is emptied, then the file's stored
/// predicates are defined, its triggers added with the ids `trigger_ids`
/// in turn, and its group switches applied. Reports a line for each
/// predicate, trigger and group. The first error stops; a rejected version
/// leaves the engine as it was.
pub fn restore_triggers(
    engine: &mut TriggerEngine,
    file: &PersistedTriggerFile,
    trigger_ids: &Vec<TriggerId>,
) -> (r: SwatResult<CommandOutput>)
    requires
        trigger_ids@.len() == file.triggers@.len(),
    ensures
        r is Err <==> restore_error(*file) is Some,
        r matches Err(e) ==> restore_error(*file) == Some(e@),
        !(1 <= file.format_version <= 4) ==> final(engine)@ == old(engine)@,
        r matches Ok(out) ==> {
            &&& out.summary@ == "loaded "@ + decimal(file.triggers@.len()) + " trigger(s)"@
            &&& views(out.lines@) == restore_lines(*file, trigger_ids@)
            &&& exists|qs: Seq<QueryExpr>, ts: Seq<Trigger>|
                #[trigger] restored(final(engine)@, *file, trigger_ids@, qs, ts)
        },
{
    match check_trigger_file_version(file.format_version) {
        Ok(()) => {},
        Err(e) => {
            return Err(e);
        },
    }
    *engine = TriggerEngine::new();
    let ghost ps = file.predicates@;
    let ghost specs = file.triggers@;
    let ghost gs = file.groups@;
    let ghost ids = trigger_ids@;
    let ghost empty = EngineModel { triggers: Seq::empty(), predicates: Seq::empty(), groups: Seq::empty() };
    let mut lines: Vec<String> = Vec::new();
    let ghost mut qs: Seq<QueryExpr> = Seq::empty();
    let np = file.predicates.len();
    let mut i: usize = 0;
    assert(ps.skip(0) =~= ps);
    assert(ps.take(0).map_values(|p: PersistedPredicateSpec| predicate_line(p)) =~= views(lines@));
    while i < np
        invariant
            np == ps.len(),
            ps == file.predicates@,
            1 <= file.format_version <= 4,
            i <= np,
            qs.len() == i,
            forall|j: int|
                0 <= j < i ==> parse_expression_spec(#[trigger] ps[j].expr@) == Ok::<
                    crate::expr::ExprModel,
                    Seq<char>,
                >(expr_view(qs[j])),
            first_predicate_error(ps) == first_predicate_error(ps.skip(i as int)),
            engine@ == (EngineModel { predicates: predicate_table(ps.take(i as int), qs), ..empty }),
            views(lines@) == ps.take(i as int).map_values(|p: PersistedPredicateSpec| predicate_line(p)),
        decreases np - i,
    {
        let p = &file.predicates[i];
        proof {
            assert(ps.skip(i as int)[0] == ps[i as int]);
            assert(ps.skip(i as int).drop_first() =~= ps.skip(i + 1));
        }
        let q = match parse_expression(p.expr.as_str()) {
            Ok(q) => q,
            Err(e) => {
                assert(first_predicate_error(ps.skip(i as int)) == Some(e@));
                return Err(e);
            },
        };
        let ghost q0 = q;
        let _ = engine.define_predicate(p.name.clone(), TriggerPredicate::Expr(q));
        let line = format_loaded_predicate_line(p);
        let ghost before = lines@;
        lines.push(line);
        proof {
            let qs_old = qs;
            qs = qs.push(q0);
            assert(ps.take(i + 1).drop_last() =~= ps.take(i as int));
            assert(qs.drop_last() =~= qs_old);
            assert(ps.take(i + 1).last() == ps[i as int]);
            assert(predicate_table(ps.take(i + 1), qs) == with_key(
                predicate_table(ps.take(i as int), qs_old),
                ps[i as int].name@,
                TriggerPredicate::Expr(q0),
            ));
            assert forall|j: int| 0 <= j < i + 1 implies parse_expression_spec(
                #[trigger] ps[j].expr@,
            ) == Ok::<crate::expr::ExprModel, Seq<char>>(expr_view(qs[j])) by {
                if j < i {
                    assert(qs[j] == qs_old[j]);
                }
            }
            assert(ps.take(i + 1).map_values(|p: PersistedPredicateSpec| predicate_line(p)) =~= ps.take(
                i as int,
            ).map_values(|p: PersistedPredicateSpec| predicate_line(p)).push(predicate_line(ps[i as int])));
            assert(views(lines@) =~= views(before).push(line@));
        }
        i += 1;
    }
    proof {
        assert(ps.take(np as int) =~= ps);
        assert(ps.skip(np as int) =~= Seq::<PersistedPredicateSpec>::empty());
    }
    let ghost base = engine@;
    let ghost plines = views(lines@);
    let ghost mut ts: Seq<Trigger> = Seq::empty();
    let nt = file.triggers.len();
    let mut k: usize = 0;
    assert(specs.skip(0) =~= specs);
    assert(triggers_added(base, ts) == base);
    while k < nt
        invariant
            nt == specs.len(),
            specs == file.triggers@,
            1 <= file.format_version <= 4,
            ids == trigger_ids@,
            ids.len() == nt,
            k <= nt,
            ts.len() == k,
            forall|j: int| 0 <= j < k ==> trigger_built(#[trigger] ts[j], ids[j], specs[j]),
            restore_error(*file) == first_trigger_error(specs.skip(k as int)),
            engine@ == triggers_added(base, ts),
            views(lines@) == plines + Seq::new(k as nat, |j: int| loaded_trigger_line(ids[j], specs[j])),
        decreases nt - k,
    {
        proof {
            assert(specs.skip(k as int)[0] == specs[k as int]);
            assert(specs.skip(k as int).drop_first() =~= specs.skip(k + 1));
        }
        let t = match build_trigger_from_spec(trigger_ids[k], &file.triggers[k]) {
            Ok(t) => t,
            Err(e) => {
                return Err(e);
            },
        };
        let ghost t0 = t;
        engine.add_trigger(t);
        let line = format_loaded_trigger_line(trigger_ids[k], &file.triggers[k]);
        let ghost before = lines@;
        lines.push(line);
        proof {
            let ts_old = ts;
            ts = ts.push(t0);
            assert(ts.drop_last() =~= ts_old);
            assert(triggers_added(base, ts) == with_trigger_added(triggers_added(base, ts_old), t0));
            assert forall|j: int| 0 <= j < k + 1 implies trigger_built(#[trigger] ts[j], ids[j], specs[j]) by {
                if j < k {
                    assert(ts[j] == ts_old[j]);
                }
            }
            assert(views(lines@) =~= views(before).push(line@));
            assert(Seq::new((k + 1) as nat, |j: int| loaded_trigger_line(ids[j], specs[j])) =~= Seq::new(
                k as nat,
                |j: int| loaded_trigger_line(ids[j], specs[j]),
            ).push(loaded_trigger_line(ids[k as int], specs[k as int])));
            assert(views(lines@) =~= plines + Seq::new((k + 1) as nat, |j: int| loaded_trigger_line(ids[j], specs[j])));
        }
        k += 1;
    }
    let ghost tlines = views(lines@);
    let ng = file.groups.len();
    let mut g: usize = 0;
    let ghost after_triggers = engine@;
    assert(gs.take(0) =~= Seq::<PersistedTriggerGroupSpec>::empty());
    while g < ng
        invariant
            ng == gs.len(),
            gs == file.groups@,
            1 <= file.format_version <= 4,
            g <= ng,
            engine@ == groups_switched(after_triggers, gs.take(g as int)),
            views(lines@) == tlines + gs.take(g as int).map_values(|x: PersistedTriggerGroupSpec| group_line(x)),
        decreases ng - g,
    {
        let spec = &file.groups[g];
        let _ = engine.set_group_enabled(spec.name.as_str(), spec.enabled);
        let line = format_loaded_group_line(spec);
        let ghost before = lines@;
        lines.push(line);
        proof {
            assert(gs.take(g + 1).drop_last() =~= gs.take(g as int));
            assert(gs.take(g + 1).map_values(|x: PersistedTriggerGroupSpec| group_line(x)) =~= gs.take(
                g as int,
            ).map_values(|x: PersistedTriggerGroupSpec| group_line(x)).push(group_line(gs[g as int])));
            assert(views(lines@) =~= views(before).push(line@));
        }
        g += 1;
    }
    proof {
        assert(gs.take(ng as int) =~= gs);
        assert(views(lines@) =~= restore_lines(*file, ids));
        assert(restored(engine@, *file, ids, qs, ts));
    }
    let mut summary = owned("loaded ");
    push_decimal(&mut summary, nt as u64);
    push_str(&mut summary, " trigger(s)");
    Ok(CommandOutput::new(summary, lines))
}

} // verus!
