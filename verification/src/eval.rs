//! When a trigger's condition holds for an event: the query expressions,
//! the predicate combinators, stored predicates (each entered at most once
//! along a path, so that a stored predicate that names itself does not
//! hold), watched values that hold when they change, and elapsed-time
//! gates. What the event store holds of the event's artifacts is handed in
//! as plain values.
use vstd::prelude::*;
use crate::control::{payload_summary, TriggerPredicate};
use crate::expr::{QueriedValue, QueryExpr, QueryField, QueryValue, ValueModel};
use crate::model::{payload_summary_spec, EventEnvelope, EventPayload, Timestamp};
use crate::trigger_engine::TriggerEngine;
use crate::schema::{validate_at, validate_json, JsonValue, SchemaNode};
use crate::format::{bool_text, push_bool};
use crate::strmap::key_value;
use crate::text::{contains_seq, decimal, owned, push_decimal, str_contains, str_eq, views};

verus! {

/// What the event store gives for one artifact of an event: its bytes as
/// text where they are UTF-8, the detail of its decoded value where it
/// decodes, its JSON value where it decodes as JSON, and the values that
/// JSON paths name in its decoded value (a path that names nothing, or an
/// artifact that does not decode, has no entry).
#[derive(Debug, PartialEq, Eq)]
pub struct ArtifactFacts {
    pub text: Option<String>,
    pub detail: Option<String>,
    pub json: Option<JsonValue>,
    pub paths: Vec<(String, QueriedValue)>,
}

/// The value that `path` names in an artifact whose path values are
/// `paths`: the first entry for it.
pub open spec fn path_value(paths: Seq<(String, QueriedValue)>, path: Seq<char>) -> Option<ValueModel>
    decreases paths.len(),
{
    if paths.len() == 0 {
        None
    } else if paths[0].0@ == path {
        Some(paths[0].1@)
    } else {
        path_value(paths.drop_first(), path)
    }
}

/// A copy of `v`.
pub fn copy_value(v: &QueriedValue) -> (r: QueriedValue)
    ensures
        r@ == v@,
{
    match v {
        QueriedValue::String(s) => QueriedValue::String(s.clone()),
        QueriedValue::Number(s) => QueriedValue::Number(s.clone()),
        QueriedValue::Bool(b) => QueriedValue::Bool(*b),
        QueriedValue::Json(s) => QueriedValue::Json(s.clone()),
        QueriedValue::Null => QueriedValue::Null,
    }
}

/// Whether `a` and `b` are the same value.
pub fn same_value(a: &QueriedValue, b: &QueriedValue) -> (r: bool)
    ensures
        r == (a@ == b@),
{
    match (a, b) {
        (QueriedValue::String(x), QueriedValue::String(y)) => str_eq(x.as_str(), y.as_str()),
        (QueriedValue::Number(x), QueriedValue::Number(y)) => str_eq(x.as_str(), y.as_str()),
        (QueriedValue::Bool(x), QueriedValue::Bool(y)) => *x == *y,
        (QueriedValue::Json(x), QueriedValue::Json(y)) => str_eq(x.as_str(), y.as_str()),
        (QueriedValue::Null, QueriedValue::Null) => true,
        _ => false,
    }
}

/// The value that `path` names in artifact `f`.
pub fn fact_path<'a>(f: &'a ArtifactFacts, path: &str) -> (r: Option<&'a QueriedValue>)
    ensures
        match r {
            Some(v) => path_value(f.paths@, path@) == Some(v@),
            None => path_value(f.paths@, path@) is None,
        },
{
    let n = f.paths.len();
    let mut i: usize = 0;
    assert(f.paths@.skip(0) =~= f.paths@);
    while i < n
        invariant
            n == f.paths@.len(),
            i <= n,
            path_value(f.paths@, path@) == path_value(f.paths@.skip(i as int), path@),
        decreases n - i,
    {
        proof {
            assert(f.paths@.skip(i as int)[0] == f.paths@[i as int]);
            assert(f.paths@.skip(i as int).drop_first() =~= f.paths@.skip(i + 1));
        }
        if str_eq(f.paths[i].0.as_str(), path) {
            return Some(&f.paths[i].1);
        }
        i += 1;
    }
    None
}

/// The values that `path` names in the artifacts `facts`, in order.
pub open spec fn path_values(facts: Seq<ArtifactFacts>, path: Seq<char>) -> Seq<ValueModel>
    decreases facts.len(),
{
    if facts.len() == 0 {
        Seq::empty()
    } else {
        path_values(facts.drop_last(), path) + match path_value(facts.last().paths@, path) {
            Some(v) => seq![v],
            None => Seq::empty(),
        }
    }
}

/// The correlation id of `e`'s causality, where it has one.
pub open spec fn correlation_values(e: EventEnvelope) -> Seq<ValueModel> {
    match e.causality.correlation_id {
        Some(c) => seq![ValueModel::Str(c@)],
        None => Seq::empty(),
    }
}

/// The values that field `field` has for event `e`; the JSON fields are
/// read from the artifacts.
pub open spec fn field_values(e: EventEnvelope, facts: Seq<ArtifactFacts>, field: QueryField) -> Seq<ValueModel> {
    match field {
        QueryField::Kind => Seq::empty(),
        QueryField::Summary => match payload_summary_spec(e.payload) {
            Some(s) => seq![ValueModel::Str(s)],
            None => Seq::empty(),
        },
        QueryField::EventId => seq![ValueModel::Number(decimal(e.event_id.0 as nat))],
        QueryField::SequenceNo => seq![ValueModel::Number(decimal(e.sequence_no as nat))],
        QueryField::CorrelationId => correlation_values(e) + path_values(facts, "$.correlation_id"@),
        QueryField::BoundaryId => match e.payload {
            EventPayload::Boundary { boundary_id, .. } => seq![ValueModel::Number(decimal(boundary_id.0 as nat))],
            _ => Seq::empty(),
        },
        QueryField::SpanId => path_values(facts, "$.span_id"@),
        QueryField::ValueKey => match e.payload {
            EventPayload::Value { value_key, .. } => seq![ValueModel::Str(value_key@)],
            _ => Seq::empty(),
        },
        QueryField::SourceFile => path_values(facts, "$.file"@),
        QueryField::SourceFunction => path_values(facts, "$.function"@),
    }
}

fn push_path_values(out: &mut Vec<QueriedValue>, facts: &Vec<ArtifactFacts>, path: &str)
    ensures
        final(out)@.map_values(|v: QueriedValue| v@) == old(out)@.map_values(|v: QueriedValue| v@)
            + path_values(facts@, path@),
{
    let ghost start = out@.map_values(|v: QueriedValue| v@);
    let n = facts.len();
    let mut i: usize = 0;
    assert(path_values(facts@.take(0), path@) =~= Seq::<ValueModel>::empty());
    while i < n
        invariant
            n == facts@.len(),
            i <= n,
            out@.map_values(|v: QueriedValue| v@) == start + path_values(facts@.take(i as int), path@),
        decreases n - i,
    {
        proof {
            assert(facts@.take(i + 1).drop_last() =~= facts@.take(i as int));
            assert(facts@.take(i + 1).last() == facts@[i as int]);
        }
        let ghost before = out@.map_values(|v: QueriedValue| v@);
        match fact_path(&facts[i], path) {
            Some(v) => {
                out.push(copy_value(v));
                assert(out@.map_values(|v: QueriedValue| v@) =~= before.push(v@));
            },
            None => {},
        }
        i += 1;
    }
    assert(facts@.take(n as int) =~= facts@);
}

fn number_text(n: u64) -> (r: String)
    ensures
        r@ == decimal(n as nat),
{
    let mut s = String::new();
    push_decimal(&mut s, n);
    s
}

/// The values of field `field` for event `e`, as `field_values` states.
pub fn field_values_of(e: &EventEnvelope, facts: &Vec<ArtifactFacts>, field: QueryField) -> (r: Vec<QueriedValue>)
    ensures
        r@.map_values(|v: QueriedValue| v@) == field_values(*e, facts@, field),
{
    let mut out: Vec<QueriedValue> = Vec::new();
    proof {
        reveal_strlit("$.correlation_id");
        reveal_strlit("$.span_id");
        reveal_strlit("$.file");
        reveal_strlit("$.function");
    }
    match field {
        QueryField::Kind => {},
        QueryField::Summary => match payload_summary(e) {
            Some(s) => out.push(QueriedValue::String(owned(s))),
            None => {},
        },
        QueryField::EventId => out.push(QueriedValue::Number(number_text(e.event_id.0))),
        QueryField::SequenceNo => out.push(QueriedValue::Number(number_text(e.sequence_no))),
        QueryField::CorrelationId => {
            match &e.causality.correlation_id {
                Some(c) => out.push(QueriedValue::String(c.clone())),
                None => {},
            }
            push_path_values(&mut out, facts, "$.correlation_id");
        },
        QueryField::BoundaryId => match &e.payload {
            EventPayload::Boundary { boundary_id, .. } => out.push(QueriedValue::Number(number_text(boundary_id.0))),
            _ => {},
        },
        QueryField::SpanId => push_path_values(&mut out, facts, "$.span_id"),
        QueryField::ValueKey => match &e.payload {
            EventPayload::Value { value_key, .. } => out.push(QueriedValue::String(value_key.clone())),
            _ => {},
        },
        QueryField::SourceFile => push_path_values(&mut out, facts, "$.file"),
        QueryField::SourceFunction => push_path_values(&mut out, facts, "$.function"),
    }
    assert(out@.map_values(|v: QueriedValue| v@) =~= field_values(*e, facts@, field));
    out
}

/// The text of a value that `contains` tests: strings, numbers and JSON
/// as they are, booleans as `true` or `false`; null has none.
pub open spec fn string_form(v: ValueModel) -> Option<Seq<char>> {
    match v {
        ValueModel::Str(s) => Some(s),
        ValueModel::Number(s) => Some(s),
        ValueModel::Json(s) => Some(s),
        ValueModel::Bool(b) => Some(bool_text(b)),
        ValueModel::Null => None,
    }
}

/// Whether some value of `vs` has a text that contains `needle`.
pub open spec fn some_contains(vs: Seq<ValueModel>, needle: Seq<char>) -> bool {
    exists|i: int| 0 <= i < vs.len() && (string_form(#[trigger] vs[i]) matches Some(s) && contains_seq(s, needle))
}

/// Whether expression `x` holds for event `e` whose artifacts are `facts`.
pub open spec fn expr_holds(x: QueryExpr, e: EventEnvelope, facts: Seq<ArtifactFacts>) -> bool
    decreases x,
{
    match x {
        QueryExpr::FieldEquals { field, expected } => match expected {
            QueryValue::Kind(k) => field == QueryField::Kind && e.kind == k,
            QueryValue::Value(v) => field_values(e, facts, field).contains(v@),
        },
        QueryExpr::FieldContains { field, needle } => some_contains(field_values(e, facts, field), needle@),
        QueryExpr::FieldExists(field) => field_values(e, facts, field).len() > 0,
        QueryExpr::ArtifactTextContains(needle) => exists|i: int|
            0 <= i < facts.len() && ((#[trigger] facts[i]).text matches Some(t) && contains_seq(t@, needle@)),
        QueryExpr::ArtifactJsonPathExists(path) => exists|i: int|
            0 <= i < facts.len() && path_value((#[trigger] facts[i]).paths@, path@) is Some,
        QueryExpr::ArtifactJsonPathEquals { path, expected } => exists|i: int|
            0 <= i < facts.len() && path_value((#[trigger] facts[i]).paths@, path@) == Some(expected@),
        QueryExpr::And(xs) => all_hold(xs@, e, facts),
        QueryExpr::Or(xs) => any_holds(xs@, e, facts),
        QueryExpr::Not(b) => !expr_holds(*b, e, facts),
    }
}

/// Whether every expression of `xs` holds.
pub open spec fn all_hold(xs: Seq<QueryExpr>, e: EventEnvelope, facts: Seq<ArtifactFacts>) -> bool
    decreases xs,
{
    if xs.len() == 0 {
        true
    } else {
        expr_holds(xs[0], e, facts) && all_hold(xs.drop_first(), e, facts)
    }
}

/// Whether some expression of `xs` holds.
pub open spec fn any_holds(xs: Seq<QueryExpr>, e: EventEnvelope, facts: Seq<ArtifactFacts>) -> bool
    decreases xs,
{
    if xs.len() == 0 {
        false
    } else {
        expr_holds(xs[0], e, facts) || any_holds(xs.drop_first(), e, facts)
    }
}

fn text_of_value(v: &QueriedValue) -> (r: Option<String>)
    ensures
        match r {
            Some(s) => string_form(v@) == Some(s@),
            None => string_form(v@) is None,
        },
{
    match v {
        QueriedValue::String(s) => Some(s.clone()),
        QueriedValue::Number(s) => Some(s.clone()),
        QueriedValue::Json(s) => Some(s.clone()),
        QueriedValue::Bool(b) => {
            let mut t = String::new();
            push_bool(&mut t, *b);
            Some(t)
        },
        QueriedValue::Null => None,
    }
}

/// Whether expression `x` holds for event `e`, as `expr_holds` states.
#[verifier::loop_isolation(false)]
pub fn evaluate_expression(x: &QueryExpr, e: &EventEnvelope, facts: &Vec<ArtifactFacts>) -> (r: bool)
    ensures
        r == expr_holds(*x, *e, facts@),
    decreases x,
{
    match x {
        QueryExpr::FieldEquals { field, expected } => match expected {
            QueryValue::Kind(k) => {
                let is_kind = match field {
                    QueryField::Kind => true,
                    _ => false,
                };
                is_kind && e.kind == *k
            },
            QueryValue::Value(v) => {
                let vs = field_values_of(e, facts, *field);
                let ghost vv = vs@.map_values(|q: QueriedValue| q@);
                let mut i: usize = 0;
                while i < vs.len()
                    invariant
                        i <= vs@.len(),
                        vv == vs@.map_values(|q: QueriedValue| q@),
                        forall|k: int| 0 <= k < i ==> vv[k] != v@,
                    decreases vs@.len() - i,
                {
                    if same_value(&vs[i], v) {
                        assert(vv[i as int] == v@);
                        assert(vv.contains(v@));
                        return true;
                    }
                    i += 1;
                }
                assert(!vv.contains(v@));
                false
            },
        },
        QueryExpr::FieldContains { field, needle } => {
            let vs = field_values_of(e, facts, *field);
            let ghost vv = vs@.map_values(|q: QueriedValue| q@);
            let mut i: usize = 0;
            while i < vs.len()
                invariant
                    i <= vs@.len(),
                    vv == vs@.map_values(|q: QueriedValue| q@),
                    forall|k: int| 0 <= k < i ==> !(string_form(#[trigger] vv[k]) matches Some(s) && contains_seq(s, needle@)),
                decreases vs@.len() - i,
            {
                match text_of_value(&vs[i]) {
                    Some(t) => {
                        if str_contains(t.as_str(), needle.as_str()) {
                            assert(string_form(vv[i as int]) matches Some(s) && contains_seq(s, needle@));
                            return true;
                        }
                    },
                    None => {},
                }
                assert(!(string_form(vv[i as int]) matches Some(s) && contains_seq(s, needle@)));
                i += 1;
            }
            false
        },
        QueryExpr::FieldExists(field) => field_values_of(e, facts, *field).len() > 0,
        QueryExpr::ArtifactTextContains(needle) => {
            let mut i: usize = 0;
            while i < facts.len()
                invariant
                    i <= facts@.len(),
                    forall|k: int| 0 <= k < i ==> !((#[trigger] facts@[k]).text matches Some(t) && contains_seq(t@, needle@)),
                decreases facts@.len() - i,
            {
                match &facts[i].text {
                    Some(t) => {
                        if str_contains(t.as_str(), needle.as_str()) {
                            assert(facts@[i as int].text matches Some(t) && contains_seq(t@, needle@));
                            return true;
                        }
                    },
                    None => {},
                }
                i += 1;
            }
            false
        },
        QueryExpr::ArtifactJsonPathExists(path) => {
            let mut i: usize = 0;
            while i < facts.len()
                invariant
                    i <= facts@.len(),
                    forall|k: int| 0 <= k < i ==> path_value((#[trigger] facts@[k]).paths@, path@) is None,
                decreases facts@.len() - i,
            {
                if fact_path(&facts[i], path.as_str()).is_some() {
                    assert(path_value(facts@[i as int].paths@, path@) is Some);
                    return true;
                }
                i += 1;
            }
            false
        },
        QueryExpr::ArtifactJsonPathEquals { path, expected } => {
            let mut i: usize = 0;
            while i < facts.len()
                invariant
                    i <= facts@.len(),
                    forall|k: int| 0 <= k < i ==> path_value((#[trigger] facts@[k]).paths@, path@) != Some(expected@),
                decreases facts@.len() - i,
            {
                match fact_path(&facts[i], path.as_str()) {
                    Some(v) => {
                        if same_value(v, expected) {
                            assert(path_value(facts@[i as int].paths@, path@) == Some(expected@));
                            return true;
                        }
                    },
                    None => {},
                }
                i += 1;
            }
            false
        },
        QueryExpr::And(xs) => {
            let mut i: usize = 0;
            assert(xs@.skip(0) =~= xs@);
            while i < xs.len()
                invariant
                    i <= xs@.len(),
                    all_hold(xs@, *e, facts@) == all_hold(xs@.skip(i as int), *e, facts@),
                decreases xs@.len() - i,
            {
                proof {
                    assert(xs@.skip(i as int)[0] == xs@[i as int]);
                    assert(xs@.skip(i as int).drop_first() =~= xs@.skip(i + 1));
                }
                proof {
                    assert(decreases_to!(*x => xs@[i as int]));
                }
                if !evaluate_expression(&xs[i], e, facts) {
                    return false;
                }
                i += 1;
            }
            true
        },
        QueryExpr::Or(xs) => {
            let mut i: usize = 0;
            assert(xs@.skip(0) =~= xs@);
            while i < xs.len()
                invariant
                    i <= xs@.len(),
                    any_holds(xs@, *e, facts@) == any_holds(xs@.skip(i as int), *e, facts@),
                decreases xs@.len() - i,
            {
                proof {
                    assert(xs@.skip(i as int)[0] == xs@[i as int]);
                    assert(xs@.skip(i as int).drop_first() =~= xs@.skip(i + 1));
                }
                proof {
                    assert(decreases_to!(*x => xs@[i as int]));
                }
                if evaluate_expression(&xs[i], e, facts) {
                    return true;
                }
                i += 1;
            }
            false
        },
        QueryExpr::Not(b) => !evaluate_expression(b, e, facts),
    }
}

/// Names a watched value: a value key, and a JSON path within it.
#[derive(Clone, Debug, PartialEq, Eq)]
pub struct ValueWatchKey {
    pub value_key: String,
    pub path: Option<String>,
}

/// A watched value: the text of the value, or what its JSON path names.
#[derive(Debug, PartialEq, Eq)]
pub enum WatchedValue {
    Text(String),
    Query(QueriedValue),
}

/// A watched value as a mathematical value.
pub enum WatchedModel {
    Text(Seq<char>),
    Query(ValueModel),
}

pub type KeyModel = (Seq<char>, Option<Seq<char>>);

pub open spec fn key_view(k: ValueWatchKey) -> KeyModel {
    (k.value_key@, match k.path {
        Some(p) => Some(p@),
        None => None,
    })
}

pub open spec fn watched_view(w: WatchedValue) -> WatchedModel {
    match w {
        WatchedValue::Text(t) => WatchedModel::Text(t@),
        WatchedValue::Query(q) => WatchedModel::Query(q@),
    }
}

/// A table of watched values as keys and values.
pub open spec fn table_view(t: Seq<(ValueWatchKey, WatchedValue)>) -> Seq<(KeyModel, WatchedModel)> {
    t.map_values(|x: (ValueWatchKey, WatchedValue)| (key_view(x.0), watched_view(x.1)))
}

/// The value under `k` in table `t`: its first entry for `k`.
pub open spec fn table_get(t: Seq<(KeyModel, WatchedModel)>, k: KeyModel) -> Option<WatchedModel>
    decreases t.len(),
{
    if t.len() == 0 {
        None
    } else if t[0].0 == k {
        Some(t[0].1)
    } else {
        table_get(t.drop_first(), k)
    }
}

/// The index of the first entry for `k` in `t`.
pub open spec fn table_index(t: Seq<(KeyModel, WatchedModel)>, k: KeyModel) -> Option<int>
    decreases t.len(),
{
    if t.len() == 0 {
        None
    } else if t[0].0 == k {
        Some(0)
    } else {
        match table_index(t.drop_first(), k) {
            Some(i) => Some(i + 1),
            None => None,
        }
    }
}

/// `t` with `v` under `k`: its first entry for `k` replaced, or `v` added
/// last where there is none.
pub open spec fn table_put(t: Seq<(KeyModel, WatchedModel)>, k: KeyModel, v: WatchedModel) -> Seq<(KeyModel, WatchedModel)> {
    match table_index(t, k) {
        Some(i) => t.update(i, (k, v)),
        None => t.push((k, v)),
    }
}

/// The first value that `path` names in the artifacts `facts`.
pub open spec fn first_path_value(facts: Seq<ArtifactFacts>, path: Seq<char>) -> Option<ValueModel>
    decreases facts.len(),
{
    if facts.len() == 0 {
        None
    } else {
        match path_value(facts[0].paths@, path) {
            Some(v) => Some(v),
            None => first_path_value(facts.drop_first(), path),
        }
    }
}

/// The first detail of a decoded artifact among `facts`.
pub open spec fn first_detail(facts: Seq<ArtifactFacts>) -> Option<Seq<char>>
    decreases facts.len(),
{
    if facts.len() == 0 {
        None
    } else {
        match facts[0].detail {
            Some(d) => Some(d@),
            None => first_detail(facts.drop_first()),
        }
    }
}

/// The value that watch key `k` reads from event `e`: none unless `e`
/// carries a value of key `k.0`; then what path `k.1` names in the first
/// artifact that has it, or without a path the detail of the first
/// decoded artifact, else the event's summary.
pub open spec fn current_watched(e: EventEnvelope, facts: Seq<ArtifactFacts>, k: KeyModel) -> Option<WatchedModel> {
    match e.payload {
        EventPayload::Value { value_key, summary } => if value_key@ != k.0 {
            None
        } else {
            match k.1 {
                Some(p) => match first_path_value(facts, p) {
                    Some(v) => Some(WatchedModel::Query(v)),
                    None => None,
                },
                None => match first_detail(facts) {
                    Some(d) => Some(WatchedModel::Text(d)),
                    None => Some(WatchedModel::Text(summary@)),
                },
            }
        },
        _ => None,
    }
}

/// How many stored predicates of `lib` are not among `visiting`.
pub open spec fn unvisited(lib: Seq<(Seq<char>, TriggerPredicate)>, visiting: Seq<Seq<char>>) -> nat
    decreases lib.len(),
{
    if lib.len() == 0 {
        0
    } else {
        unvisited(lib.drop_last(), visiting) + if visiting.contains(lib.last().0) {
            0nat
        } else {
            1nat
        }
    }
}

/// Entering a stored predicate never adds unvisited ones, and entering one
/// of the library that is not yet being entered removes one.
pub proof fn lemma_unvisited_push(lib: Seq<(Seq<char>, TriggerPredicate)>, visiting: Seq<Seq<char>>, n: Seq<char>)
    ensures
        unvisited(lib, visiting.push(n)) <= unvisited(lib, visiting),
        !visiting.contains(n) && (exists|i: int| 0 <= i < lib.len() && lib[i].0 == n) ==> unvisited(
            lib,
            visiting.push(n),
        ) < unvisited(lib, visiting),
    decreases lib.len(),
{
    if lib.len() > 0 {
        lemma_unvisited_push(lib.drop_last(), visiting, n);
        assert forall|x: Seq<char>| visiting.contains(x) implies visiting.push(n).contains(x) by {
            let j = choose|j: int| 0 <= j < visiting.len() && visiting[j] == x;
            assert(visiting.push(n)[j] == x);
        }
        assert(visiting.push(n).contains(n)) by {
            assert(visiting.push(n)[visiting.len() as int] == n);
        }
        if !visiting.contains(n) && (exists|i: int| 0 <= i < lib.len() && lib[i].0 == n) {
            let i = choose|i: int| 0 <= i < lib.len() && lib[i].0 == n;
            if i < lib.len() - 1 {
                assert(lib.drop_last()[i].0 == n);
            }
        }
    }
}

/// A stored predicate that is found is one of the library's entries.
pub proof fn lemma_key_value_index(lib: Seq<(Seq<char>, TriggerPredicate)>, n: Seq<char>)
    requires
        key_value(lib, n) is Some,
    ensures
        exists|i: int| 0 <= i < lib.len() && lib[i].0 == n,
{
    let p = crate::strmap::lower_bound(lib, n) as int;
    assert(lib[p].0 == n);
}

/// `m` less `n`, or zero where `n` is larger.
pub open spec fn saturating_diff(m: u64, n: u64) -> int {
    if m >= n {
        m - n
    } else {
        0
    }
}

/// Whether predicate `p` holds for event `e`, and the pending watched
/// values after it: `lib` holds the stored predicates, `first` is when the
/// session first observed an event, `watched` the values last seen,
/// `pending` the values seen so far in this evaluation and `visiting` the
/// stored predicates being entered. A stored predicate already being
/// entered, or missing, does not hold. A watched value holds when it was
/// seen before and differs now; it is recorded as pending either way.
/// `All` and `Any` stop at the first member that decides.
pub open spec fn pred_eval(
    p: TriggerPredicate,
    e: EventEnvelope,
    facts: Seq<ArtifactFacts>,
    lib: Seq<(Seq<char>, TriggerPredicate)>,
    first: Option<u64>,
    watched: Seq<(KeyModel, WatchedModel)>,
    pending: Seq<(KeyModel, WatchedModel)>,
    visiting: Seq<Seq<char>>,
) -> (bool, Seq<(KeyModel, WatchedModel)>)
    decreases unvisited(lib, visiting), p,
{
    match p {
        TriggerPredicate::Expr(x) => (expr_holds(x, e, facts), pending),
        TriggerPredicate::Named(name) => if visiting.contains(name@) {
            (false, pending)
        } else {
            match key_value(lib, name@) {
                None => (false, pending),
                Some(q) => {
                    proof {
                        lemma_key_value_index(lib, name@);
                        lemma_unvisited_push(lib, visiting, name@);
                    }
                    pred_eval(q, e, facts, lib, first, watched, pending, visiting.push(name@))
                },
            }
        },
        TriggerPredicate::ValueChanged { value_key, path } => {
            let k = (value_key@, match path {
                Some(x) => Some(x@),
                None => None,
            });
            match current_watched(e, facts, k) {
                None => (false, pending),
                Some(c) => (
                    match table_get(watched, k) {
                        Some(prev) => prev != c,
                        None => false,
                    },
                    table_put(pending, k, c),
                ),
            }
        },
        TriggerPredicate::ObservedAfter { millis } => (
            match first {
                Some(f) => saturating_diff(e.observed_at.0, f) >= millis,
                None => false,
            },
            pending,
        ),
        TriggerPredicate::EventKindIs(k) => (e.kind == k, pending),
        TriggerPredicate::SummaryContains(needle) => (
            match payload_summary_spec(e.payload) {
                Some(s) => contains_seq(s, needle@),
                None => false,
            },
            pending,
        ),
        TriggerPredicate::ArtifactUtf8Contains(needle) => (
            exists|i: int|
                0 <= i < facts.len() && ((#[trigger] facts[i]).text matches Some(t) && contains_seq(t@, needle@)),
            pending,
        ),
        TriggerPredicate::ArtifactJsonPathExists(path) => (
            exists|i: int| 0 <= i < facts.len() && path_value((#[trigger] facts[i]).paths@, path@) is Some,
            pending,
        ),
        TriggerPredicate::ArtifactJsonPathEquals { path, expected } => (
            exists|i: int|
                0 <= i < facts.len() && path_value((#[trigger] facts[i]).paths@, path@) == Some(expected@),
            pending,
        ),
        TriggerPredicate::ArtifactJsonFailsSchema(schema) => (
            exists|i: int|
                0 <= i < facts.len() && ((#[trigger] facts[i]).json matches Some(j) && validate_at(
                    j@,
                    schema@,
                    "$"@,
                ).len() > 0),
            pending,
        ),
        TriggerPredicate::All(ps) => all_eval(ps@, e, facts, lib, first, watched, pending, visiting),
        TriggerPredicate::Any(ps) => any_eval(ps@, e, facts, lib, first, watched, pending, visiting),
    }
}

/// `All`: each member in turn, stopping at the first that does not hold.
pub open spec fn all_eval(
    ps: Seq<TriggerPredicate>,
    e: EventEnvelope,
    facts: Seq<ArtifactFacts>,
    lib: Seq<(Seq<char>, TriggerPredicate)>,
    first: Option<u64>,
    watched: Seq<(KeyModel, WatchedModel)>,
    pending: Seq<(KeyModel, WatchedModel)>,
    visiting: Seq<Seq<char>>,
) -> (bool, Seq<(KeyModel, WatchedModel)>)
    decreases unvisited(lib, visiting), ps,
{
    if ps.len() == 0 {
        (true, pending)
    } else {
        let (b, p1) = pred_eval(ps[0], e, facts, lib, first, watched, pending, visiting);
        if !b {
            (false, p1)
        } else {
            all_eval(ps.drop_first(), e, facts, lib, first, watched, p1, visiting)
        }
    }
}

/// `Any`: each member in turn, stopping at the first that holds.
pub open spec fn any_eval(
    ps: Seq<TriggerPredicate>,
    e: EventEnvelope,
    facts: Seq<ArtifactFacts>,
    lib: Seq<(Seq<char>, TriggerPredicate)>,
    first: Option<u64>,
    watched: Seq<(KeyModel, WatchedModel)>,
    pending: Seq<(KeyModel, WatchedModel)>,
    visiting: Seq<Seq<char>>,
) -> (bool, Seq<(KeyModel, WatchedModel)>)
    decreases unvisited(lib, visiting), ps,
{
    if ps.len() == 0 {
        (false, pending)
    } else {
        let (b, p1) = pred_eval(ps[0], e, facts, lib, first, watched, pending, visiting);
        if b {
            (true, p1)
        } else {
            any_eval(ps.drop_first(), e, facts, lib, first, watched, p1, visiting)
        }
    }
}

fn same_opt_text(a: &Option<String>, b: &Option<String>) -> (r: bool)
    ensures
        r == ((match *a {
            Some(x) => Some(x@),
            None => None::<Seq<char>>,
        }) == (match *b {
            Some(x) => Some(x@),
            None => None::<Seq<char>>,
        })),
{
    match (a, b) {
        (Some(x), Some(y)) => str_eq(x.as_str(), y.as_str()),
        (None, None) => true,
        _ => false,
    }
}

fn same_key(a: &ValueWatchKey, b: &ValueWatchKey) -> (r: bool)
    ensures
        r == (key_view(*a) == key_view(*b)),
{
    str_eq(a.value_key.as_str(), b.value_key.as_str()) && same_opt_text(&a.path, &b.path)
}

fn copy_key(k: &ValueWatchKey) -> (r: ValueWatchKey)
    ensures
        key_view(r) == key_view(*k),
{
    ValueWatchKey {
        value_key: k.value_key.clone(),
        path: match &k.path {
            Some(p) => Some(p.clone()),
            None => None,
        },
    }
}

fn copy_watched(w: &WatchedValue) -> (r: WatchedValue)
    ensures
        watched_view(r) == watched_view(*w),
{
    match w {
        WatchedValue::Text(t) => WatchedValue::Text(t.clone()),
        WatchedValue::Query(q) => WatchedValue::Query(copy_value(q)),
    }
}

fn same_watched(a: &WatchedValue, b: &WatchedValue) -> (r: bool)
    ensures
        r == (watched_view(*a) == watched_view(*b)),
{
    match (a, b) {
        (WatchedValue::Text(x), WatchedValue::Text(y)) => str_eq(x.as_str(), y.as_str()),
        (WatchedValue::Query(x), WatchedValue::Query(y)) => same_value(x, y),
        _ => false,
    }
}

/// The value under `k` in `t`, as `table_get` states.
pub fn table_lookup<'a>(t: &'a Vec<(ValueWatchKey, WatchedValue)>, k: &ValueWatchKey) -> (r: Option<&'a WatchedValue>)
    ensures
        match r {
            Some(v) => table_get(table_view(t@), key_view(*k)) == Some(watched_view(*v)),
            None => table_get(table_view(t@), key_view(*k)) is None,
        },
{
    let n = t.len();
    let mut i: usize = 0;
    let ghost tv = table_view(t@);
    assert(tv.skip(0) =~= tv);
    while i < n
        invariant
            n == t@.len(),
            tv == table_view(t@),
            i <= n,
            table_get(tv, key_view(*k)) == table_get(tv.skip(i as int), key_view(*k)),
        decreases n - i,
    {
        proof {
            assert(tv.skip(i as int)[0] == tv[i as int]);
            assert(tv.skip(i as int).drop_first() =~= tv.skip(i + 1));
        }
        if same_key(&t[i].0, k) {
            return Some(&t[i].1);
        }
        i += 1;
    }
    None
}

proof fn lemma_table_index(t: Seq<(KeyModel, WatchedModel)>, k: KeyModel, i: int)
    requires
        0 <= i <= t.len(),
        forall|j: int| 0 <= j < i ==> (#[trigger] t[j]).0 != k,
        i < t.len() ==> t[i].0 == k,
    ensures
        table_index(t, k) == (if i < t.len() { Some(i) } else { None::<int> }),
    decreases i,
{
    if i > 0 {
        let r = t.drop_first();
        assert forall|j: int| 0 <= j < i - 1 implies (#[trigger] r[j]).0 != k by {
            assert(r[j] == t[j + 1]);
        }
        if i < t.len() {
            assert(r[i - 1] == t[i]);
        }
        lemma_table_index(r, k, i - 1);
    }
}

/// Puts `v` under `k` in `t`, as `table_put` states.
pub fn table_insert(t: &mut Vec<(ValueWatchKey, WatchedValue)>, k: ValueWatchKey, v: WatchedValue)
    ensures
        table_view(final(t)@) == table_put(table_view(old(t)@), key_view(k), watched_view(v)),
{
    let ghost tv = table_view(t@);
    let n = t.len();
    let mut i: usize = 0;
    while i < n
        invariant
            n == t@.len(),
            tv == table_view(t@),
            tv == table_view(old(t)@),
            i <= n,
            forall|j: int| 0 <= j < i ==> (#[trigger] tv[j]).0 != key_view(k),
        decreases n - i,
    {
        if same_key(&t[i].0, &k) {
            proof {
                lemma_table_index(tv, key_view(k), i as int);
            }
            let ghost kv = key_view(k);
            let ghost wv = watched_view(v);
            t.set(i, (k, v));
            proof {
                assert(table_view(t@) =~= tv.update(i as int, (kv, wv)));
            }
            return;
        }
        i += 1;
    }
    proof {
        lemma_table_index(tv, key_view(k), n as int);
    }
    let ghost kv = key_view(k);
    let ghost wv = watched_view(v);
    t.push((k, v));
    proof {
        assert(table_view(t@) =~= tv.push((kv, wv)));
    }
}

fn first_path_exec(facts: &Vec<ArtifactFacts>, path: &str) -> (r: Option<QueriedValue>)
    ensures
        match r {
            Some(v) => first_path_value(facts@, path@) == Some(v@),
            None => first_path_value(facts@, path@) is None,
        },
{
    let n = facts.len();
    let mut i: usize = 0;
    assert(facts@.skip(0) =~= facts@);
    while i < n
        invariant
            n == facts@.len(),
            i <= n,
            first_path_value(facts@, path@) == first_path_value(facts@.skip(i as int), path@),
        decreases n - i,
    {
        proof {
            assert(facts@.skip(i as int)[0] == facts@[i as int]);
            assert(facts@.skip(i as int).drop_first() =~= facts@.skip(i + 1));
        }
        match fact_path(&facts[i], path) {
            Some(v) => {
                return Some(copy_value(v));
            },
            None => {},
        }
        i += 1;
    }
    None
}

fn first_detail_exec(facts: &Vec<ArtifactFacts>) -> (r: Option<String>)
    ensures
        match r {
            Some(d) => first_detail(facts@) == Some(d@),
            None => first_detail(facts@) is None,
        },
{
    let n = facts.len();
    let mut i: usize = 0;
    assert(facts@.skip(0) =~= facts@);
    while i < n
        invariant
            n == facts@.len(),
            i <= n,
            first_detail(facts@) == first_detail(facts@.skip(i as int)),
        decreases n - i,
    {
        proof {
            assert(facts@.skip(i as int)[0] == facts@[i as int]);
            assert(facts@.skip(i as int).drop_first() =~= facts@.skip(i + 1));
        }
        match &facts[i].detail {
            Some(d) => {
                return Some(d.clone());
            },
            None => {},
        }
        i += 1;
    }
    None
}

/// The value that `k` reads from event `e`, as `current_watched` states.
pub fn current_value(e: &EventEnvelope, facts: &Vec<ArtifactFacts>, k: &ValueWatchKey) -> (r: Option<WatchedValue>)
    ensures
        match r {
            Some(w) => current_watched(*e, facts@, key_view(*k)) == Some(watched_view(w)),
            None => current_watched(*e, facts@, key_view(*k)) is None,
        },
{
    match &e.payload {
        EventPayload::Value { value_key, summary } => {
            if !str_eq(value_key.as_str(), k.value_key.as_str()) {
                return None;
            }
            match &k.path {
                Some(p) => match first_path_exec(facts, p.as_str()) {
                    Some(v) => Some(WatchedValue::Query(v)),
                    None => None,
                },
                None => match first_detail_exec(facts) {
                    Some(d) => Some(WatchedValue::Text(d)),
                    None => Some(WatchedValue::Text(summary.clone())),
                },
            }
        },
        _ => None,
    }
}

fn visiting_contains(visiting: &Vec<String>, name: &str) -> (r: bool)
    ensures
        r == views(visiting@).contains(name@),
{
    let n = visiting.len();
    let mut i: usize = 0;
    while i < n
        invariant
            n == visiting@.len(),
            i <= n,
            forall|j: int| 0 <= j < i ==> views(visiting@)[j] != name@,
        decreases n - i,
    {
        if str_eq(visiting[i].as_str(), name) {
            assert(views(visiting@)[i as int] == name@);
            return true;
        }
        i += 1;
    }
    false
}

fn timestamp_millis(t: Option<Timestamp>) -> (r: Option<u64>)
    ensures
        r == match t {
            Some(x) => Some(x.0),
            None => None::<u64>,
        },
{
    match t {
        Some(x) => Some(x.0),
        None => None,
    }
}

/// Whether predicate `p` holds for event `e` whose artifacts are `facts`,
/// as `pred_eval` states: `engine` holds the stored predicates,
/// `first_observed_at` is when the session first observed an event,
/// `watched` the values last seen; the values that this evaluation reads
/// are put into `pending`, and `visiting`, the stored predicates being
/// entered, is as it was after.
#[verifier::loop_isolation(false)]
pub fn predicate_matches(
    p: &TriggerPredicate,
    e: &EventEnvelope,
    facts: &Vec<ArtifactFacts>,
    engine: &TriggerEngine,
    first_observed_at: Option<Timestamp>,
    watched: &Vec<(ValueWatchKey, WatchedValue)>,
    pending: &mut Vec<(ValueWatchKey, WatchedValue)>,
    visiting: &mut Vec<String>,
) -> (r: bool)
    ensures
        (r, table_view(final(pending)@)) == pred_eval(
            *p,
            *e,
            facts@,
            engine@.predicates,
            match first_observed_at {
                Some(t) => Some(t.0),
                None => None::<u64>,
            },
            table_view(watched@),
            table_view(old(pending)@),
            views(old(visiting)@),
        ),
        views(final(visiting)@) == views(old(visiting)@),
    decreases unvisited(engine@.predicates, views(old(visiting)@)), p,
{
    let ghost lib = engine@.predicates;
    let ghost first = match first_observed_at {
        Some(t) => Some(t.0),
        None => None::<u64>,
    };
    let ghost wv = table_view(watched@);
    match p {
        TriggerPredicate::Expr(x) => evaluate_expression(x, e, facts),
        TriggerPredicate::Named(name) => {
            if visiting_contains(visiting, name.as_str()) {
                return false;
            }
            match engine.predicate(name.as_str()) {
                None => false,
                Some(q) => {
                    proof {
                        lemma_key_value_index(lib, name@);
                        lemma_unvisited_push(lib, views(visiting@), name@);
                    }
                    let ghost v0 = views(visiting@);
                    visiting.push(name.clone());
                    assert(views(visiting@) =~= v0.push(name@));
                    let r = predicate_matches(q, e, facts, engine, first_observed_at, watched, pending, visiting);
                    let ghost before_pop = visiting@;
                    let _ = visiting.pop();
                    proof {
                        assert(visiting@ =~= before_pop.drop_last());
                        assert(views(before_pop) =~= v0.push(name@));
                        assert forall|j: int| 0 <= j < v0.len() implies views(visiting@)[j] == v0[j] by {
                            assert(views(before_pop)[j] == v0[j]);
                        }
                        assert(views(visiting@) =~= v0);
                    }
                    r
                },
            }
        },
        TriggerPredicate::ValueChanged { value_key, path } => {
            let key = ValueWatchKey {
                value_key: value_key.clone(),
                path: match path {
                    Some(x) => Some(x.clone()),
                    None => None,
                },
            };
            match current_value(e, facts, &key) {
                None => false,
                Some(current) => {
                    let changed = match table_lookup(watched, &key) {
                        Some(previous) => !same_watched(previous, &current),
                        None => false,
                    };
                    table_insert(pending, key, current);
                    changed
                },
            }
        },
        TriggerPredicate::ObservedAfter { millis } => match timestamp_millis(first_observed_at) {
            Some(f) => {
                let elapsed = if e.observed_at.0 >= f {
                    e.observed_at.0 - f
                } else {
                    0
                };
                elapsed >= *millis
            },
            None => false,
        },
        TriggerPredicate::EventKindIs(k) => e.kind == *k,
        TriggerPredicate::SummaryContains(needle) => match payload_summary(e) {
            Some(s) => str_contains(s, needle.as_str()),
            None => false,
        },
        TriggerPredicate::ArtifactUtf8Contains(needle) => {
            let mut i: usize = 0;
            while i < facts.len()
                invariant
                    i <= facts@.len(),
                    forall|k: int| 0 <= k < i ==> !((#[trigger] facts@[k]).text matches Some(t) && contains_seq(t@, needle@)),
                decreases facts@.len() - i,
            {
                match &facts[i].text {
                    Some(t) => {
                        if str_contains(t.as_str(), needle.as_str()) {
                            assert(facts@[i as int].text matches Some(t) && contains_seq(t@, needle@));
                            return true;
                        }
                    },
                    None => {},
                }
                i += 1;
            }
            false
        },
        TriggerPredicate::ArtifactJsonPathExists(path) => {
            let mut i: usize = 0;
            while i < facts.len()
                invariant
                    i <= facts@.len(),
                    forall|k: int| 0 <= k < i ==> path_value((#[trigger] facts@[k]).paths@, path@) is None,
                decreases facts@.len() - i,
            {
                if fact_path(&facts[i], path.as_str()).is_some() {
                    assert(path_value(facts@[i as int].paths@, path@) is Some);
                    return true;
                }
                i += 1;
            }
            false
        },
        TriggerPredicate::ArtifactJsonPathEquals { path, expected } => {
            let mut i: usize = 0;
            while i < facts.len()
                invariant
                    i <= facts@.len(),
                    forall|k: int| 0 <= k < i ==> path_value((#[trigger] facts@[k]).paths@, path@) != Some(expected@),
                decreases facts@.len() - i,
            {
                match fact_path(&facts[i], path.as_str()) {
                    Some(v) => {
                        if same_value(v, expected) {
                            assert(path_value(facts@[i as int].paths@, path@) == Some(expected@));
                            return true;
                        }
                    },
                    None => {},
                }
                i += 1;
            }
            false
        },
        TriggerPredicate::ArtifactJsonFailsSchema(schema) => {
            proof {
                reveal_strlit("$");
            }
            let mut i: usize = 0;
            while i < facts.len()
                invariant
                    i <= facts@.len(),
                    forall|k: int| 0 <= k < i ==> !((#[trigger] facts@[k]).json matches Some(j) && validate_at(j@, schema@, "$"@).len() > 0),
                decreases facts@.len() - i,
            {
                match &facts[i].json {
                    Some(j) => {
                        let validation = validate_json(j, schema);
                        if !validation.is_valid() {
                            assert(facts@[i as int].json matches Some(j) && validate_at(j@, schema@, "$"@).len() > 0);
                            return true;
                        }
                    },
                    None => {},
                }
                i += 1;
            }
            false
        },
        TriggerPredicate::All(ps) => {
            let ghost vis = views(visiting@);
            let ghost start = table_view(pending@);
            let mut i: usize = 0;
            assert(ps@.skip(0) =~= ps@);
            while i < ps.len()
                invariant
                    i <= ps@.len(),
                    views(visiting@) == vis,
                    all_eval(ps@, *e, facts@, lib, first, wv, start, vis) == all_eval(
                        ps@.skip(i as int),
                        *e,
                        facts@,
                        lib,
                        first,
                        wv,
                        table_view(pending@),
                        vis,
                    ),
                decreases ps@.len() - i,
            {
                proof {
                    assert(ps@.skip(i as int)[0] == ps@[i as int]);
                    assert(ps@.skip(i as int).drop_first() =~= ps@.skip(i + 1));
                    assert(decreases_to!(*p => ps@[i as int]));
                }
                if !predicate_matches(&ps[i], e, facts, engine, first_observed_at, watched, pending, visiting) {
                    return false;
                }
                i += 1;
            }
            true
        },
        TriggerPredicate::Any(ps) => {
            let ghost vis = views(visiting@);
            let ghost start = table_view(pending@);
            let mut i: usize = 0;
            assert(ps@.skip(0) =~= ps@);
            while i < ps.len()
                invariant
                    i <= ps@.len(),
                    views(visiting@) == vis,
                    any_eval(ps@, *e, facts@, lib, first, wv, start, vis) == any_eval(
                        ps@.skip(i as int),
                        *e,
                        facts@,
                        lib,
                        first,
                        wv,
                        table_view(pending@),
                        vis,
                    ),
                decreases ps@.len() - i,
            {
                proof {
                    assert(ps@.skip(i as int)[0] == ps@[i as int]);
                    assert(ps@.skip(i as int).drop_first() =~= ps@.skip(i + 1));
                    assert(decreases_to!(*p => ps@[i as int]));
                }
                if predicate_matches(&ps[i], e, facts, engine, first_observed_at, watched, pending, visiting) {
                    return true;
                }
                i += 1;
            }
            false
        },
    }
}

/// The index of a key's first entry lies in the table and holds the key.
proof fn lemma_table_index_in_range(t: Seq<(KeyModel, WatchedModel)>, k: KeyModel)
    ensures
        table_index(t, k) matches Some(i) ==> 0 <= i < t.len() && t[i].0 == k,
    decreases t.len(),
{
    if t.len() > 0 && t[0].0 != k {
        lemma_table_index_in_range(t.drop_first(), k);
    }
}

/// Putting a value under a key and reading the key back gives the value.
proof fn lemma_table_put_get(t: Seq<(KeyModel, WatchedModel)>, k: KeyModel, v: WatchedModel)
    ensures
        table_get(table_put(t, k, v), k) == Some(v),
    decreases t.len(),
{
    if t.len() == 0 {
        assert(table_put(t, k, v)[0] == (k, v));
    } else if t[0].0 == k {
    } else {
        lemma_table_put_get(t.drop_first(), k, v);
        match table_index(t.drop_first(), k) {
            Some(i) => {
                lemma_table_index_in_range(t.drop_first(), k);
                assert(table_index(t, k) == Some(i + 1));
                assert(table_put(t, k, v).drop_first() =~= table_put(t.drop_first(), k, v));
                assert(table_put(t, k, v)[0] == t[0]);
            },
            None => {
                assert(table_index(t, k) is None);
                assert(table_put(t, k, v).drop_first() =~= table_put(t.drop_first(), k, v));
                assert(table_put(t, k, v)[0] == t[0]);
            },
        }
    }
}

/// A value watchpoint fires only on a change: it holds exactly when the
/// event carries the watched value and an earlier, different value of it
/// was recorded. Whenever the event carries the watched value, that value
/// becomes the one recorded for the key; otherwise nothing is recorded.
pub proof fn law_value_watch_fires_only_on_change(
    value_key: String,
    path: Option<String>,
    e: EventEnvelope,
    facts: Seq<ArtifactFacts>,
    lib: Seq<(Seq<char>, TriggerPredicate)>,
    first: Option<u64>,
    watched: Seq<(KeyModel, WatchedModel)>,
    pending: Seq<(KeyModel, WatchedModel)>,
    visiting: Seq<Seq<char>>,
)
    ensures
        ({
            let k = key_view(ValueWatchKey { value_key, path });
            let r = pred_eval(
                TriggerPredicate::ValueChanged { value_key, path },
                e,
                facts,
                lib,
                first,
                watched,
                pending,
                visiting,
            );
            &&& r.0 <==> (current_watched(e, facts, k) matches Some(c) && (table_get(watched, k) matches Some(
                prev,
            ) && prev != c))
            &&& (current_watched(e, facts, k) matches Some(c) ==> table_get(r.1, k) == Some(c))
            &&& (current_watched(e, facts, k) is None ==> r.1 == pending)
        }),
{
    let k = key_view(ValueWatchKey { value_key, path });
    match current_watched(e, facts, k) {
        Some(c) => lemma_table_put_get(pending, k, c),
        None => {},
    }
}

/// An elapsed-time trigger holds exactly when the trigger's first
/// observation is known and the event was observed at least `millis`
/// milliseconds after it (an event observed before it counts as no time
/// elapsed); it records nothing.
pub proof fn law_elapsed_time_gate(
    millis: u64,
    e: EventEnvelope,
    facts: Seq<ArtifactFacts>,
    lib: Seq<(Seq<char>, TriggerPredicate)>,
    first: Option<u64>,
    watched: Seq<(KeyModel, WatchedModel)>,
    pending: Seq<(KeyModel, WatchedModel)>,
    visiting: Seq<Seq<char>>,
)
    ensures
        ({
            let r = pred_eval(TriggerPredicate::ObservedAfter { millis }, e, facts, lib, first, watched, pending, visiting);
            &&& r.0 <==> (first matches Some(f) && (if f <= e.observed_at.0 {
                e.observed_at.0 - f >= millis
            } else {
                millis == 0
            }))
            &&& r.1 == pending
        }),
{
}

/// A named predicate met again while it is being evaluated does not hold
/// and records nothing, so a cycle of names ends.
pub proof fn law_named_cycle_does_not_hold(
    name: String,
    e: EventEnvelope,
    facts: Seq<ArtifactFacts>,
    lib: Seq<(Seq<char>, TriggerPredicate)>,
    first: Option<u64>,
    watched: Seq<(KeyModel, WatchedModel)>,
    pending: Seq<(KeyModel, WatchedModel)>,
    visiting: Seq<Seq<char>>,
)
    requires
        visiting.contains(name@),
    ensures
        pred_eval(TriggerPredicate::Named(name), e, facts, lib, first, watched, pending, visiting) == (
        false,
        pending,
        ),
{
}

/// `not` negates: `Not(x)` holds of an event exactly when `x` does not.
pub proof fn law_not_negates(x: QueryExpr, e: EventEnvelope, facts: Seq<ArtifactFacts>)
    ensures
        expr_holds(QueryExpr::Not(Box::new(x)), e, facts) == !expr_holds(x, e, facts),
{
}

/// A schema-failure trigger holds exactly when some artifact's JSON has a
/// mismatch against the schema; artifacts whose JSON validates cleanly, or
/// that have no JSON, never make it hold. It records nothing.
pub proof fn law_schema_failure_needs_a_mismatch(
    schema: SchemaNode,
    e: EventEnvelope,
    facts: Seq<ArtifactFacts>,
    lib: Seq<(Seq<char>, TriggerPredicate)>,
    first: Option<u64>,
    watched: Seq<(KeyModel, WatchedModel)>,
    pending: Seq<(KeyModel, WatchedModel)>,
    visiting: Seq<Seq<char>>,
)
    ensures
        ({
            let r = pred_eval(
                TriggerPredicate::ArtifactJsonFailsSchema(schema),
                e,
                facts,
                lib,
                first,
                watched,
                pending,
                visiting,
            );
            &&& (forall|i: int|
                0 <= i < facts.len() ==> match (#[trigger] facts[i]).json {
                    Some(j) => validate_at(j@, schema@, "$"@).len() == 0,
                    None => true,
                }) ==> !r.0
            &&& (forall|i: int|
                0 <= i < facts.len() && ((#[trigger] facts[i]).json matches Some(j) && validate_at(
                    j@,
                    schema@,
                    "$"@,
                ).len() > 0) ==> r.0)
            &&& r.1 == pending
        }),
{
}

} // verus!
