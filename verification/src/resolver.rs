//! The entities that a trace mentions (boundaries, correlations, spans,
//! names, keys, source places, PC/GEOS patients, handles, resources and
//! objects), how they relate, and how they are ordered.
use vstd::prelude::*;
use crate::model::{BoundaryId, EventEnvelope, EventId, EventPayload};
use crate::text::{decimal, push_decimal};
use crate::strmap::{str_lt, string_lt, lemma_str_lt_total, lemma_str_lt_asymmetric, lemma_str_lt_irreflexive};

verus! {

/// What kind of thing an entity is; kinds are ordered as listed.
#[derive(Clone, Copy, Debug, PartialEq, Eq, Structural)]
pub enum ResolvedEntityKind {
    BoundaryId,
    CorrelationId,
    SpanId,
    ModelName,
    ToolName,
    PlannerName,
    StateKey,
    PolicyName,
    SourceFile,
    FunctionName,
    ValueKey,
    Patient,
    Handle,
    Resource,
    Object,
}

/// The position of a kind in the order of kinds.
pub open spec fn kind_rank(k: ResolvedEntityKind) -> int {
    match k {
        ResolvedEntityKind::BoundaryId => 0,
        ResolvedEntityKind::CorrelationId => 1,
        ResolvedEntityKind::SpanId => 2,
        ResolvedEntityKind::ModelName => 3,
        ResolvedEntityKind::ToolName => 4,
        ResolvedEntityKind::PlannerName => 5,
        ResolvedEntityKind::StateKey => 6,
        ResolvedEntityKind::PolicyName => 7,
        ResolvedEntityKind::SourceFile => 8,
        ResolvedEntityKind::FunctionName => 9,
        ResolvedEntityKind::ValueKey => 10,
        ResolvedEntityKind::Patient => 11,
        ResolvedEntityKind::Handle => 12,
        ResolvedEntityKind::Resource => 13,
        ResolvedEntityKind::Object => 14,
    }
}

fn rank(k: ResolvedEntityKind) -> (r: u8)
    ensures
        r as int == kind_rank(k),
{
    match k {
        ResolvedEntityKind::BoundaryId => 0,
        ResolvedEntityKind::CorrelationId => 1,
        ResolvedEntityKind::SpanId => 2,
        ResolvedEntityKind::ModelName => 3,
        ResolvedEntityKind::ToolName => 4,
        ResolvedEntityKind::PlannerName => 5,
        ResolvedEntityKind::StateKey => 6,
        ResolvedEntityKind::PolicyName => 7,
        ResolvedEntityKind::SourceFile => 8,
        ResolvedEntityKind::FunctionName => 9,
        ResolvedEntityKind::ValueKey => 10,
        ResolvedEntityKind::Patient => 11,
        ResolvedEntityKind::Handle => 12,
        ResolvedEntityKind::Resource => 13,
        ResolvedEntityKind::Object => 14,
    }
}

/// An entity: a kind and a name.
#[derive(Clone, Debug, PartialEq, Eq)]
pub struct EntityRef {
    pub kind: ResolvedEntityKind,
    pub name: String,
}

/// The entities that the fields of `e` name, in entity order: its
/// boundary, its correlation id, its value key.
pub open spec fn field_entities(e: EventEnvelope) -> Seq<(ResolvedEntityKind, Seq<char>)> {
    let correlation = match e.causality.correlation_id {
        Some(c) => seq![(ResolvedEntityKind::CorrelationId, c@)],
        None => Seq::empty(),
    };
    match e.payload {
        EventPayload::Boundary { boundary_id, .. } => seq![
            (ResolvedEntityKind::BoundaryId, decimal(boundary_id.0 as nat)),
        ] + correlation,
        EventPayload::Value { value_key, .. } => correlation + seq![
            (ResolvedEntityKind::ValueKey, value_key@),
        ],
        _ => correlation,
    }
}

/// The entities that an event names in its own fields, in entity order and
/// once each: the correlation id of its causality, the boundary of a
/// boundary payload (by its number) and the key of a value payload.
pub fn event_field_entities(e: &EventEnvelope) -> (r: Vec<EntityRef>)
    ensures
        r@.map_values(|x: EntityRef| (x.kind, x.name@)) == field_entities(*e),
{
    let mut out: Vec<EntityRef> = Vec::new();
    match &e.payload {
        EventPayload::Boundary { boundary_id, .. } => {
            let mut name = String::new();
            push_decimal(&mut name, boundary_id.0);
            out.push(EntityRef { kind: ResolvedEntityKind::BoundaryId, name });
        },
        _ => {},
    }
    match &e.causality.correlation_id {
        Some(c) => out.push(EntityRef { kind: ResolvedEntityKind::CorrelationId, name: c.clone() }),
        None => {},
    }
    match &e.payload {
        EventPayload::Value { value_key, .. } => {
            out.push(EntityRef { kind: ResolvedEntityKind::ValueKey, name: value_key.clone() });
        },
        _ => {},
    }
    assert(out@.map_values(|x: EntityRef| (x.kind, x.name@)) =~= field_entities(*e));
    out
}

/// An entity and the events that mention it.
#[derive(Clone, Debug, PartialEq, Eq)]
pub struct ResolvedEntity {
    pub entity: EntityRef,
    pub event_ids: Vec<EventId>,
}

/// A boundary and its events.
#[derive(Clone, Debug, PartialEq, Eq)]
pub struct BoundarySpan {
    pub boundary_id: BoundaryId,
    pub event_ids: Vec<EventId>,
}

/// Two entities mentioned by the same events.
#[derive(Clone, Debug, PartialEq, Eq)]
pub struct EntityRelation {
    pub left: EntityRef,
    pub right: EntityRef,
    pub event_ids: Vec<EventId>,
}

/// What shares a correlation id.
#[derive(Clone, Debug, PartialEq, Eq)]
pub struct CorrelationGroup {
    pub correlation_id: String,
    pub event_ids: Vec<EventId>,
    pub boundary_ids: Vec<BoundaryId>,
    pub span_ids: Vec<String>,
    pub entities: Vec<EntityRef>,
}

/// What a trace resolves to.
#[derive(Clone, Debug, PartialEq, Eq)]
pub struct TraceIndex {
    pub entities: Vec<ResolvedEntity>,
    pub boundary_spans: Vec<BoundarySpan>,
    pub relations: Vec<EntityRelation>,
    pub correlation_groups: Vec<CorrelationGroup>,
}

impl TraceIndex {
    /// An index of nothing (`Default`).
    pub fn empty() -> (r: Self)
        ensures
            r.entities@.len() == 0,
            r.boundary_spans@.len() == 0,
            r.relations@.len() == 0,
            r.correlation_groups@.len() == 0,
    {
        TraceIndex {
            entities: Vec::new(),
            boundary_spans: Vec::new(),
            relations: Vec::new(),
            correlation_groups: Vec::new(),
        }
    }
}

/// Entity order: by kind, then by name in string order.
pub open spec fn entity_lt(a: EntityRef, b: EntityRef) -> bool {
    kind_rank(a.kind) < kind_rank(b.kind) || (a.kind == b.kind && str_lt(a.name@, b.name@))
}

/// Whether `a` comes before `b`.
pub fn entity_less(a: &EntityRef, b: &EntityRef) -> (r: bool)
    ensures
        r == entity_lt(*a, *b),
{
    let ra = rank(a.kind);
    let rb = rank(b.kind);
    if ra < rb {
        true
    } else if ra > rb {
        false
    } else {
        proof {
            assert(a.kind == b.kind) by {
                assert(kind_rank(a.kind) == kind_rank(b.kind));
            }
        }
        string_lt(a.name.as_str(), b.name.as_str())
    }
}

/// A pair of entities, the lesser first.
pub fn ordered_pair(left: EntityRef, right: EntityRef) -> (r: (EntityRef, EntityRef))
    ensures
        !entity_lt(right, left) ==> r == (left, right),
        entity_lt(right, left) ==> r == (right, left),
{
    if !entity_less(&right, &left) {
        (left, right)
    } else {
        (right, left)
    }
}

/// Ordering a pair puts it in order and keeps both entities.
pub proof fn law_ordered_pair_is_ordered(left: EntityRef, right: EntityRef)
    ensures
        ({
            let r = if entity_lt(right, left) { (right, left) } else { (left, right) };
            &&& !entity_lt(r.1, r.0)
            &&& (r == (left, right) || r == (right, left))
        }),
{
    if entity_lt(right, left) {
        if right.kind == left.kind {
            lemma_str_lt_asymmetric(right.name@, left.name@);
        }
    }
}

/// Appends `event_id` unless it is already the last one.
pub fn push_event_id(event_ids: &mut Vec<EventId>, event_id: EventId)
    ensures
        old(event_ids)@.len() > 0 && old(event_ids)@.last() == event_id ==> final(event_ids)@ == old(event_ids)@,
        !(old(event_ids)@.len() > 0 && old(event_ids)@.last() == event_id) ==> final(event_ids)@ == old(event_ids)@.push(event_id),
{
    let n = event_ids.len();
    if n > 0 && event_ids[n - 1].0 == event_id.0 {
        return;
    }
    event_ids.push(event_id);
}

} // verus!
