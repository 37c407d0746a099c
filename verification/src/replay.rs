//! Replay plans: for each nondeterministic boundary of a trace, the
//! recorded artifact that a replay feeds back in its place.
use std::collections::BTreeMap;
use vstd::prelude::*;
use vstd::std_specs::iter::IteratorSpec;
use vstd::std_specs::cmp::OrdSpec;
use crate::model::{
    concat_artifacts, concat_events, merge_emissions, AdapterEmission, ArtifactRef, BoundaryId,
    BoundaryReplayDirective, DeterminismClass, EventEnvelope, EventPayload, ReplayEntry,
    SwatResult, TargetAdapter,
};

verus! {

broadcast use vstd::std_specs::btree::group_btree_axioms, vstd::laws_cmp::group_laws_cmp;

/// The directive that event `e` contributes: a boundary that is not
/// deterministic and carries an artifact replays its first artifact.
pub open spec fn replay_entry(e: EventEnvelope) -> Option<BoundaryReplayDirective> {
    match e.payload {
        EventPayload::Boundary { boundary_id, determinism, .. } => if determinism
            == DeterminismClass::Deterministic {
            None
        } else if e.artifact_refs@.len() > 0 {
            Some(BoundaryReplayDirective { boundary_id, artifact_ref: e.artifact_refs@[0] })
        } else {
            None
        },
        _ => None,
    }
}

/// The directives of `events` by raw boundary id: the first event of each
/// boundary that contributes one wins.
pub open spec fn plan_of(events: Seq<EventEnvelope>) -> Map<u64, BoundaryReplayDirective>
    decreases events.len(),
{
    if events.len() == 0 {
        Map::empty()
    } else {
        let m = plan_of(events.drop_last());
        match replay_entry(events.last()) {
            Some(d) => if m.contains_key(d.boundary_id.0) {
                m
            } else {
                m.insert(d.boundary_id.0, d)
            },
            None => m,
        }
    }
}

/// Every directive is stored under its own boundary id.
pub open spec fn keyed_by_boundary(m: Map<u64, BoundaryReplayDirective>) -> bool {
    forall|k: u64| #[trigger] m.contains_key(k) ==> m[k].boundary_id.0 == k
}

/// Events at or before sequence number `max`.
pub open spec fn up_to(events: Seq<EventEnvelope>, max: u64) -> Seq<EventEnvelope> {
    events.filter(|e: EventEnvelope| e.sequence_no <= max)
}

/// Whether `e` is an event of boundary `b`.
pub open spec fn of_boundary(e: EventEnvelope, b: u64) -> bool {
    e.payload matches EventPayload::Boundary { boundary_id, .. } && boundary_id.0 == b
}

/// Events of boundary `b`.
pub open spec fn boundary_events(events: Seq<EventEnvelope>, b: u64) -> Seq<EventEnvelope> {
    events.filter(|e: EventEnvelope| of_boundary(e, b))
}

/// The replay directives of a trace, by boundary.
#[derive(Clone, Debug)]
pub struct ReplayPlan {
    directives: BTreeMap<u64, BoundaryReplayDirective>,
}

impl View for ReplayPlan {
    type V = Map<u64, BoundaryReplayDirective>;

    closed spec fn view(&self) -> Map<u64, BoundaryReplayDirective> {
        self.directives@
    }
}

impl Default for ReplayPlan {
    /// The plan with no directive.
    fn default() -> (r: Self)
        ensures
            r@ == Map::<u64, BoundaryReplayDirective>::empty(),
            r.wf(),
    {
        ReplayPlan { directives: BTreeMap::new() }
    }
}

/// A directive equal to `d`.
fn duplicate_directive(d: &BoundaryReplayDirective) -> (r: BoundaryReplayDirective)
    ensures
        r == *d,
{
    BoundaryReplayDirective { boundary_id: d.boundary_id, artifact_ref: d.artifact_ref.duplicate() }
}

/// Which events a plan is built from.
enum EventFilter {
    All,
    UpTo(u64),
    Boundary(u64),
}

spec fn selected(f: EventFilter, e: EventEnvelope) -> bool {
    match f {
        EventFilter::All => true,
        EventFilter::UpTo(max) => e.sequence_no <= max,
        EventFilter::Boundary(b) => of_boundary(e, b),
    }
}

fn select(f: &EventFilter, e: &EventEnvelope) -> (r: bool)
    ensures
        r == selected(*f, *e),
{
    match f {
        EventFilter::All => true,
        EventFilter::UpTo(max) => e.sequence_no <= *max,
        EventFilter::Boundary(b) => match &e.payload {
            EventPayload::Boundary { boundary_id, .. } => boundary_id.0 == *b,
            _ => false,
        },
    }
}

proof fn lemma_filter_push(s: Seq<EventEnvelope>, e: EventEnvelope, f: EventFilter)
    ensures
        s.push(e).filter(|x: EventEnvelope| selected(f, x)) == (if selected(f, e) {
            s.filter(|x: EventEnvelope| selected(f, x)).push(e)
        } else {
            s.filter(|x: EventEnvelope| selected(f, x))
        }),
{
    reveal_with_fuel(Seq::filter, 1);
    assert(s.push(e).drop_last() =~= s);
}

proof fn lemma_plan_keyed(events: Seq<EventEnvelope>)
    ensures
        keyed_by_boundary(plan_of(events)),
    decreases events.len(),
{
    if events.len() > 0 {
        lemma_plan_keyed(events.drop_last());
    }
}

/// Builds the plan of the events that `f` selects.
fn plan_where(events: &[EventEnvelope], f: EventFilter) -> (r: BTreeMap<u64, BoundaryReplayDirective>)
    ensures
        r@ == plan_of(events@.filter(|x: EventEnvelope| selected(f, x))),
{
    let mut directives: BTreeMap<u64, BoundaryReplayDirective> = BTreeMap::new();
    let n = events.len();
    let mut i: usize = 0;
    assert(events@.subrange(0, 0).filter(|x: EventEnvelope| selected(f, x)) =~= Seq::<
        EventEnvelope,
    >::empty());
    while i < n
        invariant
            i <= n,
            n == events@.len(),
            directives@ == plan_of(
                events@.subrange(0, i as int).filter(|x: EventEnvelope| selected(f, x)),
            ),
        decreases n - i,
    {
        let event = &events[i];
        proof {
            assert(events@.subrange(0, i + 1) =~= events@.subrange(0, i as int).push(*event));
            lemma_filter_push(events@.subrange(0, i as int), *event, f);
        }
        if select(&f, event) {
            let ghost fs = events@.subrange(0, i as int).filter(|x: EventEnvelope| selected(f, x));
            assert(fs.push(*event).drop_last() =~= fs);
            match &event.payload {
                EventPayload::Boundary { boundary_id, determinism, .. } => {
                    let nondeterministic = match determinism {
                        DeterminismClass::Deterministic => false,
                        _ => true,
                    };
                    if nondeterministic && event.artifact_refs.len() > 0 {
                        let key = boundary_id.0;
                        if !directives.contains_key(&key) {
                            let directive = BoundaryReplayDirective {
                                boundary_id: *boundary_id,
                                artifact_ref: event.artifact_refs[0].duplicate(),
                            };
                            directives.insert(key, directive);
                        }
                    }
                },
                _ => {},
            }
        }
        i += 1;
    }
    assert(events@.subrange(0, n as int) =~= events@);
    directives
}

impl ReplayPlan {
    /// Every directive is stored under its own boundary id.
    pub closed spec fn wf(&self) -> bool {
        keyed_by_boundary(self.directives@)
    }

    /// The plan of a trace: for each boundary that is not deterministic, the
    /// first artifact of its first event that carries one.
    pub fn from_events(events: &[EventEnvelope]) -> (r: Self)
        ensures
            r@ == plan_of(events@),
            r.wf(),
    {
        let directives = plan_where(events, EventFilter::All);
        proof {
            lemma_filter_everything(events@);
        }
        proof {
            lemma_plan_keyed(events@);
        }
        ReplayPlan { directives }
    }

    /// The plan of the events at or before sequence number
    /// `max_sequence_no`.
    pub fn from_events_up_to(events: &[EventEnvelope], max_sequence_no: u64) -> (r: Self)
        ensures
            r@ == plan_of(up_to(events@, max_sequence_no)),
            r.wf(),
    {
        let directives = plan_where(events, EventFilter::UpTo(max_sequence_no));
        assert((|x: EventEnvelope| selected(EventFilter::UpTo(max_sequence_no), x)) =~= (|
            e: EventEnvelope,
        | e.sequence_no <= max_sequence_no));
        proof {
            lemma_plan_keyed(up_to(events@, max_sequence_no));
        }
        ReplayPlan { directives }
    }

    /// The plan of the events of boundary `boundary_id` alone.
    pub fn for_boundary(events: &[EventEnvelope], boundary_id: BoundaryId) -> (r: Self)
        ensures
            r@ == plan_of(boundary_events(events@, boundary_id.0)),
            r.wf(),
    {
        let directives = plan_where(events, EventFilter::Boundary(boundary_id.0));
        assert((|x: EventEnvelope| selected(EventFilter::Boundary(boundary_id.0), x)) =~= (|
            e: EventEnvelope,
        | of_boundary(e, boundary_id.0)));
        proof {
            lemma_plan_keyed(boundary_events(events@, boundary_id.0));
        }
        ReplayPlan { directives }
    }

    /// Number of directives.
    pub fn len(&self) -> (r: usize)
        ensures
            r == self@.len(),
    {
        self.directives.len()
    }

    /// Whether the plan has no directive.
    pub fn is_empty(&self) -> (r: bool)
        ensures
            r == (self@.len() == 0),
    {
        self.directives.is_empty()
    }

    /// Whether the plan replays boundary `boundary_id`.
    pub fn has_boundary(&self, boundary_id: BoundaryId) -> (r: bool)
        ensures
            r == self@.contains_key(boundary_id.0),
    {
        self.directives.contains_key(&boundary_id.0)
    }

    /// The directives in increasing order of boundary id.
    pub fn directives(&self) -> (r: Vec<&BoundaryReplayDirective>)
        requires
            self.wf(),
        ensures
            r@.len() == self@.len(),
            forall|i: int|
                0 <= i < r@.len() ==> self@.contains_key(#[trigger] r@[i].boundary_id.0)
                    && self@[r@[i].boundary_id.0] == *r@[i],
            forall|i: int, j: int|
                0 <= i < j < r@.len() ==> r@[i].boundary_id.0 < r@[j].boundary_id.0,
    {
        assert(self@.dom() =~= self.directives@.dom());
        let keys = self.directives.keys();
        let ghost ks = IteratorSpec::remaining(&keys);
        proof {
            assert(ks.unref().to_set() == self.directives@.dom());
            assert forall|i: int| 0 <= i < ks.len() implies self.directives@.contains_key(
                *#[trigger] ks[i],
            ) by {
                assert(ks.unref()[i] == *ks[i]);
                assert(ks.unref().contains(*ks[i]));
            }
            broadcast use vstd::laws_cmp::lemma_ref_obeys_cmp_spec;

            assert(vstd::laws_cmp::obeys_cmp::<u64>());
            assert(vstd::laws_cmp::obeys_cmp::<&u64>());
            assert(vstd::std_specs::btree::increasing_seq(ks));
            assert forall|i: int, j: int| 0 <= i < j < ks.len() implies *ks[i] < *ks[j] by {
                assert(ordered_before::<&u64>(&ks[i], &ks[j]));
            }
        }
        let mut out: Vec<&BoundaryReplayDirective> = Vec::new();
        for k in it: keys
            invariant
                keyed_by_boundary(self.directives@),
                it.seq() == ks,
                ks.len() == self.directives@.len(),
                forall|i: int| 0 <= i < ks.len() ==> self.directives@.contains_key(*#[trigger] ks[i]),
                forall|i: int, j: int| 0 <= i < j < ks.len() ==> *ks[i] < *ks[j],
                out@.len() == it.index(),
                forall|i: int|
                    0 <= i < out@.len() ==> #[trigger] out@[i] == self.directives@[*ks[i]],
        {
            match self.directives.get(k) {
                Some(d) => out.push(d),
                None => {},
            }
        }
        out
    }
}

/// `a` comes before `b` in the order of `K`.
spec fn ordered_before<K: Ord>(a: &K, b: &K) -> bool {
    a.cmp_spec(b) is Less
}

/// Feeds a replay plan to an adapter.
#[derive(Clone, Copy, Debug)]
pub struct ReplayController;

/// `ds` is the plan `plan` in increasing order of boundary id.
pub open spec fn in_plan_order(
    plan: Map<u64, BoundaryReplayDirective>,
    ds: Seq<BoundaryReplayDirective>,
) -> bool {
    &&& ds.len() == plan.len()
    &&& forall|i: int|
        0 <= i < ds.len() ==> plan.contains_key(#[trigger] ds[i].boundary_id.0) && plan[ds[i].boundary_id.0]
            == ds[i]
    &&& forall|i: int, j: int| 0 <= i < j < ds.len() ==> ds[i].boundary_id.0 < ds[j].boundary_id.0
}

/// The emissions that the replays of `entries` answered with.
pub open spec fn answered(entries: Seq<ReplayEntry>) -> Seq<AdapterEmission> {
    entries.map_values(|x: ReplayEntry| x.1->Ok_0)
}

/// A replay of `ds` that logged `added` and gave `r`: the directives went
/// out in order, one at a time, up to and including the first refusal;
/// on success every directive went out and `r` merges the answers in order;
/// on a refusal `r` is that refusal.
pub open spec fn replay_outcome(
    ds: Seq<BoundaryReplayDirective>,
    added: Seq<ReplayEntry>,
    r: SwatResult<AdapterEmission>,
) -> bool {
    &&& added.len() <= ds.len()
    &&& forall|i: int| 0 <= i < added.len() ==> (#[trigger] added[i]).0 == ds[i]
    &&& forall|i: int| 0 <= i < added.len() - 1 ==> (#[trigger] added[i]).1 is Ok
    &&& match r {
        Ok(m) => {
            &&& added.len() == ds.len()
            &&& forall|i: int| 0 <= i < added.len() ==> (#[trigger] added[i]).1 is Ok
            &&& m.pending_events@ == concat_events(answered(added))
            &&& m.pending_artifacts@ == concat_artifacts(answered(added))
        },
        Err(e) => added.len() > 0 && added.last().1 == SwatResult::<AdapterEmission>::Err(e),
    }
}

impl ReplayController {
    /// Hands each directive of `plan`, in increasing order of boundary id,
    /// to the adapter, and merges what the adapter emits in turn; the first
    /// refusal stops the replay.
    pub fn apply<A: TargetAdapter + ?Sized>(&self, adapter: &mut A, plan: &ReplayPlan) -> (r:
        SwatResult<AdapterEmission>)
        requires
            plan.wf(),
        ensures
            final(adapter).logs_replays() == old(adapter).logs_replays(),
            old(adapter).logs_replays() ==> {
                &&& old(adapter).replay_log().len() <= final(adapter).replay_log().len()
                &&& final(adapter).replay_log().take(old(adapter).replay_log().len() as int)
                    == old(adapter).replay_log()
                &&& exists|ds: Seq<BoundaryReplayDirective>|
                    #[trigger] in_plan_order(plan@, ds) && replay_outcome(
                        ds,
                        final(adapter).replay_log().skip(old(adapter).replay_log().len() as int),
                        r,
                    )
            },
            plan@.len() == 0 ==> (r matches Ok(m) && m.pending_events@.len() == 0
                && m.pending_artifacts@.len() == 0),
            r is Err ==> plan@.len() > 0,
    {
        let directives = plan.directives();
        let ghost ds = directives@.map_values(|d: &BoundaryReplayDirective| *d);
        let ghost logs = adapter.logs_replays();
        let ghost before = adapter.replay_log();
        let ghost b = before.len() as int;
        let mut emissions: Vec<AdapterEmission> = Vec::new();
        let n = directives.len();
        let mut i: usize = 0;
        assert(in_plan_order(plan@, ds));
        assert(adapter.replay_log().take(b) =~= before);
        assert(answered(adapter.replay_log().skip(b)) =~= emissions@);
        while i < n
            invariant
                i <= n,
                n == directives@.len(),
                ds == directives@.map_values(|d: &BoundaryReplayDirective| *d),
                in_plan_order(plan@, ds),
                logs == old(adapter).logs_replays(),
                adapter.logs_replays() == logs,
                before == old(adapter).replay_log(),
                b == before.len(),
                logs ==> {
                    &&& adapter.replay_log().len() == b + i
                    &&& adapter.replay_log().take(b) == before
                    &&& forall|j: int|
                        0 <= j < i ==> (#[trigger] adapter.replay_log()[b + j]).0 == ds[j]
                            && adapter.replay_log()[b + j].1 is Ok
                    &&& emissions@ == answered(adapter.replay_log().skip(b))
                },
                !logs ==> emissions@.len() == i,
            decreases n - i,
        {
            let directive = duplicate_directive(directives[i]);
            let ghost log0 = adapter.replay_log();
            let answer = adapter.inject_boundary_replay(directive);
            proof {
                if logs {
                    let log1 = adapter.replay_log();
                    assert(log1 == log0.push((ds[i as int], answer)));
                    assert(log1.take(b) =~= before);
                    assert forall|j: int| 0 <= j < i implies (#[trigger] log1[b + j]).0 == ds[j]
                        && log1[b + j].1 is Ok by {
                        assert(log1[b + j] == log0[b + j]);
                    }
                }
            }
            match answer {
                Ok(emission) => {
                    proof {
                        if logs {
                            let log1 = adapter.replay_log();
                            assert(answered(log1.skip(b)) =~= answered(log0.skip(b)).push(
                                emission,
                            ));
                        }
                    }
                    emissions.push(emission);
                },
                Err(e) => {
                    proof {
                        if logs {
                            let added = adapter.replay_log().skip(b);
                            assert(added.len() == i + 1);
                            assert forall|j: int| 0 <= j < added.len() implies (
                            #[trigger] added[j]).0 == ds[j] by {
                                assert(added[j] == adapter.replay_log()[b + j]);
                            }
                            assert forall|j: int| 0 <= j < added.len() - 1 implies (
                            #[trigger] added[j]).1 is Ok by {
                                assert(added[j] == adapter.replay_log()[b + j]);
                            }
                            assert(replay_outcome(ds, added, Err(e)));
                        }
                    }
                    return Err(e);
                },
            }
            i += 1;
        }
        let merged = merge_emissions(emissions);
        proof {
            if logs {
                let added = adapter.replay_log().skip(b);
                assert forall|j: int| 0 <= j < added.len() implies (#[trigger] added[j]).0
                    == ds[j] && added[j].1 is Ok by {
                    assert(added[j] == adapter.replay_log()[b + j]);
                }
                if n == 0 {
                    assert(answered(added) =~= Seq::<AdapterEmission>::empty());
                }
                assert(replay_outcome(ds, added, Ok(merged)));
            }
        }
        Ok(merged)
    }
}

/// Within one trace, the earliest contributing event of a boundary decides
/// its directive: events appended later never change a directive that is
/// already planned.
pub proof fn law_first_event_wins(a: Seq<EventEnvelope>, b: Seq<EventEnvelope>, k: u64)
    requires
        plan_of(a).contains_key(k),
    ensures
        plan_of(a + b).contains_key(k),
        plan_of(a + b)[k] == plan_of(a)[k],
    decreases b.len(),
{
    if b.len() > 0 {
        law_first_event_wins(a, b.drop_last(), k);
        assert((a + b).drop_last() =~= a + b.drop_last());
    } else {
        assert(a + b =~= a);
    }
}

/// Planning up to the largest sequence number plans the whole trace.
pub proof fn law_up_to_everything(events: Seq<EventEnvelope>)
    ensures
        plan_of(up_to(events, u64::MAX)) == plan_of(events),
{
    assert(up_to(events, u64::MAX) =~= events) by {
        reveal_with_fuel(Seq::filter, 1);
        lemma_filter_all(events);
    }
}

proof fn lemma_filter_everything(events: Seq<EventEnvelope>)
    ensures
        events.filter(|x: EventEnvelope| selected(EventFilter::All, x)) == events,
    decreases events.len(),
{
    reveal_with_fuel(Seq::filter, 1);
    if events.len() > 0 {
        lemma_filter_everything(events.drop_last());
        assert(events.drop_last().push(events.last()) =~= events);
    } else {
        assert(events.filter(|x: EventEnvelope| selected(EventFilter::All, x)) =~= events);
    }
}

proof fn lemma_filter_all(events: Seq<EventEnvelope>)
    ensures
        events.filter(|e: EventEnvelope| e.sequence_no <= u64::MAX) == events,
    decreases events.len(),
{
    reveal_with_fuel(Seq::filter, 1);
    if events.len() > 0 {
        lemma_filter_all(events.drop_last());
        assert(events.drop_last().push(events.last()) =~= events);
    } else {
        assert(events.filter(|e: EventEnvelope| e.sequence_no <= u64::MAX) =~= events);
    }
}

/// A plan only holds boundaries that some event of the trace names, and
/// each directive replays an artifact of such an event.
pub proof fn law_planned_boundaries_come_from_events(events: Seq<EventEnvelope>, k: u64)
    requires
        plan_of(events).contains_key(k),
    ensures
        exists|i: int|
            0 <= i < events.len() && replay_entry(#[trigger] events[i]) == Some(plan_of(events)[k]),
        plan_of(events)[k].boundary_id.0 == k,
    decreases events.len(),
{
    lemma_plan_keyed(events);
    let m = plan_of(events.drop_last());
    if m.contains_key(k) {
        law_planned_boundaries_come_from_events(events.drop_last(), k);
        let i = choose|i: int|
            0 <= i < events.drop_last().len() && replay_entry(#[trigger] events.drop_last()[i])
                == Some(m[k]);
        assert(events[i] == events.drop_last()[i]);
    } else {
        assert(replay_entry(events[events.len() - 1]) == Some(plan_of(events)[k]));
    }
}

/// Planning one boundary gives the whole plan restricted to that boundary:
/// the same directive where the whole plan has one, and nothing else.
pub proof fn law_for_boundary_is_restriction(events: Seq<EventEnvelope>, b: u64)
    ensures
        plan_of(boundary_events(events, b)) == plan_of(events).restrict(set![b]),
    decreases events.len(),
{
    reveal_with_fuel(Seq::filter, 1);
    if events.len() == 0 {
        assert(boundary_events(events, b) =~= events);
        assert(plan_of(events).restrict(set![b]) =~= Map::empty());
    } else {
        let init = events.drop_last();
        let e = events.last();
        law_for_boundary_is_restriction(init, b);
        let sub = boundary_events(init, b);
        assert(boundary_events(events, b) == if of_boundary(e, b) {
            sub.push(e)
        } else {
            sub
        });
        if of_boundary(e, b) {
            assert(sub.push(e).drop_last() =~= sub);
            assert(plan_of(boundary_events(events, b)) =~= plan_of(events).restrict(set![b]));
        } else {
            match replay_entry(e) {
                Some(d) => {
                    assert(d.boundary_id.0 != b);
                },
                None => {},
            }
            assert(plan_of(boundary_events(events, b)) =~= plan_of(events).restrict(set![b]));
        }
    }
}

/// A plan holds at most one directive per event: it is finite and no
/// larger than the trace.
pub proof fn law_plan_no_larger_than_trace(events: Seq<EventEnvelope>)
    ensures
        plan_of(events).dom().finite(),
        plan_of(events).len() <= events.len(),
    decreases events.len(),
{
    if events.len() > 0 {
        law_plan_no_larger_than_trace(events.drop_last());
    }
}

/// Whether `e` is a boundary event that is not deterministic and carries
/// an artifact.
pub open spec fn replayable(e: EventEnvelope) -> bool {
    &&& e.payload matches EventPayload::Boundary { determinism, .. }
        && determinism != DeterminismClass::Deterministic
    &&& e.artifact_refs@.len() > 0
}

proof fn lemma_entry_planned(events: Seq<EventEnvelope>, i: int)
    requires
        0 <= i < events.len(),
        replay_entry(events[i]) is Some,
    ensures
        plan_of(events).contains_key(replay_entry(events[i])->Some_0.boundary_id.0),
    decreases events.len(),
{
    if i < events.len() - 1 {
        lemma_entry_planned(events.drop_last(), i);
        assert(events.drop_last()[i] == events[i]);
    }
}

/// A plan is empty exactly when no event of the trace is a boundary that
/// is not deterministic and carries an artifact.
pub proof fn law_plan_empty_iff_nothing_replayable(events: Seq<EventEnvelope>)
    ensures
        plan_of(events).len() == 0 <==> forall|i: int|
            0 <= i < events.len() ==> !replayable(#[trigger] events[i]),
    decreases events.len(),
{
    law_plan_no_larger_than_trace(events);
    if exists|i: int| 0 <= i < events.len() && replayable(#[trigger] events[i]) {
        let i = choose|i: int| 0 <= i < events.len() && replayable(#[trigger] events[i]);
        assert(replay_entry(events[i]) is Some);
        lemma_entry_planned(events, i);
        assert(plan_of(events).dom().contains(replay_entry(events[i])->Some_0.boundary_id.0));
    } else if events.len() > 0 {
        law_plan_empty_iff_nothing_replayable(events.drop_last());
        assert forall|i: int| 0 <= i < events.drop_last().len() implies !replayable(
            #[trigger] events.drop_last()[i],
        ) by {
            assert(events.drop_last()[i] == events[i]);
        }
        assert(!replayable(events[events.len() - 1]));
        assert(plan_of(events.drop_last()).dom() =~= Set::empty());
        assert(plan_of(events) =~= plan_of(events.drop_last()));
    }
}

/// A boundary all of whose events are deterministic is never planned.
pub proof fn law_deterministic_boundary_never_planned(events: Seq<EventEnvelope>, b: u64)
    requires
        forall|i: int|
            0 <= i < events.len() && of_boundary(#[trigger] events[i], b) ==> (
            events[i].payload matches EventPayload::Boundary { determinism, .. } && determinism
                == DeterminismClass::Deterministic),
    ensures
        !plan_of(events).contains_key(b),
{
    if plan_of(events).contains_key(b) {
        law_planned_boundaries_come_from_events(events, b);
        let i = choose|i: int|
            0 <= i < events.len() && replay_entry(#[trigger] events[i]) == Some(plan_of(events)[b]);
        assert(of_boundary(events[i], b));
    }
}

/// The boundary ids of `ds`.
spec fn order_keys(ds: Seq<BoundaryReplayDirective>) -> Seq<u64> {
    ds.map_values(|d: BoundaryReplayDirective| d.boundary_id.0)
}

/// A sequence in plan order names every boundary of the plan.
proof fn lemma_plan_order_covers(plan: Map<u64, BoundaryReplayDirective>, ds: Seq<BoundaryReplayDirective>)
    requires
        plan.dom().finite(),
        in_plan_order(plan, ds),
    ensures
        forall|k: u64| #[trigger] plan.contains_key(k) ==> exists|j: int| 0 <= j < ds.len() && ds[j].boundary_id.0 == k,
{
    let ks = order_keys(ds);
    assert forall|a: int, b: int| 0 <= a < ks.len() && 0 <= b < ks.len() && a != b implies ks[a] != ks[b] by {
        if a < b {
            assert(ds[a].boundary_id.0 < ds[b].boundary_id.0);
        } else {
            assert(ds[b].boundary_id.0 < ds[a].boundary_id.0);
        }
    }
    assert(ks.no_duplicates());
    ks.unique_seq_to_set();
    assert forall|k: u64| ks.to_set().contains(k) implies plan.dom().contains(k) by {
        assert(ks.contains(k));
        let j = choose|j: int| 0 <= j < ks.len() && ks[j] == k;
        assert(plan.contains_key(ds[j].boundary_id.0));
    }
    vstd::set_lib::lemma_subset_equality(ks.to_set(), plan.dom());
    assert forall|k: u64| #[trigger] plan.contains_key(k) implies exists|j: int|
        0 <= j < ds.len() && ds[j].boundary_id.0 == k by {
        assert(ks.to_set().contains(k));
        assert(ks.contains(k));
        let j = choose|j: int| 0 <= j < ks.len() && ks[j] == k;
        assert(ds[j].boundary_id.0 == k);
    }
}

/// A plan has one order: two sequences that list it in increasing order
/// of boundary id are the same.
pub proof fn law_plan_order_unique(
    plan: Map<u64, BoundaryReplayDirective>,
    ds1: Seq<BoundaryReplayDirective>,
    ds2: Seq<BoundaryReplayDirective>,
)
    requires
        plan.dom().finite(),
        in_plan_order(plan, ds1),
        in_plan_order(plan, ds2),
    ensures
        ds1 == ds2,
{
    lemma_plan_order_covers(plan, ds1);
    lemma_plan_order_covers(plan, ds2);
    assert forall|i: int| 0 <= i < ds1.len() implies ds1[i] == ds2[i] by {
        lemma_plan_order_same_at(plan, ds1, ds2, i);
    }
    assert(ds1 =~= ds2);
}

proof fn lemma_plan_order_same_at(
    plan: Map<u64, BoundaryReplayDirective>,
    ds1: Seq<BoundaryReplayDirective>,
    ds2: Seq<BoundaryReplayDirective>,
    i: int,
)
    requires
        in_plan_order(plan, ds1),
        in_plan_order(plan, ds2),
        forall|k: u64| #[trigger] plan.contains_key(k) ==> exists|j: int| 0 <= j < ds1.len() && ds1[j].boundary_id.0 == k,
        forall|k: u64| #[trigger] plan.contains_key(k) ==> exists|j: int| 0 <= j < ds2.len() && ds2[j].boundary_id.0 == k,
        0 <= i < ds1.len(),
    ensures
        ds1[i] == ds2[i],
    decreases i,
{
    if i > 0 {
        lemma_plan_order_same_at(plan, ds1, ds2, i - 1);
    }
    let k1 = ds1[i].boundary_id.0;
    let k2 = ds2[i].boundary_id.0;
    assert(plan.contains_key(k1));
    assert(plan.contains_key(k2));
    if k1 < k2 {
        let j = choose|j: int| 0 <= j < ds2.len() && ds2[j].boundary_id.0 == k1;
        if j < i {
            lemma_plan_order_same_at(plan, ds1, ds2, j);
            assert(ds1[j].boundary_id.0 < ds1[i].boundary_id.0);
        } else if j > i {
            assert(ds2[i].boundary_id.0 < ds2[j].boundary_id.0);
        }
    } else if k2 < k1 {
        let j = choose|j: int| 0 <= j < ds1.len() && ds1[j].boundary_id.0 == k2;
        if j < i {
            lemma_plan_order_same_at(plan, ds1, ds2, j);
            assert(ds2[j].boundary_id.0 < ds2[i].boundary_id.0);
        } else if j > i {
            assert(ds1[i].boundary_id.0 < ds1[j].boundary_id.0);
        }
    }
    assert(ds1[i] == plan[k1]);
    assert(ds2[i] == plan[k2]);
}

} // verus!
