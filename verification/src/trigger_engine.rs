//! The trigger engine's bookkeeping: its triggers in order, its library of
//! named predicates, and one armed/disarmed policy per trigger group.
use vstd::prelude::*;
use crate::control::{Trigger, TriggerGroupPolicy, TriggerPredicate, WatchpointDescriptor, merge_watchpoint_descriptor};
use crate::model::EventKind;
use crate::model::TriggerId;
use crate::strmap::{
    StrMap, has_key, key_value, sorted_keys, with_key, without_key, lemma_with_after_without,
    lemma_present, lemma_absent, lemma_lower_bound,
};
use crate::text::owned;
use crate::strmap::{lemma_keys_with, lemma_keys_without};

verus! {

impl View for TriggerPredicate {
    type V = TriggerPredicate;

    open spec fn view(&self) -> TriggerPredicate {
        *self
    }
}

/// The group of a trigger, as text.
pub open spec fn group_of(t: Trigger) -> Option<Seq<char>> {
    match t.group {
        Some(g) => Some(g@),
        None => None,
    }
}

/// Whether some trigger of `ts` is in group `g`.
pub open spec fn has_group(ts: Seq<Trigger>, g: Seq<char>) -> bool {
    exists|i: int| 0 <= i < ts.len() && group_of(#[trigger] ts[i]) == Some(g)
}

/// The engine as a mathematical value.
pub struct EngineModel {
    pub triggers: Seq<Trigger>,
    pub predicates: Seq<(Seq<char>, TriggerPredicate)>,
    pub groups: Seq<(Seq<char>, bool)>,
}

/// There is a group policy exactly for the groups that some trigger is in.
pub open spec fn policies_follow_groups(m: EngineModel) -> bool {
    forall|g: Seq<char>| #[trigger] has_key(m.groups, g) <==> has_group(m.triggers, g)
}

/// The first position of the trigger with id `id`.
pub open spec fn trigger_index(ts: Seq<Trigger>, id: TriggerId) -> Option<int>
    decreases ts.len(),
{
    if ts.len() == 0 {
        None
    } else if ts[0].trigger_id == id {
        Some(0)
    } else {
        match trigger_index(ts.drop_first(), id) {
            Some(i) => Some(i + 1),
            None => None,
        }
    }
}

proof fn lemma_trigger_index(ts: Seq<Trigger>, id: TriggerId, i: int)
    requires
        0 <= i <= ts.len(),
        forall|j: int| 0 <= j < i ==> (#[trigger] ts[j]).trigger_id != id,
        i < ts.len() ==> ts[i].trigger_id == id,
    ensures
        trigger_index(ts, id) == (if i < ts.len() { Some(i) } else { None::<int> }),
    decreases i,
{
    if i > 0 {
        let t = ts.drop_first();
        assert forall|j: int| 0 <= j < i - 1 implies (#[trigger] t[j]).trigger_id != id by {
            assert(t[j] == ts[j + 1]);
        }
        if i < ts.len() {
            assert(t[i - 1] == ts[i]);
        }
        lemma_trigger_index(t, id, i - 1);
    }
}

/// The engine with `t` added last; its group gets an armed policy where it
/// had none.
pub open spec fn with_trigger_added(m: EngineModel, t: Trigger) -> EngineModel {
    EngineModel {
        triggers: m.triggers.push(t),
        groups: match group_of(t) {
            Some(g) => if has_key(m.groups, g) { m.groups } else { with_key(m.groups, g, true) },
            None => m.groups,
        },
        ..m
    }
}

/// The engine without the trigger at `i`; its group loses its policy where
/// no other trigger is in it.
pub open spec fn with_trigger_removed(m: EngineModel, i: int) -> EngineModel {
    let t = m.triggers[i];
    let rest = m.triggers.remove(i);
    EngineModel {
        triggers: rest,
        groups: match group_of(t) {
            Some(g) => if has_group(rest, g) { m.groups } else { without_key(m.groups, g) },
            None => m.groups,
        },
        ..m
    }
}

/// The trigger engine: its triggers, its predicate library and its group
/// policies.
pub struct TriggerEngine {
    triggers: Vec<Trigger>,
    predicate_library: StrMap<TriggerPredicate>,
    group_policies: StrMap<bool>,
}

impl View for TriggerEngine {
    type V = EngineModel;

    closed spec fn view(&self) -> EngineModel {
        EngineModel {
            triggers: self.triggers@,
            predicates: self.predicate_library@,
            groups: self.group_policies@,
        }
    }
}


impl TriggerEngine {
    #[verifier::type_invariant]
    closed spec fn inv(self) -> bool {
        policies_follow_groups(self@)
    }

    fn find(&self, id: TriggerId) -> (r: Option<usize>)
        ensures
            match r {
                Some(i) => trigger_index(self@.triggers, id) == Some(i as int) && i < self@.triggers.len(),
                None => trigger_index(self@.triggers, id) is None,
            },
    {
        let n = self.triggers.len();
        let mut i: usize = 0;
        while i < n
            invariant
                n == self.triggers@.len(),
                i <= n,
                forall|j: int| 0 <= j < i ==> (#[trigger] self.triggers@[j]).trigger_id != id,
            decreases n - i,
        {
            if self.triggers[i].trigger_id == id {
                proof {
                    lemma_trigger_index(self.triggers@, id, i as int);
                }
                return Some(i);
            }
            i = i + 1;
        }
        proof {
            lemma_trigger_index(self.triggers@, id, n as int);
        }
        None
    }

    /// No triggers, no predicates, no groups.
    pub fn new() -> (r: Self)
        ensures
            r@ == (EngineModel { triggers: Seq::empty(), predicates: Seq::empty(), groups: Seq::empty() }),
            policies_follow_groups(r@),
    {
        TriggerEngine { triggers: Vec::new(), predicate_library: StrMap::new(), group_policies: StrMap::new() }
    }

    fn take_parts(&mut self) -> (r: (Vec<Trigger>, StrMap<TriggerPredicate>, StrMap<bool>))
        ensures
            final(self)@ == (EngineModel { triggers: Seq::empty(), predicates: Seq::empty(), groups: Seq::empty() }),
            (EngineModel { triggers: r.0@, predicates: r.1@, groups: r.2@ }) == old(self)@,
            policies_follow_groups(old(self)@),
    {
        proof {
            use_type_invariant(&*self);
        }
        let mut taken = TriggerEngine::new();
        std::mem::swap(&mut taken, self);
        let TriggerEngine { triggers, predicate_library, group_policies } = taken;
        (triggers, predicate_library, group_policies)
    }

    /// Adds `trigger` last; its group gets an armed policy where it has
    /// none. The policies stay those of the triggers' groups.
    pub fn add_trigger(&mut self, trigger: Trigger)
        ensures
            final(self)@ == with_trigger_added(old(self)@, trigger),
            policies_follow_groups(final(self)@),
    {
        let ghost m = self@;
        let (mut triggers, predicate_library, mut group_policies) = self.take_parts();
        let _ = group_policies.len();
        match &trigger.group {
            Some(g) => {
                if !group_policies.contains_key(g.as_str()) {
                    group_policies.insert(g.as_str(), true);
                }
            },
            None => {},
        }
        let ghost t = trigger;
        triggers.push(trigger);
        proof {
            let m2 = with_trigger_added(m, t);
            assert(triggers@ == m2.triggers);
            assert(group_policies@ == m2.groups);
            assert forall|g: Seq<char>| #[trigger] has_key(m2.groups, g) <==> has_group(m2.triggers, g) by {
                assert(has_key(m.groups, g) <==> has_group(m.triggers, g));
                if has_group(m.triggers, g) {
                    let i = choose|i: int| 0 <= i < m.triggers.len() && group_of(#[trigger] m.triggers[i]) == Some(g);
                    assert(m2.triggers[i] == m.triggers[i]);
                }
                assert(m2.triggers[m.triggers.len() as int] == t);
                if has_group(m2.triggers, g) {
                    let i = choose|i: int| 0 <= i < m2.triggers.len() && group_of(#[trigger] m2.triggers[i]) == Some(g);
                    if i < m.triggers.len() {
                        assert(m.triggers[i] == m2.triggers[i]);
                    }
                }
                match group_of(t) {
                    Some(k) => {
                        if !has_key(m.groups, k) {
                            lemma_keys_with(m.groups, k, true, g);
                        }
                    },
                    None => {},
                }
            }
        }
        *self = TriggerEngine { triggers, predicate_library, group_policies };
    }

    /// The engine with `trigger` added, as `add_trigger` says.
    pub fn with_trigger(self, trigger: Trigger) -> (r: Self)
        ensures
            r@ == with_trigger_added(self@, trigger),
            policies_follow_groups(r@),
    {
        let mut e = self;
        e.add_trigger(trigger);
        e
    }
}


/// Removing a trigger keeps every group that another trigger is in, and
/// adds none.
proof fn lemma_has_group_remove(ts: Seq<Trigger>, i: int, g: Seq<char>)
    requires
        0 <= i < ts.len(),
    ensures
        has_group(ts.remove(i), g) ==> has_group(ts, g),
        group_of(ts[i]) != Some(g) ==> (has_group(ts.remove(i), g) <==> has_group(ts, g)),
{
    let rest = ts.remove(i);
    if has_group(rest, g) {
        let j = choose|j: int| 0 <= j < rest.len() && group_of(#[trigger] rest[j]) == Some(g);
        let k = if j < i { j } else { j + 1 };
        assert(ts[k] == rest[j]);
    }
    if group_of(ts[i]) != Some(g) && has_group(ts, g) {
        let j = choose|j: int| 0 <= j < ts.len() && group_of(#[trigger] ts[j]) == Some(g);
        assert(j != i);
        let k = if j < i { j } else { j - 1 };
        assert(rest[k] == ts[j]);
    }
}

fn any_in_group(ts: &Vec<Trigger>, g: &str) -> (r: bool)
    ensures
        r == has_group(ts@, g@),
{
    let n = ts.len();
    let mut i: usize = 0;
    while i < n
        invariant
            n == ts@.len(),
            i <= n,
            forall|j: int| 0 <= j < i ==> group_of(#[trigger] ts@[j]) != Some(g@),
        decreases n - i,
    {
        match &ts[i].group {
            Some(x) => {
                if crate::text::str_eq(x.as_str(), g) {
                    assert(group_of(ts@[i as int]) == Some(g@));
                    return true;
                }
            },
            None => {},
        }
        i = i + 1;
    }
    false
}

impl TriggerEngine {
    /// Removes the first trigger with id `trigger_id` and gives it back;
    /// its group loses its policy where no other trigger is in it. Nothing
    /// changes where there is no such trigger.
    pub fn remove_trigger(&mut self, trigger_id: TriggerId) -> (r: Option<Trigger>)
        ensures
            match trigger_index(old(self)@.triggers, trigger_id) {
                None => r is None && final(self)@ == old(self)@,
                Some(i) => r == Some(old(self)@.triggers[i]) && final(self)@ == with_trigger_removed(old(self)@, i),
            },
            policies_follow_groups(final(self)@),
    {
        proof {
            use_type_invariant(&*self);
        }
        let idx = match self.find(trigger_id) {
            None => {
                return None;
            },
            Some(i) => i,
        };
        let ghost m = self@;
        let (mut triggers, predicate_library, mut group_policies) = self.take_parts();
        let _ = group_policies.len();
        let t = triggers.remove(idx);
        match &t.group {
            Some(g) => {
                if !any_in_group(&triggers, g.as_str()) {
                    let _ = group_policies.take(g.as_str());
                }
            },
            None => {},
        }
        proof {
            let m2 = with_trigger_removed(m, idx as int);
            assert(triggers@ == m2.triggers);
            assert(group_policies@ == m2.groups);
            assert forall|g: Seq<char>| #[trigger] has_key(m2.groups, g) <==> has_group(m2.triggers, g) by {
                assert(has_key(m.groups, g) <==> has_group(m.triggers, g));
                lemma_has_group_remove(m.triggers, idx as int, g);
                match group_of(t) {
                    Some(k) => {
                        assert(has_group(m.triggers, k));
                        if !has_group(m2.triggers, k) {
                            lemma_keys_without(m.groups, k, g);
                        }
                    },
                    None => {},
                }
            }
        }
        *self = TriggerEngine { triggers, predicate_library, group_policies };
        Some(t)
    }

    /// Arms or disarms the first trigger with id `trigger_id`, giving back
    /// whether it was armed; `None`, and nothing changed, where there is no
    /// such trigger.
    pub fn set_enabled(&mut self, trigger_id: TriggerId, enabled: bool) -> (r: Option<bool>)
        ensures
            match trigger_index(old(self)@.triggers, trigger_id) {
                None => r is None && final(self)@ == old(self)@,
                Some(i) => r == Some(old(self)@.triggers[i].enabled) && final(self)@ == (EngineModel {
                    triggers: old(self)@.triggers.update(i, Trigger { enabled, ..old(self)@.triggers[i] }),
                    ..old(self)@
                }),
            },
            policies_follow_groups(final(self)@),
    {
        proof {
            use_type_invariant(&*self);
        }
        let idx = match self.find(trigger_id) {
            None => {
                return None;
            },
            Some(i) => i,
        };
        let ghost m = self@;
        let (mut triggers, predicate_library, group_policies) = self.take_parts();
        let mut t = triggers.remove(idx);
        let previous = t.enabled;
        t.enabled = enabled;
        triggers.insert(idx, t);
        proof {
            let ts2 = m.triggers.update(idx as int, Trigger { enabled, ..m.triggers[idx as int] });
            assert(triggers@ =~= ts2);
            assert forall|g: Seq<char>| #[trigger] has_key(group_policies@, g) <==> has_group(ts2, g) by {
                assert(has_key(m.groups, g) <==> has_group(m.triggers, g));
                if has_group(ts2, g) {
                    let j = choose|j: int| 0 <= j < ts2.len() && group_of(#[trigger] ts2[j]) == Some(g);
                    assert(group_of(m.triggers[j]) == group_of(ts2[j]));
                }
                if has_group(m.triggers, g) {
                    let j = choose|j: int| 0 <= j < m.triggers.len() && group_of(#[trigger] m.triggers[j]) == Some(g);
                    assert(group_of(m.triggers[j]) == group_of(ts2[j]));
                }
            }
        }
        *self = TriggerEngine { triggers, predicate_library, group_policies };
        Some(previous)
    }

    /// Stores `predicate` under `name`, giving back what was there.
    pub fn define_predicate(&mut self, name: String, predicate: TriggerPredicate) -> (r: Option<TriggerPredicate>)
        ensures
            r == key_value(old(self)@.predicates, name@),
            final(self)@ == (EngineModel { predicates: with_key(old(self)@.predicates, name@, predicate), ..old(self)@ }),
            policies_follow_groups(final(self)@),
    {
        let ghost m = self@;
        let (triggers, mut predicate_library, group_policies) = self.take_parts();
        let previous = predicate_library.take(name.as_str());
        let ghost p = predicate;
        predicate_library.insert(name.as_str(), predicate);
        proof {
            lemma_with_after_without(m.predicates, name@, p);
        }
        *self = TriggerEngine { triggers, predicate_library, group_policies };
        previous
    }

    /// Takes the predicate named `name` out of the library.
    pub fn remove_predicate(&mut self, name: &str) -> (r: Option<TriggerPredicate>)
        ensures
            r == key_value(old(self)@.predicates, name@),
            final(self)@ == (EngineModel { predicates: without_key(old(self)@.predicates, name@), ..old(self)@ }),
            policies_follow_groups(final(self)@),
    {
        let (triggers, mut predicate_library, group_policies) = self.take_parts();
        let previous = predicate_library.take(name);
        *self = TriggerEngine { triggers, predicate_library, group_policies };
        previous
    }

    /// Arms or disarms a group, giving back whether it was armed; `None`,
    /// and nothing changed, for a group with no policy.
    pub fn set_group_enabled(&mut self, group: &str, enabled: bool) -> (r: Option<bool>)
        ensures
            r == key_value(old(self)@.groups, group@),
            r is None ==> final(self)@ == old(self)@,
            r is Some ==> final(self)@ == (EngineModel { groups: with_key(old(self)@.groups, group@, enabled), ..old(self)@ }),
            policies_follow_groups(final(self)@),
    {
        proof {
            use_type_invariant(&*self);
        }
        let previous = match self.group_policies.get(group) {
            None => {
                return None;
            },
            Some(p) => *p,
        };
        let ghost m = self@;
        let (triggers, predicate_library, mut group_policies) = self.take_parts();
        let _ = group_policies.len();
        group_policies.insert(group, enabled);
        proof {
            assert forall|g: Seq<char>| #[trigger] has_key(group_policies@, g) <==> has_group(triggers@, g) by {
                assert(has_key(m.groups, g) <==> has_group(m.triggers, g));
                lemma_keys_with(m.groups, group@, enabled, g);
            }
        }
        *self = TriggerEngine { triggers, predicate_library, group_policies };
        Some(previous)
    }

    /// The triggers, in the order they were added.
    pub fn triggers(&self) -> (r: &[Trigger])
        ensures
            r@ == self@.triggers,
    {
        self.triggers.as_slice()
    }

    /// The predicate named `name`.
    pub fn predicate(&self, name: &str) -> (r: Option<&TriggerPredicate>)
        ensures
            match r {
                Some(p) => key_value(self@.predicates, name@) == Some(*p),
                None => key_value(self@.predicates, name@) is None,
            },
    {
        self.predicate_library.get(name)
    }

    /// The names in the predicate library, in order.
    pub fn predicate_names(&self) -> (r: Vec<String>)
        ensures
            r@.map_values(|k: String| k@) == self@.predicates.map_values(|e: (Seq<char>, TriggerPredicate)| e.0),
    {
        self.predicate_library.keys()
    }

    /// Whether group `group` is armed; `None` for a group with no policy.
    pub fn group_enabled(&self, group: &str) -> (r: Option<bool>)
        ensures
            r == key_value(self@.groups, group@),
    {
        match self.group_policies.get(group) {
            Some(p) => Some(*p),
            None => None,
        }
    }

    /// The group policies, in group-name order.
    pub fn group_policies(&self) -> (r: Vec<TriggerGroupPolicy>)
        ensures
            r@.len() == self@.groups.len(),
            forall|i: int| 0 <= i < r@.len() ==> ((#[trigger] r@[i]).name@, r@[i].enabled) == self@.groups[i],
    {
        let n = self.group_policies.len();
        let mut out: Vec<TriggerGroupPolicy> = Vec::new();
        let mut i: usize = 0;
        while i < n
            invariant
                n == self@.groups.len(),
                i <= n,
                out@.len() == i,
                forall|j: int| 0 <= j < i ==> ((#[trigger] out@[j]).name@, out@[j].enabled) == self@.groups[j],
            decreases n - i,
        {
            let (k, v) = self.group_policies.entry_at(i);
            out.push(TriggerGroupPolicy { name: owned(k.as_str()), enabled: *v });
            i = i + 1;
        }
        out
    }
}


/// Removing a trigger just added, under an id no trigger had, gives the
/// engine back as it was: the trigger list, and the group policies, a new
/// group's policy included.
pub proof fn law_remove_undoes_add(m: EngineModel, t: Trigger)
    requires
        policies_follow_groups(m),
        sorted_keys(m.groups),
        trigger_index(m.triggers, t.trigger_id) is None,
    ensures
        trigger_index(with_trigger_added(m, t).triggers, t.trigger_id) == Some(m.triggers.len() as int),
        with_trigger_removed(with_trigger_added(m, t), m.triggers.len() as int) == m,
{
    let m2 = with_trigger_added(m, t);
    let n = m.triggers.len() as int;
    assert forall|j: int| 0 <= j < n implies (#[trigger] m.triggers[j]).trigger_id != t.trigger_id by {
        if m.triggers[j].trigger_id == t.trigger_id {
            lemma_first_match(m.triggers, t.trigger_id, j);
        }
    }
    assert forall|j: int| 0 <= j < n implies (#[trigger] m2.triggers[j]).trigger_id != t.trigger_id by {
        assert(m2.triggers[j] == m.triggers[j]);
    }
    lemma_trigger_index(m2.triggers, t.trigger_id, n);
    assert(m2.triggers.remove(n) =~= m.triggers);
    match group_of(t) {
        Some(g) => {
            if !has_key(m.groups, g) {
                crate::strmap::lemma_without_after_with(m.groups, g, true);
            } else {
                assert(has_group(m.triggers, g));
            }
        },
        None => {},
    }
}

/// A trigger with id `id` at `j` means the first one has some position.
proof fn lemma_first_match(ts: Seq<Trigger>, id: TriggerId, j: int)
    requires
        0 <= j < ts.len(),
        ts[j].trigger_id == id,
    ensures
        trigger_index(ts, id) is Some,
    decreases j,
{
    if ts[0].trigger_id != id {
        assert(ts.drop_first()[j - 1] == ts[j]);
        lemma_first_match(ts.drop_first(), id, j - 1);
    }
}

/// A predicate defined under a name is what the library then gives for it.
pub proof fn law_defined_predicate_is_found(m: EngineModel, name: Seq<char>, p: TriggerPredicate)
    requires
        sorted_keys(m.predicates),
    ensures
        key_value(with_key(m.predicates, name, p), name) == Some(p),
{
    crate::strmap::lemma_with_key_sorted(m.predicates, name, p);
    lemma_lower_bound(m.predicates, name);
    let q = crate::strmap::lower_bound(m.predicates, name) as int;
    let r = with_key(m.predicates, name, p);
    if q < m.predicates.len() && m.predicates[q].0 == name {
        assert(r == m.predicates.update(q, (name, p)));
    } else {
        assert(r == m.predicates.insert(q, (name, p)));
    }
    assert(r[q] == (name, p));
    lemma_present(r, q);
}


// ----- watchpoint descriptors -----

/// What a predicate pins down of a watchpoint, as a mathematical value.
pub struct DescModel {
    pub value_key: Option<Seq<char>>,
    pub path: Option<Seq<char>>,
    pub after_millis: Option<u64>,
    pub event_kind: Option<EventKind>,
    pub summary_contains: Option<Seq<char>>,
}

pub open spec fn opt_chars(o: Option<String>) -> Option<Seq<char>> {
    match o {
        Some(s) => Some(s@),
        None => None,
    }
}

pub open spec fn desc_view(d: WatchpointDescriptor) -> DescModel {
    DescModel {
        value_key: opt_chars(d.value_key),
        path: opt_chars(d.path),
        after_millis: d.after_millis,
        event_kind: d.event_kind,
        summary_contains: opt_chars(d.summary_contains),
    }
}

pub open spec fn no_desc() -> DescModel {
    DescModel { value_key: None, path: None, after_millis: None, event_kind: None, summary_contains: None }
}

/// Whether two descriptors pin down the same slot.
pub open spec fn clash(a: DescModel, b: DescModel) -> bool {
    (a.value_key is Some && b.value_key is Some) || (a.path is Some && b.path is Some)
        || (a.after_millis is Some && b.after_millis is Some)
        || (a.event_kind is Some && b.event_kind is Some)
        || (a.summary_contains is Some && b.summary_contains is Some)
}

/// Two descriptors that do not clash, put together.
pub open spec fn merged(a: DescModel, b: DescModel) -> DescModel {
    DescModel {
        value_key: if b.value_key is Some { b.value_key } else { a.value_key },
        path: if b.path is Some { b.path } else { a.path },
        after_millis: if b.after_millis is Some { b.after_millis } else { a.after_millis },
        event_kind: if b.event_kind is Some { b.event_kind } else { a.event_kind },
        summary_contains: if b.summary_contains is Some { b.summary_contains } else { a.summary_contains },
    }
}

/// What a predicate pins down of a watchpoint, following named predicates
/// through `lib` at most `fuel` times: `Some(Some(d))`; `Some(None)` where
/// it is no watchpoint (a kind that pins nothing, an unknown name, a clash,
/// or a conjunction that names no value); `None` where the names run out of
/// fuel. A value change pins its key and path, an age its time, an event
/// kind or summary text that; a conjunction merges its parts in order and
/// must name a value.
pub open spec fn describe(p: TriggerPredicate, lib: Seq<(Seq<char>, TriggerPredicate)>, fuel: nat) -> Option<Option<DescModel>>
    decreases fuel, p,
{
    match p {
        TriggerPredicate::Named(n) => if fuel == 0 {
            None
        } else {
            match key_value(lib, n@) {
                None => Some(None),
                Some(q) => describe(q, lib, (fuel - 1) as nat),
            }
        },
        TriggerPredicate::ValueChanged { value_key, path } => Some(Some(DescModel { value_key: Some(value_key@), path: opt_chars(path), ..no_desc() })),
        TriggerPredicate::ObservedAfter { millis } => Some(Some(DescModel { after_millis: Some(millis), ..no_desc() })),
        TriggerPredicate::EventKindIs(k) => Some(Some(DescModel { event_kind: Some(k), ..no_desc() })),
        TriggerPredicate::SummaryContains(t) => Some(Some(DescModel { summary_contains: Some(t@), ..no_desc() })),
        TriggerPredicate::All(ps) => match describe_all(ps@, lib, fuel) {
            None => None,
            Some(None) => Some(None),
            Some(Some(d)) => if d.value_key is Some { Some(Some(d)) } else { Some(None) },
        },
        _ => Some(None),
    }
}

/// The parts of a conjunction merged in order; the first part that is no
/// watchpoint, or clashes, ends it.
pub open spec fn describe_all(ps: Seq<TriggerPredicate>, lib: Seq<(Seq<char>, TriggerPredicate)>, fuel: nat) -> Option<Option<DescModel>>
    decreases fuel, ps,
{
    if ps.len() == 0 {
        Some(Some(no_desc()))
    } else {
        match describe_all(ps.subrange(0, ps.len() - 1), lib, fuel) {
            None => None,
            Some(None) => Some(None),
            Some(Some(d)) => match describe(ps[ps.len() - 1], lib, fuel) {
                None => None,
                Some(None) => Some(None),
                Some(Some(n)) => if clash(d, n) { Some(None) } else { Some(Some(merged(d, n))) },
            },
        }
    }
}

/// More fuel changes nothing once there is enough.
proof fn lemma_describe_mono(p: TriggerPredicate, lib: Seq<(Seq<char>, TriggerPredicate)>, f: nat, g: nat)
    requires
        f <= g,
        describe(p, lib, f) is Some,
    ensures
        describe(p, lib, g) == describe(p, lib, f),
    decreases f, p,
{
    match p {
        TriggerPredicate::Named(n) => {
            match key_value(lib, n@) {
                None => {},
                Some(q) => lemma_describe_mono(q, lib, (f - 1) as nat, (g - 1) as nat),
            }
        },
        TriggerPredicate::All(ps) => {
            lemma_describe_all_mono(ps@, lib, f, g);
        },
        _ => {},
    }
}

proof fn lemma_describe_all_mono(ps: Seq<TriggerPredicate>, lib: Seq<(Seq<char>, TriggerPredicate)>, f: nat, g: nat)
    requires
        f <= g,
        describe_all(ps, lib, f) is Some,
    ensures
        describe_all(ps, lib, g) == describe_all(ps, lib, f),
    decreases f, ps,
{
    if ps.len() > 0 {
        let prefix = ps.subrange(0, ps.len() - 1);
        lemma_describe_all_mono(prefix, lib, f, g);
        if describe_all(prefix, lib, f) matches Some(Some(_)) {
            lemma_describe_mono(ps[ps.len() - 1], lib, f, g);
        }
    }
}

/// A conjunction's result is settled once a prefix is no watchpoint or
/// runs out of fuel.
proof fn lemma_describe_all_stays(ps: Seq<TriggerPredicate>, lib: Seq<(Seq<char>, TriggerPredicate)>, f: nat, k: int)
    requires
        0 <= k <= ps.len(),
        !(describe_all(ps.subrange(0, k), lib, f) matches Some(Some(_))),
    ensures
        describe_all(ps, lib, f) == describe_all(ps.subrange(0, k), lib, f),
    decreases ps.len() - k,
{
    if k < ps.len() {
        assert(ps.subrange(0, k + 1).subrange(0, k) =~= ps.subrange(0, k));
        lemma_describe_all_stays(ps, lib, f, k + 1);
    } else {
        assert(ps.subrange(0, k) =~= ps);
    }
}

fn opt_copy(o: &Option<String>) -> (r: Option<String>)
    ensures
        opt_chars(r) == opt_chars(*o),
{
    match o {
        Some(s) => Some(owned(s.as_str())),
        None => None,
    }
}

fn describe_predicate(p: &TriggerPredicate, engine: &TriggerEngine, Ghost(fuel): Ghost<nat>) -> (r: Option<WatchpointDescriptor>)
    requires
        describe(*p, engine@.predicates, fuel) is Some,
    ensures
        describe(*p, engine@.predicates, fuel) == Some(match r {
            Some(d) => Some(desc_view(d)),
            None => None::<DescModel>,
        }),
    decreases fuel, p,
{
    let ghost lib = engine@.predicates;
    match p {
        TriggerPredicate::Named(name) => match engine.predicate(name.as_str()) {
            Some(q) => describe_predicate(q, engine, Ghost((fuel - 1) as nat)),
            None => None,
        },
        TriggerPredicate::ValueChanged { value_key, path } => {
            let mut d = WatchpointDescriptor::empty();
            d.value_key = Some(owned(value_key.as_str()));
            d.path = opt_copy(path);
            Some(d)
        },
        TriggerPredicate::ObservedAfter { millis } => {
            let mut d = WatchpointDescriptor::empty();
            d.after_millis = Some(*millis);
            Some(d)
        },
        TriggerPredicate::EventKindIs(kind) => {
            let mut d = WatchpointDescriptor::empty();
            d.event_kind = Some(*kind);
            Some(d)
        },
        TriggerPredicate::SummaryContains(text) => {
            let mut d = WatchpointDescriptor::empty();
            d.summary_contains = Some(owned(text.as_str()));
            Some(d)
        },
        TriggerPredicate::All(parts) => {
            let ghost ps = parts@;
            let mut d = WatchpointDescriptor::empty();
            let n = parts.len();
            let mut i: usize = 0;
            assert(ps.subrange(0, 0) =~= Seq::<TriggerPredicate>::empty());
            while i < n
                invariant
                    n == ps.len(),
                    ps == parts@,
                    *p is All,
                    (*p)->All_0 == *parts,
                    lib == engine@.predicates,
                    describe_all(ps, lib, fuel) is Some,
                    i <= n,
                    describe_all(ps.subrange(0, i as int), lib, fuel) == Some(Some(desc_view(d))),
                decreases n - i,
            {
                proof {
                    assert(ps.subrange(0, i as int + 1).subrange(0, i as int) =~= ps.subrange(0, i as int));
                    assert(ps.subrange(0, i as int + 1)[i as int] == ps[i as int]);
                    vstd::std_specs::vec::axiom_vec_index_decreases(*parts, i as int);
                    assert(decreases_to!(*p => (*p)->All_0));
                    if describe(ps[i as int], lib, fuel) is None {
                        lemma_describe_all_stays(ps, lib, fuel, i as int + 1);
                    }
                }
                let next = match describe_predicate(&parts[i], engine, Ghost(fuel)) {
                    Some(next) => next,
                    None => {
                        proof {
                            lemma_describe_all_stays(ps, lib, fuel, i as int + 1);
                        }
                        return None;
                    },
                };
                let ghost before = desc_view(d);
                let ghost nv = desc_view(next);
                match merge_watchpoint_descriptor(&mut d, next) {
                    Some(()) => {
                        proof {
                            assert(!clash(before, nv));
                            assert(desc_view(d) == merged(before, nv));
                        }
                    },
                    None => {
                        proof {
                            assert(clash(before, nv));
                            lemma_describe_all_stays(ps, lib, fuel, i as int + 1);
                        }
                        return None;
                    },
                }
                i = i + 1;
            }
            proof {
                assert(ps.subrange(0, n as int) =~= ps);
            }
            if d.value_key.is_none() {
                return None;
            }
            Some(d)
        },
        _ => None,
    }
}

impl TriggerEngine {
    /// What `predicate` pins down of a watchpoint, following names through
    /// the predicate library, as `describe` states for any fuel that
    /// suffices; the names must not lead round in a loop.
    pub fn extract_watchpoint_descriptor(&self, predicate: &TriggerPredicate) -> (r: Option<WatchpointDescriptor>)
        requires
            exists|f: nat| describe(*predicate, self@.predicates, f) is Some,
        ensures
            forall|f: nat| #[trigger] describe(*predicate, self@.predicates, f) is Some
                ==> describe(*predicate, self@.predicates, f) == Some(match r {
                    Some(d) => Some(desc_view(d)),
                    None => None::<DescModel>,
                }),
    {
        let ghost f0 = choose|f: nat| describe(*predicate, self@.predicates, f) is Some;
        let r = describe_predicate(predicate, self, Ghost(f0));
        proof {
            assert forall|f: nat| #[trigger] describe(*predicate, self@.predicates, f) is Some
                implies describe(*predicate, self@.predicates, f) == describe(*predicate, self@.predicates, f0) by {
                if f <= f0 {
                    lemma_describe_mono(*predicate, self@.predicates, f, f0);
                } else {
                    lemma_describe_mono(*predicate, self@.predicates, f0, f);
                }
            }
        }
        r
    }
}

} // verus!
