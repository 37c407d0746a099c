//! The inventory of a replayed PC/GEOS target: the patients, handles,
//! resources and objects that its manifests, its repository model and its
//! recorded stops make known, each record under its key. The JSON rendering
//! of the records is made by the caller.
use vstd::prelude::*;
use crate::adapter_pcgeos::{PcGeosFixtureObject, after_last_colon, short_resource_name};
use crate::agent_protocol::opt_text;
use crate::model::{SwatError, SwatResult};
use crate::repository::{
    GpManifest, PcGeosRepositoryModel, RepositoryGeode, RepositoryHandle, RepositoryPatient,
    RepositoryResource, patient_key_of,
};
use crate::strmap::{
    StrMap, has_key, key_value, sorted_keys, with_key, lemma_present, lemma_absent,
};
use crate::text::{ends_with, owned, push_str, str_ends_with, str_eq, views};

verus! {

/// A handle record of the inventory.
#[derive(Clone, Debug, PartialEq, Eq)]
pub struct InventoryHandle {
    pub id: String,
    pub name: Option<String>,
    pub patient: String,
    pub resource: Option<String>,
    pub handle_type: String,
    /// The segment part of the key; a handle that a manifest declares has
    /// none.
    pub segment: Option<String>,
    pub flags: Vec<String>,
}

/// A handle record as a mathematical value.
pub struct HandleRecord {
    pub id: Seq<char>,
    pub name: Option<Seq<char>>,
    pub patient: Seq<char>,
    pub resource: Option<Seq<char>>,
    pub handle_type: Seq<char>,
    pub segment: Option<Seq<char>>,
    pub flags: Seq<Seq<char>>,
}

impl View for InventoryHandle {
    type V = HandleRecord;

    open spec fn view(&self) -> HandleRecord {
        HandleRecord {
            id: self.id@,
            name: opt_text(self.name),
            patient: self.patient@,
            resource: opt_text(self.resource),
            handle_type: self.handle_type@,
            segment: opt_text(self.segment),
            flags: views(self.flags@),
        }
    }
}

/// A resource record of the inventory.
#[derive(Clone, Debug, PartialEq, Eq)]
pub struct InventoryResource {
    pub name: String,
    pub identifier: String,
    pub patient: String,
    pub handle: Option<String>,
    pub resource_type: String,
    pub source_file: Option<String>,
}

/// A resource record as a mathematical value.
pub struct ResourceRecord {
    pub name: Seq<char>,
    pub identifier: Seq<char>,
    pub patient: Seq<char>,
    pub handle: Option<Seq<char>>,
    pub resource_type: Seq<char>,
    pub source_file: Option<Seq<char>>,
}

impl View for InventoryResource {
    type V = ResourceRecord;

    open spec fn view(&self) -> ResourceRecord {
        ResourceRecord {
            name: self.name@,
            identifier: self.identifier@,
            patient: self.patient@,
            handle: opt_text(self.handle),
            resource_type: self.resource_type@,
            source_file: opt_text(self.source_file),
        }
    }
}

/// An object record as a mathematical value.
pub struct ObjectRecord {
    pub id: Seq<char>,
    pub name: Option<Seq<char>>,
    pub class_name: Option<Seq<char>>,
    pub patient: Option<Seq<char>>,
    pub handle: Option<Seq<char>>,
    pub resource: Option<Seq<char>>,
    pub address: Option<Seq<char>>,
    pub flags: Seq<Seq<char>>,
}

impl View for PcGeosFixtureObject {
    type V = ObjectRecord;

    open spec fn view(&self) -> ObjectRecord {
        ObjectRecord {
            id: self.id@,
            name: opt_text(self.name),
            class_name: opt_text(self.class_name),
            patient: opt_text(self.patient),
            handle: opt_text(self.handle),
            resource: opt_text(self.resource),
            address: opt_text(self.address),
            flags: views(self.state_flags@),
        }
    }
}

/// A patient record of the inventory.
#[derive(Clone, Debug, PartialEq, Eq)]
pub struct InventoryPatient {
    pub name: String,
    pub identifier: Option<String>,
    pub path: Option<String>,
    pub default: bool,
    pub handles: Vec<String>,
    pub resources: Vec<String>,
    pub objects: Vec<String>,
}

/// A patient record as a mathematical value.
pub struct PatientRecord {
    pub name: Seq<char>,
    pub identifier: Option<Seq<char>>,
    pub path: Option<Seq<char>>,
    pub default: bool,
    pub handles: Seq<Seq<char>>,
    pub resources: Seq<Seq<char>>,
    pub objects: Seq<Seq<char>>,
}

impl View for InventoryPatient {
    type V = PatientRecord;

    open spec fn view(&self) -> PatientRecord {
        PatientRecord {
            name: self.name@,
            identifier: opt_text(self.identifier),
            path: opt_text(self.path),
            default: self.default,
            handles: views(self.handles@),
            resources: views(self.resources@),
            objects: views(self.objects@),
        }
    }
}

/// The first element of a list of strings, if any.
pub open spec fn first_text(s: Seq<String>) -> Option<Seq<char>> {
    if s.len() > 0 {
        Some(s[0]@)
    } else {
        None
    }
}

fn first_of(v: &Vec<String>) -> (r: Option<String>)
    ensures
        opt_text(r) == first_text(v@),
{
    if v.len() > 0 {
        Some(v[0].clone())
    } else {
        None
    }
}

/// The first resource of `rs` that ends in `:AppResource`, else the first.
pub open spec fn preferred_of(rs: Seq<String>) -> Option<Seq<char>>
    decreases rs.len(),
{
    if rs.len() == 0 {
        None
    } else {
        match app_resource_in(rs) {
            Some(r) => Some(r),
            None => Some(rs[0]@),
        }
    }
}

/// The first resource of `rs` that ends in `:AppResource`.
pub open spec fn app_resource_in(rs: Seq<String>) -> Option<Seq<char>>
    decreases rs.len(),
{
    if rs.len() == 0 {
        None
    } else if ends_with(rs[0]@, ":AppResource"@) {
        Some(rs[0]@)
    } else {
        app_resource_in(rs.drop_first())
    }
}

/// The first geode of `gs` with key `k`.
pub open spec fn geode_with_key(gs: Seq<RepositoryGeode>, k: Seq<char>) -> Option<RepositoryGeode>
    decreases gs.len(),
{
    if gs.len() == 0 {
        None
    } else if gs[0].key@ == k {
        Some(gs[0])
    } else {
        geode_with_key(gs.drop_first(), k)
    }
}

/// The resource of geode `k` that an application object belongs to: its
/// `AppResource`, else its first resource.
pub open spec fn preferred_resource(model: PcGeosRepositoryModel, k: Seq<char>) -> Option<Seq<char>> {
    match geode_with_key(model.geodes@, k) {
        Some(g) => preferred_of(g.resources@),
        None => None,
    }
}

/// The resource of geode `geode_key` that an application object belongs
/// to, as `preferred_resource` says.
pub fn preferred_manifest_resource(geode_key: &str, model: &PcGeosRepositoryModel) -> (r: Option<String>)
    ensures
        opt_text(r) == preferred_resource(*model, geode_key@),
{
    let gs = &model.geodes;
    let n = gs.len();
    let mut i: usize = 0;
    proof {
        assert(gs@.skip(0) =~= gs@);
    }
    while i < n
        invariant
            n == gs@.len(),
            i <= n,
            gs@ == model.geodes@,
            geode_with_key(gs@, geode_key@) == geode_with_key(gs@.skip(i as int), geode_key@),
        decreases n - i,
    {
        proof {
            assert(gs@.skip(i as int)[0] == gs@[i as int]);
            assert(gs@.skip(i as int).drop_first() =~= gs@.skip(i as int + 1));
        }
        if str_eq(gs[i].key.as_str(), geode_key) {
            proof {
                assert(geode_with_key(gs@.skip(i as int), geode_key@) == Some(gs@[i as int]));
            }
            return preferred_in(&gs[i].resources);
        }
        i = i + 1;
    }
    None
}

fn preferred_in(rs: &Vec<String>) -> (r: Option<String>)
    ensures
        opt_text(r) == preferred_of(rs@),
{
    let n = rs.len();
    let mut i: usize = 0;
    proof {
        assert(rs@.skip(0) =~= rs@);
    }
    while i < n
        invariant
            n == rs@.len(),
            i <= n,
            app_resource_in(rs@) == app_resource_in(rs@.skip(i as int)),
        decreases n - i,
    {
        proof {
            assert(rs@.skip(i as int)[0] == rs@[i as int]);
            assert(rs@.skip(i as int).drop_first() =~= rs@.skip(i as int + 1));
        }
        if str_ends_with(rs[i].as_str(), ":AppResource") {
            return Some(rs[i].clone());
        }
        i = i + 1;
    }
    if n > 0 {
        Some(rs[0].clone())
    } else {
        None
    }
}


/// Keyed handle records.
pub type HandleMap = Seq<(Seq<char>, HandleRecord)>;
/// Keyed resource records.
pub type ResourceMap = Seq<(Seq<char>, ResourceRecord)>;
/// Keyed object records.
pub type ObjectMap = Seq<(Seq<char>, ObjectRecord)>;
/// Keyed patient records.
pub type PatientMap = Seq<(Seq<char>, PatientRecord)>;
/// The handle derived for each manifest resource.
pub type DerivedMap = Seq<(Seq<char>, Seq<char>)>;

/// `s` with `v` under `k` unless `k` is there already.
pub open spec fn or_insert<V>(s: Seq<(Seq<char>, V)>, k: Seq<char>, v: V) -> Seq<(Seq<char>, V)> {
    if has_key(s, k) {
        s
    } else {
        with_key(s, k, v)
    }
}

/// What one manifest resource adds: its derived handle record (unless one
/// is there) and the resource's derived handle.
pub open spec fn resource_step(h: HandleMap, d: DerivedMap, gk: Seq<char>, pk: Seq<char>, r: crate::repository::GpManifestResource) -> (HandleMap, DerivedMap) {
    let rk = gk + ":"@ + r.name@;
    let hk = gk + ":handle:"@ + r.name@;
    (
        or_insert(
            h,
            hk,
            HandleRecord {
                id: hk,
                name: Some(r.name@),
                patient: pk,
                resource: Some(rk),
                handle_type: "resource"@,
                segment: None,
                flags: views(r.flags@),
            },
        ),
        with_key(d, rk, hk),
    )
}

/// What the resources of one manifest add, in order.
pub open spec fn resources_fold(h: HandleMap, d: DerivedMap, gk: Seq<char>, pk: Seq<char>, rs: Seq<crate::repository::GpManifestResource>) -> (HandleMap, DerivedMap)
    decreases rs.len(),
{
    if rs.len() == 0 {
        (h, d)
    } else {
        let (h0, d0) = resources_fold(h, d, gk, pk, rs.drop_last());
        resource_step(h0, d0, gk, pk, rs.last())
    }
}

/// The resource that a manifest's application object belongs to: the
/// geode's preferred resource, else the manifest's first resource.
pub open spec fn app_object_resource(m: GpManifest, model: PcGeosRepositoryModel, gk: Seq<char>) -> Option<Seq<char>> {
    match preferred_resource(model, gk) {
        Some(p) => Some(p),
        None => if m.resources@.len() > 0 {
            Some(gk + ":"@ + m.resources@[0].name@)
        } else {
            None
        },
    }
}

/// What one manifest adds: its resources' handles, and its application
/// object (unless one of that id is there).
pub open spec fn manifest_step(h: HandleMap, d: DerivedMap, o: ObjectMap, m: GpManifest, model: PcGeosRepositoryModel) -> (HandleMap, DerivedMap, ObjectMap) {
    match m.name {
        None => (h, d, o),
        Some(name) => {
            let gk = name@;
            let pk = patient_key_of(name@);
            let (h1, d1) = resources_fold(h, d, gk, pk, m.resources@);
            let o1 = match m.app_object {
                None => o,
                Some(ao) => {
                    let pref = app_object_resource(m, model, gk);
                    let hk = match pref {
                        Some(p) => key_value(d1, p),
                        None => None,
                    };
                    or_insert(
                        o,
                        ao@,
                        ObjectRecord {
                            id: ao@,
                            name: Some(ao@),
                            class_name: opt_text(m.class_name),
                            patient: Some(pk),
                            handle: hk,
                            resource: pref,
                            address: None,
                            flags: seq!["app-object"@],
                        },
                    )
                },
            };
            (h1, d1, o1)
        },
    }
}

/// What the manifests add, in order.
pub open spec fn manifests_fold(ms: Seq<GpManifest>, model: PcGeosRepositoryModel) -> (HandleMap, DerivedMap, ObjectMap)
    decreases ms.len(),
{
    if ms.len() == 0 {
        (Seq::empty(), Seq::empty(), Seq::empty())
    } else {
        let (h, d, o) = manifests_fold(ms.drop_last(), model);
        manifest_step(h, d, o, ms.last(), model)
    }
}

/// The record of a handle of the repository model.
pub open spec fn model_handle_record(x: RepositoryHandle) -> HandleRecord {
    HandleRecord {
        id: x.key@,
        name: match x.resource {
            Some(r) => Some(after_last_colon(r@)),
            None => None,
        },
        patient: x.patient@,
        resource: opt_text(x.resource),
        handle_type: x.kind@,
        segment: Some(after_last_colon(x.key@)),
        flags: seq!["symbol-vm"@],
    }
}

/// The model's handles, each replacing what was under its key.
pub open spec fn handles_fold(h: HandleMap, xs: Seq<RepositoryHandle>) -> HandleMap
    decreases xs.len(),
{
    if xs.len() == 0 {
        h
    } else {
        let h0 = handles_fold(h, xs.drop_last());
        with_key(h0, xs.last().key@, model_handle_record(xs.last()))
    }
}

/// The record of a resource of the repository model; its handle is its
/// own, else the one derived for it from a manifest.
pub open spec fn model_resource_record(x: RepositoryResource, d: DerivedMap) -> ResourceRecord {
    ResourceRecord {
        name: x.key@,
        identifier: after_last_colon(x.key@),
        patient: x.patient@,
        handle: match x.handle {
            Some(hk) => Some(hk@),
            None => key_value(d, x.key@),
        },
        resource_type: x.kind@,
        source_file: first_text(x.source_files@),
    }
}

/// The model's resources, each replacing what was under its key.
pub open spec fn resources_model_fold(r: ResourceMap, xs: Seq<RepositoryResource>, d: DerivedMap) -> ResourceMap
    decreases xs.len(),
{
    if xs.len() == 0 {
        r
    } else {
        let r0 = resources_model_fold(r, xs.drop_last(), d);
        with_key(r0, xs.last().key@, model_resource_record(xs.last(), d))
    }
}

/// The objects of the recorded stops, each unless one of its id is there.
pub open spec fn objects_fold(o: ObjectMap, xs: Seq<PcGeosFixtureObject>) -> ObjectMap
    decreases xs.len(),
{
    if xs.len() == 0 {
        o
    } else {
        let o0 = objects_fold(o, xs.drop_last());
        or_insert(o0, xs.last().id@, xs.last()@)
    }
}

/// The keys of the handles of patient `pk`, in key order.
pub open spec fn handles_of(h: HandleMap, pk: Seq<char>) -> Seq<Seq<char>>
    decreases h.len(),
{
    if h.len() == 0 {
        Seq::empty()
    } else {
        let rest = handles_of(h.drop_last(), pk);
        if h.last().1.patient == pk {
            rest.push(h.last().0)
        } else {
            rest
        }
    }
}

/// Whether `k` is one of `list`.
pub open spec fn listed(list: Seq<String>, k: Seq<char>) -> bool {
    exists|j: int| 0 <= j < list.len() && #[trigger] list[j]@ == k
}

/// The keys of the resources that `list` names, in key order.
pub open spec fn resources_listed(r: ResourceMap, list: Seq<String>) -> Seq<Seq<char>>
    decreases r.len(),
{
    if r.len() == 0 {
        Seq::empty()
    } else {
        let rest = resources_listed(r.drop_last(), list);
        if listed(list, r.last().0) {
            rest.push(r.last().0)
        } else {
            rest
        }
    }
}

/// The keys of the objects of patient `pk`, in key order.
pub open spec fn objects_of(o: ObjectMap, pk: Seq<char>) -> Seq<Seq<char>>
    decreases o.len(),
{
    if o.len() == 0 {
        Seq::empty()
    } else {
        let rest = objects_of(o.drop_last(), pk);
        if o.last().1.patient == Some(pk) {
            rest.push(o.last().0)
        } else {
            rest
        }
    }
}

/// The record of a patient of the repository model.
pub open spec fn patient_record(x: RepositoryPatient, h: HandleMap, r: ResourceMap, o: ObjectMap, default_patient: Option<Seq<char>>) -> PatientRecord {
    PatientRecord {
        name: x.key@,
        identifier: first_text(x.geodes@),
        path: first_text(x.artifact_paths@),
        default: default_patient == Some(x.key@),
        handles: handles_of(h, x.key@),
        resources: resources_listed(r, x.resources@),
        objects: objects_of(o, x.key@),
    }
}

/// The model's patients, each replacing what was under its key.
pub open spec fn patients_fold(p: PatientMap, xs: Seq<RepositoryPatient>, h: HandleMap, r: ResourceMap, o: ObjectMap, dp: Option<Seq<char>>) -> PatientMap
    decreases xs.len(),
{
    if xs.len() == 0 {
        p
    } else {
        let p0 = patients_fold(p, xs.drop_last(), h, r, o, dp);
        with_key(p0, xs.last().key@, patient_record(xs.last(), h, r, o, dp))
    }
}

/// The inventory of a replayed target.
pub struct InventoryData {
    pub runtime: String,
    pub source_files: Vec<String>,
    pub patients: StrMap<InventoryPatient>,
    pub handles: StrMap<InventoryHandle>,
    pub resources: StrMap<InventoryResource>,
    pub objects: StrMap<PcGeosFixtureObject>,
}

/// A copy of a list of strings.
pub fn clone_strings(v: &Vec<String>) -> (r: Vec<String>)
    ensures
        r@ == v@,
{
    let n = v.len();
    let mut out: Vec<String> = Vec::new();
    let mut i: usize = 0;
    while i < n
        invariant
            n == v@.len(),
            i <= n,
            out@ == v@.take(i as int),
        decreases n - i,
    {
        out.push(v[i].clone());
        proof {
            assert(out@ =~= v@.take(i as int + 1));
        }
        i = i + 1;
    }
    assert(v@.take(n as int) =~= v@);
    out
}

fn clone_opt(o: &Option<String>) -> (r: Option<String>)
    ensures
        r == *o,
{
    match o {
        Some(t) => Some(t.clone()),
        None => None,
    }
}

fn insert_new<V: View>(m: &mut StrMap<V>, k: &str, v: V)
    ensures
        final(m)@ == or_insert(old(m)@, k@, v@),
{
    if !m.contains_key(k) {
        m.insert(k, v);
    }
}

fn concat3(a: &str, b: &str, c: &str) -> (r: String)
    ensures
        r@ == a@ + b@ + c@,
{
    let mut s = owned(a);
    push_str(&mut s, b);
    push_str(&mut s, c);
    s
}

fn add_manifest_resources(
    handles: &mut StrMap<InventoryHandle>,
    derived: &mut StrMap<String>,
    gk: &str,
    pk: &str,
    rs: &Vec<crate::repository::GpManifestResource>,
)
    ensures
        (final(handles)@, final(derived)@) == resources_fold(old(handles)@, old(derived)@, gk@, pk@, rs@),
{
    let n = rs.len();
    let mut i: usize = 0;
    while i < n
        invariant
            n == rs@.len(),
            i <= n,
            (handles@, derived@) == resources_fold(old(handles)@, old(derived)@, gk@, pk@, rs@.take(i as int)),
        decreases n - i,
    {
        proof {
            assert(rs@.take(i as int + 1).drop_last() =~= rs@.take(i as int));
        }
        let r = &rs[i];
        let rk = concat3(gk, ":", r.name.as_str());
        let hk = concat3(gk, ":handle:", r.name.as_str());
        derived.insert(rk.as_str(), hk.clone());
        let record = InventoryHandle {
            id: hk.clone(),
            name: Some(r.name.clone()),
            patient: owned(pk),
            resource: Some(rk),
            handle_type: owned("resource"),
            segment: None,
            flags: clone_strings(&r.flags),
        };
        insert_new(handles, hk.as_str(), record);
        i = i + 1;
    }
    proof {
        assert(rs@.take(n as int) =~= rs@);
    }
}

fn add_manifest(
    handles: &mut StrMap<InventoryHandle>,
    derived: &mut StrMap<String>,
    objects: &mut StrMap<PcGeosFixtureObject>,
    m: &GpManifest,
    model: &PcGeosRepositoryModel,
)
    ensures
        (final(handles)@, final(derived)@, final(objects)@) == manifest_step(old(handles)@, old(derived)@, old(objects)@, *m, *model),
{
    let name = match &m.name {
        Some(n) => n,
        None => {
            return;
        },
    };
    let pk = crate::repository::normalize_patient_key(name.as_str());
    add_manifest_resources(handles, derived, name.as_str(), pk.as_str(), &m.resources);
    match &m.app_object {
        None => {},
        Some(ao) => {
            let pref: Option<String> = match preferred_manifest_resource(name.as_str(), model) {
                Some(p) => Some(p),
                None => if m.resources.len() > 0 {
                    Some(concat3(name.as_str(), ":", m.resources[0].name.as_str()))
                } else {
                    None
                },
            };
            let hk: Option<String> = match &pref {
                Some(p) => match derived.get(p.as_str()) {
                    Some(h) => Some(h.clone()),
                    None => None,
                },
                None => None,
            };
            let mut flags: Vec<String> = Vec::new();
            flags.push(owned("app-object"));
            let object = PcGeosFixtureObject {
                id: ao.clone(),
                name: Some(ao.clone()),
                class_name: clone_opt(&m.class_name),
                patient: Some(pk),
                handle: hk,
                resource: pref,
                address: None,
                state_flags: flags,
            };
            proof {
                assert(views(object.state_flags@) =~= seq!["app-object"@]);
            }
            insert_new(objects, ao.as_str(), object);
        },
    }
}

fn add_model_handles(handles: &mut StrMap<InventoryHandle>, xs: &Vec<RepositoryHandle>)
    ensures
        final(handles)@ == handles_fold(old(handles)@, xs@),
{
    let n = xs.len();
    let mut i: usize = 0;
    while i < n
        invariant
            n == xs@.len(),
            i <= n,
            handles@ == handles_fold(old(handles)@, xs@.take(i as int)),
        decreases n - i,
    {
        proof {
            assert(xs@.take(i as int + 1).drop_last() =~= xs@.take(i as int));
        }
        let x = &xs[i];
        let name: Option<String> = match &x.resource {
            Some(r) => Some(short_resource_name(r.as_str())),
            None => None,
        };
        let mut flags: Vec<String> = Vec::new();
        flags.push(owned("symbol-vm"));
        let record = InventoryHandle {
            id: x.key.clone(),
            name,
            patient: x.patient.clone(),
            resource: clone_opt(&x.resource),
            handle_type: x.kind.clone(),
            segment: Some(short_resource_name(x.key.as_str())),
            flags,
        };
        proof {
            assert(record@ == model_handle_record(*x)) by {
                assert(views(record.flags@) =~= seq!["symbol-vm"@]);
            }
        }
        handles.insert(x.key.as_str(), record);
        i = i + 1;
    }
    proof {
        assert(xs@.take(n as int) =~= xs@);
    }
}

fn add_model_resources(resources: &mut StrMap<InventoryResource>, xs: &Vec<RepositoryResource>, derived: &StrMap<String>)
    ensures
        final(resources)@ == resources_model_fold(old(resources)@, xs@, derived@),
{
    let n = xs.len();
    let mut i: usize = 0;
    while i < n
        invariant
            n == xs@.len(),
            i <= n,
            resources@ == resources_model_fold(old(resources)@, xs@.take(i as int), derived@),
        decreases n - i,
    {
        proof {
            assert(xs@.take(i as int + 1).drop_last() =~= xs@.take(i as int));
        }
        let x = &xs[i];
        let handle: Option<String> = match &x.handle {
            Some(h) => Some(h.clone()),
            None => match derived.get(x.key.as_str()) {
                Some(h) => Some(h.clone()),
                None => None,
            },
        };
        let record = InventoryResource {
            name: x.key.clone(),
            identifier: short_resource_name(x.key.as_str()),
            patient: x.patient.clone(),
            handle,
            resource_type: x.kind.clone(),
            source_file: first_of(&x.source_files),
        };
        resources.insert(x.key.as_str(), record);
        i = i + 1;
    }
    proof {
        assert(xs@.take(n as int) =~= xs@);
    }
}

fn clone_object(o: &PcGeosFixtureObject) -> (r: PcGeosFixtureObject)
    ensures
        r@ == o@,
{
    PcGeosFixtureObject {
        id: o.id.clone(),
        name: clone_opt(&o.name),
        class_name: clone_opt(&o.class_name),
        patient: clone_opt(&o.patient),
        handle: clone_opt(&o.handle),
        resource: clone_opt(&o.resource),
        address: clone_opt(&o.address),
        state_flags: clone_strings(&o.state_flags),
    }
}

fn add_objects(objects: &mut StrMap<PcGeosFixtureObject>, xs: &Vec<PcGeosFixtureObject>)
    ensures
        final(objects)@ == objects_fold(old(objects)@, xs@),
{
    let n = xs.len();
    let mut i: usize = 0;
    while i < n
        invariant
            n == xs@.len(),
            i <= n,
            objects@ == objects_fold(old(objects)@, xs@.take(i as int)),
        decreases n - i,
    {
        proof {
            assert(xs@.take(i as int + 1).drop_last() =~= xs@.take(i as int));
        }
        let x = clone_object(&xs[i]);
        insert_new(objects, xs[i].id.as_str(), x);
        i = i + 1;
    }
    proof {
        assert(xs@.take(n as int) =~= xs@);
    }
}

fn handles_of_patient(handles: &StrMap<InventoryHandle>, pk: &str) -> (r: Vec<String>)
    ensures
        views(r@) == handles_of(handles@, pk@),
{
    let n = handles.len();
    let mut out: Vec<String> = Vec::new();
    let mut i: usize = 0;
    while i < n
        invariant
            n == handles@.len(),
            i <= n,
            views(out@) == handles_of(handles@.take(i as int), pk@),
        decreases n - i,
    {
        proof {
            assert(handles@.take(i as int + 1).drop_last() =~= handles@.take(i as int));
        }
        let (k, v) = handles.entry_at(i);
        if str_eq(v.patient.as_str(), pk) {
            let ghost before = views(out@);
            out.push(k.clone());
            proof {
                assert(views(out@) =~= before.push(k@));
            }
        }
        i = i + 1;
    }
    proof {
        assert(handles@.take(n as int) =~= handles@);
    }
    out
}

fn is_listed(list: &Vec<String>, k: &str) -> (r: bool)
    ensures
        r == listed(list@, k@),
{
    let n = list.len();
    let mut j: usize = 0;
    while j < n
        invariant
            n == list@.len(),
            j <= n,
            forall|t: int| 0 <= t < j ==> #[trigger] list@[t]@ != k@,
        decreases n - j,
    {
        if str_eq(list[j].as_str(), k) {
            return true;
        }
        j = j + 1;
    }
    false
}

fn resources_of_patient(resources: &StrMap<InventoryResource>, list: &Vec<String>) -> (r: Vec<String>)
    ensures
        views(r@) == resources_listed(resources@, list@),
{
    let n = resources.len();
    let mut out: Vec<String> = Vec::new();
    let mut i: usize = 0;
    while i < n
        invariant
            n == resources@.len(),
            i <= n,
            views(out@) == resources_listed(resources@.take(i as int), list@),
        decreases n - i,
    {
        proof {
            assert(resources@.take(i as int + 1).drop_last() =~= resources@.take(i as int));
        }
        let (k, _v) = resources.entry_at(i);
        if is_listed(list, k.as_str()) {
            let ghost before = views(out@);
            out.push(k.clone());
            proof {
                assert(views(out@) =~= before.push(k@));
            }
        }
        i = i + 1;
    }
    proof {
        assert(resources@.take(n as int) =~= resources@);
    }
    out
}

fn objects_of_patient(objects: &StrMap<PcGeosFixtureObject>, pk: &str) -> (r: Vec<String>)
    ensures
        views(r@) == objects_of(objects@, pk@),
{
    let n = objects.len();
    let mut out: Vec<String> = Vec::new();
    let mut i: usize = 0;
    while i < n
        invariant
            n == objects@.len(),
            i <= n,
            views(out@) == objects_of(objects@.take(i as int), pk@),
        decreases n - i,
    {
        proof {
            assert(objects@.take(i as int + 1).drop_last() =~= objects@.take(i as int));
        }
        let (k, v) = objects.entry_at(i);
        let mine = match &v.patient {
            Some(p) => str_eq(p.as_str(), pk),
            None => false,
        };
        if mine {
            let ghost before = views(out@);
            out.push(k.clone());
            proof {
                assert(views(out@) =~= before.push(k@));
            }
        }
        i = i + 1;
    }
    proof {
        assert(objects@.take(n as int) =~= objects@);
    }
    out
}

fn add_patients(
    patients: &mut StrMap<InventoryPatient>,
    xs: &Vec<RepositoryPatient>,
    handles: &StrMap<InventoryHandle>,
    resources: &StrMap<InventoryResource>,
    objects: &StrMap<PcGeosFixtureObject>,
    default_patient: Option<&str>,
)
    ensures
        final(patients)@ == patients_fold(
            old(patients)@,
            xs@,
            handles@,
            resources@,
            objects@,
            crate::agent_protocol::opt_str(default_patient),
        ),
{
    let ghost dp = crate::agent_protocol::opt_str(default_patient);
    let n = xs.len();
    let mut i: usize = 0;
    while i < n
        invariant
            n == xs@.len(),
            i <= n,
            dp == crate::agent_protocol::opt_str(default_patient),
            patients@ == patients_fold(old(patients)@, xs@.take(i as int), handles@, resources@, objects@, dp),
        decreases n - i,
    {
        proof {
            assert(xs@.take(i as int + 1).drop_last() =~= xs@.take(i as int));
        }
        let x = &xs[i];
        let default = match default_patient {
            Some(d) => str_eq(d, x.key.as_str()),
            None => false,
        };
        let record = InventoryPatient {
            name: x.key.clone(),
            identifier: first_of(&x.geodes),
            path: first_of(&x.artifact_paths),
            default,
            handles: handles_of_patient(handles, x.key.as_str()),
            resources: resources_of_patient(resources, &x.resources),
            objects: objects_of_patient(objects, x.key.as_str()),
        };
        patients.insert(x.key.as_str(), record);
        i = i + 1;
    }
    proof {
        assert(xs@.take(n as int) =~= xs@);
    }
}

/// Builds the inventory: first the manifests (each resource's derived
/// handle, each application object), then the model's handles and
/// resources, then the recorded stops' objects, then the model's patients
/// with the handles, resources and objects that are theirs.
pub fn build_inventory(
    manifests: &Vec<GpManifest>,
    model: &PcGeosRepositoryModel,
    source_files: Vec<String>,
    stop_objects: &Vec<PcGeosFixtureObject>,
    default_patient: Option<&str>,
    runtime: String,
) -> (r: InventoryData)
    ensures
        ({
            let (h0, d, o0) = manifests_fold(manifests@, *model);
            let h = handles_fold(h0, model.handles@);
            let res = resources_model_fold(Seq::empty(), model.resources@, d);
            let o = objects_fold(o0, stop_objects@);
            &&& r.handles@ == h
            &&& r.resources@ == res
            &&& r.objects@ == o
            &&& r.patients@ == patients_fold(
                Seq::empty(),
                model.patients@,
                h,
                res,
                o,
                crate::agent_protocol::opt_str(default_patient),
            )
            &&& r.source_files == source_files
            &&& r.runtime == runtime
        }),
{
    let mut handles: StrMap<InventoryHandle> = StrMap::new();
    let mut derived: StrMap<String> = StrMap::new();
    let mut objects: StrMap<PcGeosFixtureObject> = StrMap::new();
    let n = manifests.len();
    let mut i: usize = 0;
    while i < n
        invariant
            n == manifests@.len(),
            i <= n,
            (handles@, derived@, objects@) == manifests_fold(manifests@.take(i as int), *model),
        decreases n - i,
    {
        proof {
            assert(manifests@.take(i as int + 1).drop_last() =~= manifests@.take(i as int));
        }
        add_manifest(&mut handles, &mut derived, &mut objects, &manifests[i], model);
        i = i + 1;
    }
    proof {
        assert(manifests@.take(n as int) =~= manifests@);
    }
    add_model_handles(&mut handles, &model.handles);
    let mut resources: StrMap<InventoryResource> = StrMap::new();
    add_model_resources(&mut resources, &model.resources, &derived);
    add_objects(&mut objects, stop_objects);
    let mut patients: StrMap<InventoryPatient> = StrMap::new();
    add_patients(&mut patients, &model.patients, &handles, &resources, &objects, default_patient);
    InventoryData { runtime, source_files, patients, handles, resources, objects }
}

/// The source files of one manifest: the manifest's path, its directory
/// (none for a path without one) and the files found under it, relative to
/// it.
#[derive(Clone, Debug, PartialEq, Eq)]
pub struct ManifestSources {
    pub path: String,
    pub root: Option<String>,
    pub files: Vec<String>,
}

/// The files of `ms` joined to their roots, added to the set `s` in order;
/// the error of the first manifest without a directory.
pub open spec fn sources_fold(s: Seq<(Seq<char>, ())>, ms: Seq<ManifestSources>) -> Result<Seq<(Seq<char>, ())>, Seq<char>>
    decreases ms.len(),
{
    if ms.len() == 0 {
        Ok(s)
    } else {
        match sources_fold(s, ms.drop_last()) {
            Err(e) => Err(e),
            Ok(s0) => match ms.last().root {
                None => Err("manifest "@ + ms.last().path@ + " has no parent"@),
                Some(root) => Ok(files_fold(s0, root@, ms.last().files@)),
            },
        }
    }
}

/// The files joined to `root`, added to the set `s` in order.
pub open spec fn files_fold(s: Seq<(Seq<char>, ())>, root: Seq<char>, fs: Seq<String>) -> Seq<(Seq<char>, ())>
    decreases fs.len(),
{
    if fs.len() == 0 {
        s
    } else {
        with_key(files_fold(s, root, fs.drop_last()), crate::cli::path_join(root, fs.last()@), ())
    }
}

/// The source files of the manifests, each joined to its manifest's
/// directory, once each, in string order; an error where a manifest has no
/// directory.
pub fn collect_manifest_source_files(manifests: &Vec<ManifestSources>) -> (r: SwatResult<Vec<String>>)
    ensures
        match sources_fold(Seq::empty(), manifests@) {
            Ok(s) => r matches Ok(v) && views(v@) == s.map_values(|e: (Seq<char>, ())| e.0),
            Err(m) => r matches Err(e) && e@ == m,
        },
{
    let mut set: StrMap<()> = StrMap::new();
    let n = manifests.len();
    let mut i: usize = 0;
    while i < n
        invariant
            n == manifests@.len(),
            i <= n,
            sources_fold(Seq::empty(), manifests@.take(i as int)) == Ok::<Seq<(Seq<char>, ())>, Seq<char>>(set@),
        decreases n - i,
    {
        proof {
            assert(manifests@.take(i as int + 1).drop_last() =~= manifests@.take(i as int));
        }
        let m = &manifests[i];
        let root = match &m.root {
            Some(r) => r,
            None => {
                let e = concat3("manifest ", m.path.as_str(), " has no parent");
                proof {
                    assert(sources_fold(Seq::empty(), manifests@.take(i as int + 1)) is Err);
                    let mut k = i as int + 1;
                    assert(manifests@.take(k) =~= manifests@.take(i as int + 1));
                    lemma_sources_fold_err_stays(manifests@, i as int + 1);
                }
                return Err(SwatError::new(e));
            },
        };
        let nf = m.files.len();
        let mut j: usize = 0;
        let ghost before = set@;
        while j < nf
            invariant
                nf == m.files@.len(),
                j <= nf,
                set@ == files_fold(before, root@, m.files@.take(j as int)),
            decreases nf - j,
        {
            proof {
                assert(m.files@.take(j as int + 1).drop_last() =~= m.files@.take(j as int));
            }
            let joined = crate::cli::join_path(root.as_str(), m.files[j].as_str());
            set.insert(joined.as_str(), ());
            j = j + 1;
        }
        proof {
            assert(m.files@.take(nf as int) =~= m.files@);
        }
        i = i + 1;
    }
    proof {
        assert(manifests@.take(n as int) =~= manifests@);
    }
    let keys = set.keys();
    proof {
        assert(views(keys@) =~= keys@.map_values(|k: String| k@));
    }
    Ok(keys)
}

/// Once the fold fails, it fails with the same error on every longer
/// prefix.
proof fn lemma_sources_fold_err_stays(ms: Seq<ManifestSources>, k: int)
    requires
        0 <= k <= ms.len(),
        sources_fold(Seq::empty(), ms.take(k)) is Err,
    ensures
        sources_fold(Seq::empty(), ms) == sources_fold(Seq::empty(), ms.take(k)),
    decreases ms.len() - k,
{
    if k < ms.len() {
        assert(ms.take(k + 1).drop_last() =~= ms.take(k));
        lemma_sources_fold_err_stays(ms, k + 1);
    } else {
        assert(ms.take(k) =~= ms);
    }
}

/// What validation reads of a recorded frame: its boundary, whether its
/// source file exists, its line and what it refers to.
#[derive(Clone, Debug, PartialEq, Eq)]
pub struct FrameReferences {
    pub boundary_id: u64,
    pub file: String,
    pub file_exists: bool,
    pub line: u64,
    pub patient: Option<String>,
    pub handle: Option<String>,
    pub resource: Option<String>,
}

/// What validation reads of a recorded stop.
#[derive(Clone, Debug, PartialEq, Eq)]
pub struct StopReferences {
    pub summary: String,
    pub frames: Vec<FrameReferences>,
}

/// The first problem of a frame against the inventory keys, if any: a
/// missing source file, a zero line, an unknown patient, handle or
/// resource, checked in that order.
pub open spec fn frame_problem(f: FrameReferences, patients: Seq<(Seq<char>, PatientRecord)>, handles: HandleMap, resources: ResourceMap) -> Option<Seq<char>> {
    let id = crate::text::decimal(f.boundary_id as nat);
    if !f.file_exists {
        Some("fixture frame "@ + id + " references missing source file "@ + f.file@)
    } else if f.line == 0 {
        Some("fixture frame "@ + id + " must use 1-based line numbers"@)
    } else if f.patient matches Some(p) && !has_key(patients, p@) {
        Some("fixture frame "@ + id + " references unknown patient "@ + f.patient->Some_0@)
    } else if f.handle matches Some(h) && !has_key(handles, h@) {
        Some("fixture frame "@ + id + " references unknown handle "@ + f.handle->Some_0@)
    } else if f.resource matches Some(x) && !has_key(resources, x@) {
        Some("fixture frame "@ + id + " references unknown resource "@ + f.resource->Some_0@)
    } else {
        None
    }
}

/// The first problem among frames `fs` from `i` on.
pub open spec fn frames_problem(fs: Seq<FrameReferences>, i: int, p: Seq<(Seq<char>, PatientRecord)>, h: HandleMap, r: ResourceMap) -> Option<Seq<char>>
    decreases fs.len() - i,
{
    if i < 0 || i >= fs.len() {
        None
    } else {
        match frame_problem(fs[i], p, h, r) {
            Some(m) => Some(m),
            None => frames_problem(fs, i + 1, p, h, r),
        }
    }
}

/// The first problem among stops `ss` from `i` on: a stop without frames,
/// or the first problem of its frames.
pub open spec fn stops_problem(ss: Seq<StopReferences>, i: int, p: Seq<(Seq<char>, PatientRecord)>, h: HandleMap, r: ResourceMap) -> Option<Seq<char>>
    decreases ss.len() - i,
{
    if i < 0 || i >= ss.len() {
        None
    } else if ss[i].frames@.len() == 0 {
        Some("fixture stop '"@ + ss[i].summary@ + "' does not define any frames"@)
    } else {
        match frames_problem(ss[i].frames@, 0, p, h, r) {
            Some(m) => Some(m),
            None => stops_problem(ss, i + 1, p, h, r),
        }
    }
}

fn frame_problem_exec(f: &FrameReferences, inv: &InventoryData) -> (r: Option<String>)
    ensures
        opt_text(r) == frame_problem(*f, inv.patients@, inv.handles@, inv.resources@),
{
    let mut prefix = owned("fixture frame ");
    crate::text::push_decimal(&mut prefix, f.boundary_id);
    if !f.file_exists {
        push_str(&mut prefix, " references missing source file ");
        push_str(&mut prefix, f.file.as_str());
        return Some(prefix);
    }
    if f.line == 0 {
        push_str(&mut prefix, " must use 1-based line numbers");
        return Some(prefix);
    }
    match &f.patient {
        Some(p) => if !inv.patients.contains_key(p.as_str()) {
            push_str(&mut prefix, " references unknown patient ");
            push_str(&mut prefix, p.as_str());
            return Some(prefix);
        },
        None => {},
    }
    match &f.handle {
        Some(h) => if !inv.handles.contains_key(h.as_str()) {
            push_str(&mut prefix, " references unknown handle ");
            push_str(&mut prefix, h.as_str());
            return Some(prefix);
        },
        None => {},
    }
    match &f.resource {
        Some(x) => if !inv.resources.contains_key(x.as_str()) {
            push_str(&mut prefix, " references unknown resource ");
            push_str(&mut prefix, x.as_str());
            return Some(prefix);
        },
        None => {},
    }
    None
}

/// Checks that every recorded stop has frames and that every frame's
/// source file exists, its line is one-based and what it refers to is in
/// the inventory; the first problem is the error.
pub fn validate_fixture_stop_references(stops: &Vec<StopReferences>, inventory: &InventoryData) -> (r: SwatResult<()>)
    ensures
        match stops_problem(stops@, 0, inventory.patients@, inventory.handles@, inventory.resources@) {
            Some(m) => r matches Err(e) && e@ == m,
            None => r is Ok,
        },
{
    let ghost p = inventory.patients@;
    let ghost h = inventory.handles@;
    let ghost rs = inventory.resources@;
    let n = stops.len();
    let mut i: usize = 0;
    while i < n
        invariant
            n == stops@.len(),
            i <= n,
            p == inventory.patients@,
            h == inventory.handles@,
            rs == inventory.resources@,
            stops_problem(stops@, 0, p, h, rs) == stops_problem(stops@, i as int, p, h, rs),
        decreases n - i,
    {
        let stop = &stops[i];
        if stop.frames.len() == 0 {
            let e = concat3("fixture stop '", stop.summary.as_str(), "' does not define any frames");
            return Err(SwatError::new(e));
        }
        let nf = stop.frames.len();
        let mut j: usize = 0;
        while j < nf
            invariant
                nf == stop.frames@.len(),
                j <= nf,
                p == inventory.patients@,
                h == inventory.handles@,
                rs == inventory.resources@,
                frames_problem(stop.frames@, 0, p, h, rs) == frames_problem(stop.frames@, j as int, p, h, rs),
                i < n,
                n == stops@.len(),
                *stop == stops@[i as int],
                nf > 0,
                stops_problem(stops@, 0, p, h, rs) == stops_problem(stops@, i as int, p, h, rs),
            decreases nf - j,
        {
            match frame_problem_exec(&stop.frames[j], inventory) {
                Some(m) => {
                    return Err(SwatError::new(m));
                },
                None => {},
            }
            j = j + 1;
        }
        i = i + 1;
    }
    Ok(())
}

} // verus!
