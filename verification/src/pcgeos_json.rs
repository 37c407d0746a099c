//! The JSON artifacts of a recorded PC/GEOS target: the inventory, each
//! source file, and each recorded frame with the inventory records it
//! names. Objects list their keys in key order.
use vstd::prelude::*;
use crate::adapter_pcgeos::PcGeosFixtureObject;
use crate::agent_protocol::opt_text;
use crate::inventory::{
    HandleRecord, InventoryData, InventoryHandle, InventoryPatient, InventoryResource, ObjectRecord,
    PatientRecord, ResourceRecord,
};
use crate::schema::{entries_model, items_model, json_model, JsonModel, JsonValue};
use crate::strmap::key_value;
use crate::text::{decimal, owned, push_decimal, views};

verus! {

pub open spec fn opt_j(o: Option<Seq<char>>) -> JsonModel {
    match o {
        Some(s) => JsonModel::Text(s),
        None => JsonModel::Null,
    }
}

pub open spec fn texts_j(v: Seq<Seq<char>>) -> JsonModel {
    JsonModel::Array(v.map_values(|s: Seq<char>| JsonModel::Text(s)))
}

/// An object of the inventory or of a frame.
pub open spec fn object_j(o: ObjectRecord) -> JsonModel {
    JsonModel::Object(seq![
        ("address"@, opt_j(o.address)),
        ("class"@, opt_j(o.class_name)),
        ("flags"@, texts_j(o.flags)),
        ("handle"@, opt_j(o.handle)),
        ("id"@, JsonModel::Text(o.id)),
        ("kind"@, JsonModel::Text("object"@)),
        ("name"@, opt_j(o.name)),
        ("patient"@, opt_j(o.patient)),
        ("resource"@, opt_j(o.resource)),
    ])
}

/// A handle; its segment where it has one.
pub open spec fn handle_j(h: HandleRecord) -> JsonModel {
    JsonModel::Object(seq![
        ("attached"@, JsonModel::Bool(true)),
        ("flags"@, texts_j(h.flags)),
        ("id"@, JsonModel::Text(h.id)),
        ("kind"@, JsonModel::Text("handle"@)),
        ("name"@, opt_j(h.name)),
        ("patient"@, JsonModel::Text(h.patient)),
        ("resource"@, opt_j(h.resource)),
    ] + match h.segment {
        Some(s) => seq![("segment"@, JsonModel::Text(s))],
        None => Seq::empty(),
    } + seq![("type"@, JsonModel::Text(h.handle_type))])
}

pub open spec fn resource_j(r: ResourceRecord) -> JsonModel {
    JsonModel::Object(seq![
        ("handle"@, opt_j(r.handle)),
        ("identifier"@, JsonModel::Text(r.identifier)),
        ("kind"@, JsonModel::Text("resource"@)),
        ("name"@, JsonModel::Text(r.name)),
        ("patient"@, JsonModel::Text(r.patient)),
        ("source_file"@, opt_j(r.source_file)),
        ("type"@, JsonModel::Text(r.resource_type)),
    ])
}

pub open spec fn patient_j(p: PatientRecord) -> JsonModel {
    JsonModel::Object(seq![
        ("default"@, JsonModel::Bool(p.default)),
        ("handles"@, texts_j(p.handles)),
        ("identifier"@, opt_j(p.identifier)),
        ("kind"@, JsonModel::Text("patient"@)),
        ("name"@, JsonModel::Text(p.name)),
        ("objects"@, texts_j(p.objects)),
        ("path"@, opt_j(p.path)),
        ("resources"@, texts_j(p.resources)),
        ("runtime"@, JsonModel::Text("pcgeos"@)),
        ("status"@, JsonModel::Text("loaded"@)),
    ])
}

fn push_entry(es: &mut Vec<(String, JsonValue)>, k: &str, v: JsonValue)
    ensures
        entries_model(final(es)@) == entries_model(old(es)@).push((k@, json_model(v))),
{
    let ghost before = es@;
    es.push((owned(k), v));
    assert(es@.subrange(0, es@.len() - 1) =~= before);
}

fn push_item(vs: &mut Vec<JsonValue>, v: JsonValue)
    ensures
        items_model(final(vs)@) == items_model(old(vs)@).push(json_model(v)),
{
    let ghost before = vs@;
    vs.push(v);
    assert(vs@.subrange(0, vs@.len() - 1) =~= before);
}

fn text_j(s: &String) -> (r: JsonValue)
    ensures
        json_model(r) == JsonModel::Text(s@),
{
    JsonValue::String(s.clone())
}

fn lit_j(s: &str) -> (r: JsonValue)
    ensures
        json_model(r) == JsonModel::Text(s@),
{
    JsonValue::String(owned(s))
}

fn opt_json(o: &Option<String>) -> (r: JsonValue)
    ensures
        json_model(r) == opt_j(opt_text(*o)),
{
    match o {
        Some(s) => JsonValue::String(s.clone()),
        None => JsonValue::Null,
    }
}

fn texts_json(v: &Vec<String>) -> (r: JsonValue)
    ensures
        json_model(r) == texts_j(views(v@)),
{
    let mut items: Vec<JsonValue> = Vec::new();
    let n = v.len();
    let mut i: usize = 0;
    while i < n
        invariant
            n == v@.len(),
            i <= n,
            items_model(items@) == views(v@).take(i as int).map_values(|s: Seq<char>| JsonModel::Text(s)),
        decreases n - i,
    {
        push_item(&mut items, JsonValue::String(v[i].clone()));
        proof {
            assert(views(v@).take(i + 1).map_values(|s: Seq<char>| JsonModel::Text(s)) =~= views(v@).take(
                i as int,
            ).map_values(|s: Seq<char>| JsonModel::Text(s)).push(JsonModel::Text(v@[i as int]@)));
        }
        i += 1;
    }
    assert(views(v@).take(n as int) =~= views(v@));
    JsonValue::Array(items)
}

/// An object as JSON, as `object_j` states.
pub fn object_json(o: &PcGeosFixtureObject) -> (r: JsonValue)
    ensures
        json_model(r) == object_j(o@),
{
    let mut es: Vec<(String, JsonValue)> = Vec::new();
    push_entry(&mut es, "address", opt_json(&o.address));
    push_entry(&mut es, "class", opt_json(&o.class_name));
    push_entry(&mut es, "flags", texts_json(&o.state_flags));
    push_entry(&mut es, "handle", opt_json(&o.handle));
    push_entry(&mut es, "id", text_j(&o.id));
    push_entry(&mut es, "kind", lit_j("object"));
    push_entry(&mut es, "name", opt_json(&o.name));
    push_entry(&mut es, "patient", opt_json(&o.patient));
    push_entry(&mut es, "resource", opt_json(&o.resource));
    assert(entries_model(es@) =~= match object_j(o@) {
        JsonModel::Object(x) => x,
        _ => Seq::empty(),
    });
    JsonValue::Object(es)
}

/// A handle as JSON, as `handle_j` states.
pub fn handle_json(h: &InventoryHandle) -> (r: JsonValue)
    ensures
        json_model(r) == handle_j(h@),
{
    let mut es: Vec<(String, JsonValue)> = Vec::new();
    push_entry(&mut es, "attached", JsonValue::Bool(true));
    push_entry(&mut es, "flags", texts_json(&h.flags));
    push_entry(&mut es, "id", text_j(&h.id));
    push_entry(&mut es, "kind", lit_j("handle"));
    push_entry(&mut es, "name", opt_json(&h.name));
    push_entry(&mut es, "patient", text_j(&h.patient));
    push_entry(&mut es, "resource", opt_json(&h.resource));
    match &h.segment {
        Some(s) => push_entry(&mut es, "segment", text_j(s)),
        None => {},
    }
    push_entry(&mut es, "type", text_j(&h.handle_type));
    assert(entries_model(es@) =~= match handle_j(h@) {
        JsonModel::Object(x) => x,
        _ => Seq::empty(),
    });
    JsonValue::Object(es)
}

/// A resource as JSON, as `resource_j` states.
pub fn resource_json(r: &InventoryResource) -> (j: JsonValue)
    ensures
        json_model(j) == resource_j(r@),
{
    let mut es: Vec<(String, JsonValue)> = Vec::new();
    push_entry(&mut es, "handle", opt_json(&r.handle));
    push_entry(&mut es, "identifier", text_j(&r.identifier));
    push_entry(&mut es, "kind", lit_j("resource"));
    push_entry(&mut es, "name", text_j(&r.name));
    push_entry(&mut es, "patient", text_j(&r.patient));
    push_entry(&mut es, "source_file", opt_json(&r.source_file));
    push_entry(&mut es, "type", text_j(&r.resource_type));
    assert(entries_model(es@) =~= match resource_j(r@) {
        JsonModel::Object(x) => x,
        _ => Seq::empty(),
    });
    JsonValue::Object(es)
}

/// A patient as JSON, as `patient_j` states.
pub fn patient_json(p: &InventoryPatient) -> (r: JsonValue)
    ensures
        json_model(r) == patient_j(p@),
{
    let mut es: Vec<(String, JsonValue)> = Vec::new();
    push_entry(&mut es, "default", JsonValue::Bool(p.default));
    push_entry(&mut es, "handles", texts_json(&p.handles));
    push_entry(&mut es, "identifier", opt_json(&p.identifier));
    push_entry(&mut es, "kind", lit_j("patient"));
    push_entry(&mut es, "name", text_j(&p.name));
    push_entry(&mut es, "objects", texts_json(&p.objects));
    push_entry(&mut es, "path", opt_json(&p.path));
    push_entry(&mut es, "resources", texts_json(&p.resources));
    push_entry(&mut es, "runtime", lit_j("pcgeos"));
    push_entry(&mut es, "status", lit_j("loaded"));
    assert(entries_model(es@) =~= match patient_j(p@) {
        JsonModel::Object(x) => x,
        _ => Seq::empty(),
    });
    JsonValue::Object(es)
}

/// The artifact of one source file: the file, at line one.
pub open spec fn source_file_j(file: Seq<char>) -> JsonModel {
    JsonModel::Object(seq![
        ("file"@, JsonModel::Text(file)),
        ("kind"@, JsonModel::Text("pcgeos-source-file"@)),
        ("line"@, JsonModel::Number("1"@)),
    ])
}

/// The artifact of one source file, as `source_file_j` states.
pub fn source_file_json(file: &String) -> (r: JsonValue)
    ensures
        json_model(r) == source_file_j(file@),
{
    let mut es: Vec<(String, JsonValue)> = Vec::new();
    push_entry(&mut es, "file", text_j(file));
    push_entry(&mut es, "kind", lit_j("pcgeos-source-file"));
    push_entry(&mut es, "line", JsonValue::Number(owned("1")));
    assert(entries_model(es@) =~= match source_file_j(file@) {
        JsonModel::Object(x) => x,
        _ => Seq::empty(),
    });
    JsonValue::Object(es)
}

/// The inventory artifact: its records in key order, its runtime and its
/// source files.
pub open spec fn inventory_j(
    patients: Seq<(Seq<char>, PatientRecord)>,
    handles: Seq<(Seq<char>, HandleRecord)>,
    resources: Seq<(Seq<char>, ResourceRecord)>,
    objects: Seq<(Seq<char>, ObjectRecord)>,
    runtime: Seq<char>,
    source_files: Seq<Seq<char>>,
) -> JsonModel {
    JsonModel::Object(seq![
        ("handles"@, JsonModel::Array(handles.map_values(|e: (Seq<char>, HandleRecord)| handle_j(e.1)))),
        ("kind"@, JsonModel::Text("pcgeos-inventory"@)),
        ("objects"@, JsonModel::Array(objects.map_values(|e: (Seq<char>, ObjectRecord)| object_j(e.1)))),
        ("patients"@, JsonModel::Array(patients.map_values(|e: (Seq<char>, PatientRecord)| patient_j(e.1)))),
        ("resources"@, JsonModel::Array(resources.map_values(|e: (Seq<char>, ResourceRecord)| resource_j(e.1)))),
        ("runtime"@, JsonModel::Text(runtime)),
        ("source_files"@, texts_j(source_files)),
    ])
}

/// The inventory artifact, as `inventory_j` states.
pub fn inventory_json(inv: &InventoryData) -> (r: JsonValue)
    ensures
        json_model(r) == inventory_j(
            inv.patients@,
            inv.handles@,
            inv.resources@,
            inv.objects@,
            inv.runtime@,
            views(inv.source_files@),
        ),
{
    let mut hs: Vec<JsonValue> = Vec::new();
    let n = inv.handles.len();
    let mut i: usize = 0;
    while i < n
        invariant
            n == inv.handles@.len(),
            i <= n,
            items_model(hs@) == inv.handles@.take(i as int).map_values(|e: (Seq<char>, HandleRecord)| handle_j(e.1)),
        decreases n - i,
    {
        let (_, h) = inv.handles.entry_at(i);
        push_item(&mut hs, handle_json(h));
        assert(inv.handles@.take(i + 1).map_values(|e: (Seq<char>, HandleRecord)| handle_j(e.1)) =~= inv.handles@.take(
            i as int,
        ).map_values(|e: (Seq<char>, HandleRecord)| handle_j(e.1)).push(handle_j(inv.handles@[i as int].1)));
        i += 1;
    }
    assert(inv.handles@.take(n as int) =~= inv.handles@);
    let mut os: Vec<JsonValue> = Vec::new();
    let n = inv.objects.len();
    let mut i: usize = 0;
    while i < n
        invariant
            n == inv.objects@.len(),
            i <= n,
            items_model(os@) == inv.objects@.take(i as int).map_values(|e: (Seq<char>, ObjectRecord)| object_j(e.1)),
        decreases n - i,
    {
        let (_, o) = inv.objects.entry_at(i);
        push_item(&mut os, object_json(o));
        assert(inv.objects@.take(i + 1).map_values(|e: (Seq<char>, ObjectRecord)| object_j(e.1)) =~= inv.objects@.take(
            i as int,
        ).map_values(|e: (Seq<char>, ObjectRecord)| object_j(e.1)).push(object_j(inv.objects@[i as int].1)));
        i += 1;
    }
    assert(inv.objects@.take(n as int) =~= inv.objects@);
    let mut ps: Vec<JsonValue> = Vec::new();
    let n = inv.patients.len();
    let mut i: usize = 0;
    while i < n
        invariant
            n == inv.patients@.len(),
            i <= n,
            items_model(ps@) == inv.patients@.take(i as int).map_values(|e: (Seq<char>, PatientRecord)| patient_j(e.1)),
        decreases n - i,
    {
        let (_, p) = inv.patients.entry_at(i);
        push_item(&mut ps, patient_json(p));
        assert(inv.patients@.take(i + 1).map_values(|e: (Seq<char>, PatientRecord)| patient_j(e.1)) =~= inv.patients@.take(
            i as int,
        ).map_values(|e: (Seq<char>, PatientRecord)| patient_j(e.1)).push(patient_j(inv.patients@[i as int].1)));
        i += 1;
    }
    assert(inv.patients@.take(n as int) =~= inv.patients@);
    let mut rs: Vec<JsonValue> = Vec::new();
    let n = inv.resources.len();
    let mut i: usize = 0;
    while i < n
        invariant
            n == inv.resources@.len(),
            i <= n,
            items_model(rs@) == inv.resources@.take(i as int).map_values(|e: (Seq<char>, ResourceRecord)| resource_j(e.1)),
        decreases n - i,
    {
        let (_, r) = inv.resources.entry_at(i);
        push_item(&mut rs, resource_json(r));
        assert(inv.resources@.take(i + 1).map_values(|e: (Seq<char>, ResourceRecord)| resource_j(e.1)) =~= inv.resources@.take(
            i as int,
        ).map_values(|e: (Seq<char>, ResourceRecord)| resource_j(e.1)).push(resource_j(inv.resources@[i as int].1)));
        i += 1;
    }
    assert(inv.resources@.take(n as int) =~= inv.resources@);
    let mut es: Vec<(String, JsonValue)> = Vec::new();
    push_entry(&mut es, "handles", JsonValue::Array(hs));
    push_entry(&mut es, "kind", lit_j("pcgeos-inventory"));
    push_entry(&mut es, "objects", JsonValue::Array(os));
    push_entry(&mut es, "patients", JsonValue::Array(ps));
    push_entry(&mut es, "resources", JsonValue::Array(rs));
    push_entry(&mut es, "runtime", text_j(&inv.runtime));
    push_entry(&mut es, "source_files", texts_json(&inv.source_files));
    assert(entries_model(es@) =~= match inventory_j(
        inv.patients@,
        inv.handles@,
        inv.resources@,
        inv.objects@,
        inv.runtime@,
        views(inv.source_files@),
    ) {
        JsonModel::Object(x) => x,
        _ => Seq::empty(),
    });
    JsonValue::Object(es)
}

/// A register or local variable of a recorded frame: its type and group
/// where the recording names them, and its value.
#[derive(Debug)]
pub struct FrameValue {
    pub value_type: Option<String>,
    pub group: Option<String>,
    pub value: JsonValue,
}

/// A recorded frame of a PC/GEOS stop. Its registers and locals are listed
/// by name, in name order, each name once.
#[derive(Debug)]
pub struct FrameRecord {
    pub name: Option<String>,
    pub function: String,
    pub file: String,
    pub line: u64,
    pub correlation_id: Option<String>,
    pub span_id: Option<String>,
    pub patient: Option<String>,
    pub handle: Option<String>,
    pub resource: Option<String>,
    pub registers: Vec<(String, FrameValue)>,
    pub locals: Vec<(String, FrameValue)>,
    pub objects: Vec<PcGeosFixtureObject>,
}

/// An entry under `k` where there is a value, none where there is not.
pub open spec fn opt_entry(k: Seq<char>, v: Option<JsonModel>) -> Seq<(Seq<char>, JsonModel)> {
    match v {
        Some(m) => seq![(k, m)],
        None => Seq::empty(),
    }
}

pub open spec fn opt_text_j(o: Option<Seq<char>>) -> Option<JsonModel> {
    match o {
        Some(s) => Some(JsonModel::Text(s)),
        None => None,
    }
}

/// The record under an optional name, if the name is given and known.
pub open spec fn found<V>(s: Seq<(Seq<char>, V)>, k: Option<Seq<char>>) -> Option<V> {
    match k {
        Some(k) => key_value(s, k),
        None => None,
    }
}

/// A register or local: its group and type where known, then its value.
pub open spec fn value_j(v: FrameValue) -> JsonModel {
    JsonModel::Object(
        opt_entry("group"@, opt_text_j(opt_text(v.group))) + opt_entry("type"@, opt_text_j(opt_text(v.value_type)))
            + seq![("value"@, json_model(v.value))],
    )
}

pub open spec fn values_j(vs: Seq<(String, FrameValue)>) -> Seq<(Seq<char>, JsonModel)> {
    vs.map_values(|e: (String, FrameValue)| (e.0@, value_j(e.1)))
}

/// A values object where there are values, none where there are not.
pub open spec fn values_entry(vs: Seq<(String, FrameValue)>) -> Option<JsonModel> {
    if vs.len() > 0 {
        Some(JsonModel::Object(values_j(vs)))
    } else {
        None
    }
}

/// The artifact of a recorded frame: where it stands, its name (its
/// function where it has none), its registers, locals and objects where it
/// has any, and the inventory records of the patient, handle and resource it
/// names where the inventory holds them.
pub open spec fn frame_j(
    f: FrameRecord,
    patients: Seq<(Seq<char>, PatientRecord)>,
    handles: Seq<(Seq<char>, HandleRecord)>,
    resources: Seq<(Seq<char>, ResourceRecord)>,
) -> JsonModel {
    JsonModel::Object(
        opt_entry("correlation_id"@, opt_text_j(opt_text(f.correlation_id)))
            + seq![("file"@, JsonModel::Text(f.file@)), ("function"@, JsonModel::Text(f.function@))]
            + opt_entry("handle"@, match found(handles, opt_text(f.handle)) {
                Some(h) => Some(handle_j(h)),
                None => None,
            })
            + seq![("kind"@, JsonModel::Text("pcgeos-frame"@)), ("line"@, JsonModel::Number(decimal(f.line as nat)))]
            + opt_entry("locals"@, values_entry(f.locals@))
            + seq![("name"@, JsonModel::Text(match opt_text(f.name) {
                Some(n) => n,
                None => f.function@,
            }))]
            + opt_entry("objects"@, if f.objects@.len() > 0 {
                Some(JsonModel::Array(f.objects@.map_values(|o: PcGeosFixtureObject| object_j(o@))))
            } else {
                None
            })
            + opt_entry("patient"@, match found(patients, opt_text(f.patient)) {
                Some(p) => Some(patient_j(p)),
                None => None,
            })
            + opt_entry("registers"@, values_entry(f.registers@))
            + opt_entry("resource"@, match found(resources, opt_text(f.resource)) {
                Some(r) => Some(resource_j(r)),
                None => None,
            })
            + opt_entry("span_id"@, opt_text_j(opt_text(f.span_id))),
    )
}

pub open spec fn opt_model(v: Option<JsonValue>) -> Option<JsonModel> {
    match v {
        Some(j) => Some(json_model(j)),
        None => None,
    }
}

fn push_opt(es: &mut Vec<(String, JsonValue)>, k: &str, v: Option<JsonValue>)
    ensures
        entries_model(final(es)@) == entries_model(old(es)@) + opt_entry(k@, opt_model(v)),
{
    match v {
        Some(j) => {
            push_entry(es, k, j);
        },
        None => {
            assert(entries_model(es@) + Seq::empty() =~= entries_model(es@));
        },
    }
}

fn push_named(es: &mut Vec<(String, JsonValue)>, k: String, v: JsonValue)
    ensures
        entries_model(final(es)@) == entries_model(old(es)@).push((k@, json_model(v))),
{
    let ghost before = es@;
    es.push((k, v));
    assert(es@.subrange(0, es@.len() - 1) =~= before);
}

fn opt_text_json(o: Option<String>) -> (r: Option<JsonValue>)
    ensures
        opt_model(r) == opt_text_j(opt_text(o)),
{
    match o {
        Some(s) => Some(JsonValue::String(s)),
        None => None,
    }
}

/// A register or local as JSON, as `value_j` states.
pub fn value_json(v: FrameValue) -> (r: JsonValue)
    ensures
        json_model(r) == value_j(v),
{
    let ghost v0 = v;
    let mut es: Vec<(String, JsonValue)> = Vec::new();
    push_opt(&mut es, "group", opt_text_json(v.group));
    push_opt(&mut es, "type", opt_text_json(v.value_type));
    push_entry(&mut es, "value", v.value);
    assert(entries_model(es@) =~= match value_j(v0) {
        JsonModel::Object(x) => x,
        _ => Seq::empty(),
    });
    JsonValue::Object(es)
}

/// Registers or locals as the entries of a JSON object, in the order given.
pub fn values_json(vs: Vec<(String, FrameValue)>) -> (r: Vec<(String, JsonValue)>)
    ensures
        entries_model(r@) == values_j(vs@),
{
    let ghost orig = vs@;
    let mut vs = vs;
    let mut es: Vec<(String, JsonValue)> = Vec::new();
    let ghost mut done: int = 0;
    while vs.len() > 0
        invariant
            0 <= done <= orig.len(),
            vs@ == orig.skip(done),
            entries_model(es@) == values_j(orig.take(done)),
        decreases vs@.len(),
    {
        let (k, v) = vs.remove(0);
        proof {
            assert(orig.take(done + 1) =~= orig.take(done).push(orig[done]));
            assert(values_j(orig.take(done + 1)) =~= values_j(orig.take(done)).push((k@, value_j(v))));
        }
        push_named(&mut es, k, value_json(v));
        proof {
            done = done + 1;
            assert(vs@ =~= orig.skip(done));
        }
    }
    assert(orig.take(done) =~= orig);
    es
}

fn found_json<'a, V: View>(m: &'a crate::strmap::StrMap<V>, k: &Option<String>) -> (r: Option<&'a V>)
    ensures
        match r {
            Some(v) => found(m@, opt_text(*k)) == Some(v@),
            None => found(m@, opt_text(*k)) is None,
        },
{
    match k {
        Some(k) => m.get(k.as_str()),
        None => None,
    }
}

/// Objects as the items of a JSON array, in the order given.
pub fn objects_json(objects: &Vec<PcGeosFixtureObject>) -> (r: Vec<JsonValue>)
    ensures
        items_model(r@) == objects@.map_values(|o: PcGeosFixtureObject| object_j(o@)),
{
    let mut os: Vec<JsonValue> = Vec::new();
    let n = objects.len();
    let mut i: usize = 0;
    while i < n
        invariant
            n == objects@.len(),
            i <= n,
            items_model(os@) == objects@.take(i as int).map_values(|o: PcGeosFixtureObject| object_j(o@)),
        decreases n - i,
    {
        push_item(&mut os, object_json(&objects[i]));
        assert(objects@.take(i + 1).map_values(|o: PcGeosFixtureObject| object_j(o@)) =~= objects@.take(
            i as int,
        ).map_values(|o: PcGeosFixtureObject| object_j(o@)).push(object_j(objects@[i as int]@)));
        i += 1;
    }
    assert(objects@.take(n as int) =~= objects@);
    os
}

/// The artifact of a recorded frame, as `frame_j` states, with the
/// inventory's records.
#[verifier::spinoff_prover]
#[verifier::rlimit(60)]
pub fn frame_json(f: FrameRecord, inv: &InventoryData) -> (r: JsonValue)
    ensures
        json_model(r) == frame_j(f, inv.patients@, inv.handles@, inv.resources@),
{
    let ghost f0 = f;
    let ghost spec_entries = match frame_j(f0, inv.patients@, inv.handles@, inv.resources@) {
        JsonModel::Object(x) => x,
        _ => Seq::empty(),
    };
    let handle = match found_json(&inv.handles, &f.handle) {
        Some(h) => Some(handle_json(h)),
        None => None,
    };
    let patient = match found_json(&inv.patients, &f.patient) {
        Some(p) => Some(patient_json(p)),
        None => None,
    };
    let resource = match found_json(&inv.resources, &f.resource) {
        Some(r) => Some(resource_json(r)),
        None => None,
    };
    let name = match &f.name {
        Some(n) => n.clone(),
        None => f.function.clone(),
    };
    let mut line = String::new();
    push_decimal(&mut line, f.line);
    let objects = if f.objects.len() > 0 {
        Some(JsonValue::Array(objects_json(&f.objects)))
    } else {
        None
    };
    let locals = if f.locals.len() > 0 {
        Some(JsonValue::Object(values_json(f.locals)))
    } else {
        None
    };
    let registers = if f.registers.len() > 0 {
        Some(JsonValue::Object(values_json(f.registers)))
    } else {
        None
    };
    let mut es: Vec<(String, JsonValue)> = Vec::new();
    push_opt(&mut es, "correlation_id", opt_text_json(f.correlation_id));
    push_entry(&mut es, "file", JsonValue::String(f.file));
    push_entry(&mut es, "function", JsonValue::String(f.function));
    push_opt(&mut es, "handle", handle);
    push_entry(&mut es, "kind", lit_j("pcgeos-frame"));
    push_entry(&mut es, "line", JsonValue::Number(line));
    push_opt(&mut es, "locals", locals);
    push_entry(&mut es, "name", JsonValue::String(name));
    push_opt(&mut es, "objects", objects);
    push_opt(&mut es, "patient", patient);
    push_opt(&mut es, "registers", registers);
    push_opt(&mut es, "resource", resource);
    push_opt(&mut es, "span_id", opt_text_json(f.span_id));
    assert(entries_model(es@) =~= spec_entries);
    JsonValue::Object(es)
}

} // verus!
