//! Shapes of JSON values: inferring a schema from a value, looking a path
//! up in a schema, and validating a value against a schema.
use vstd::prelude::*;
use crate::model::{SwatError, SwatResult};
use crate::text::{decimal, owned, push_decimal, push_str};
use crate::strmap::{StrMap, has_key, with_key, sorted_keys};
use crate::command::{int_error_message, usize_field};
use crate::text::parse_uint_str;

verus! {

/// A JSON value. A number is held as its text; an object keeps its entries
/// in the order given.
#[derive(Debug, PartialEq, Eq)]
pub enum JsonValue {
    Null,
    Bool(bool),
    Number(String),
    String(String),
    Array(Vec<JsonValue>),
    Object(Vec<(String, JsonValue)>),
}

/// The shape of a JSON value. An object's fields are listed in key order.
#[derive(Debug, PartialEq, Eq)]
pub enum SchemaNode {
    Any,
    Null,
    Bool,
    Number,
    String,
    Array(Box<SchemaNode>),
    Object(Vec<(String, SchemaNode)>),
    Union(Vec<SchemaNode>),
}

/// A JSON value as a mathematical value.
pub enum JsonModel {
    Null,
    Bool(bool),
    Number(Seq<char>),
    Text(Seq<char>),
    Array(Seq<JsonModel>),
    Object(Seq<(Seq<char>, JsonModel)>),
}

/// A schema as a mathematical value.
pub enum SchemaModel {
    Any,
    Null,
    Bool,
    Number,
    Text,
    Array(Box<SchemaModel>),
    Object(Seq<(Seq<char>, SchemaModel)>),
    Union(Seq<SchemaModel>),
}

pub open spec fn schema_model(s: SchemaNode) -> SchemaModel
    decreases s,
{
    match s {
        SchemaNode::Any => SchemaModel::Any,
        SchemaNode::Null => SchemaModel::Null,
        SchemaNode::Bool => SchemaModel::Bool,
        SchemaNode::Number => SchemaModel::Number,
        SchemaNode::String => SchemaModel::Text,
        SchemaNode::Array(item) => SchemaModel::Array(Box::new(schema_model(*item))),
        SchemaNode::Object(fields) => SchemaModel::Object(fields_model(fields@)),
        SchemaNode::Union(options) => SchemaModel::Union(options_model(options@)),
    }
}

pub open spec fn fields_model(fs: Seq<(String, SchemaNode)>) -> Seq<(Seq<char>, SchemaModel)>
    decreases fs,
{
    if fs.len() == 0 {
        seq![]
    } else {
        fields_model(fs.subrange(0, fs.len() - 1)).push((fs[fs.len() - 1].0@, schema_model(fs[fs.len() - 1].1)))
    }
}

pub open spec fn options_model(os: Seq<SchemaNode>) -> Seq<SchemaModel>
    decreases os,
{
    if os.len() == 0 {
        seq![]
    } else {
        options_model(os.subrange(0, os.len() - 1)).push(schema_model(os[os.len() - 1]))
    }
}

impl View for SchemaNode {
    type V = SchemaModel;

    open spec fn view(&self) -> SchemaModel {
        schema_model(*self)
    }
}

pub open spec fn json_model(v: JsonValue) -> JsonModel
    decreases v,
{
    match v {
        JsonValue::Null => JsonModel::Null,
        JsonValue::Bool(b) => JsonModel::Bool(b),
        JsonValue::Number(n) => JsonModel::Number(n@),
        JsonValue::String(s) => JsonModel::Text(s@),
        JsonValue::Array(items) => JsonModel::Array(items_model(items@)),
        JsonValue::Object(entries) => JsonModel::Object(entries_model(entries@)),
    }
}

pub open spec fn items_model(vs: Seq<JsonValue>) -> Seq<JsonModel>
    decreases vs,
{
    if vs.len() == 0 {
        seq![]
    } else {
        items_model(vs.subrange(0, vs.len() - 1)).push(json_model(vs[vs.len() - 1]))
    }
}

pub open spec fn entries_model(es: Seq<(String, JsonValue)>) -> Seq<(Seq<char>, JsonModel)>
    decreases es,
{
    if es.len() == 0 {
        seq![]
    } else {
        entries_model(es.subrange(0, es.len() - 1)).push((es[es.len() - 1].0@, json_model(es[es.len() - 1].1)))
    }
}

impl View for JsonValue {
    type V = JsonModel;

    open spec fn view(&self) -> JsonModel {
        json_model(*self)
    }
}

pub proof fn lemma_fields_model(fs: Seq<(String, SchemaNode)>)
    ensures
        fields_model(fs).len() == fs.len(),
        forall|i: int| 0 <= i < fs.len() ==> #[trigger] fields_model(fs)[i] == (fs[i].0@, schema_model(fs[i].1)),
    decreases fs.len(),
{
    if fs.len() > 0 {
        let p = fs.subrange(0, fs.len() - 1);
        lemma_fields_model(p);
        assert forall|i: int| 0 <= i < fs.len() implies #[trigger] fields_model(fs)[i] == (fs[i].0@, schema_model(fs[i].1)) by {
            if i < fs.len() - 1 {
                assert(fs[i] == p[i]);
            }
        }
    }
}

pub proof fn lemma_options_model(os: Seq<SchemaNode>)
    ensures
        options_model(os).len() == os.len(),
        forall|i: int| 0 <= i < os.len() ==> #[trigger] options_model(os)[i] == schema_model(os[i]),
    decreases os.len(),
{
    if os.len() > 0 {
        let p = os.subrange(0, os.len() - 1);
        lemma_options_model(p);
        assert forall|i: int| 0 <= i < os.len() implies #[trigger] options_model(os)[i] == schema_model(os[i]) by {
            if i < os.len() - 1 {
                assert(os[i] == p[i]);
            }
        }
    }
}

pub proof fn lemma_items_model(vs: Seq<JsonValue>)
    ensures
        items_model(vs).len() == vs.len(),
        forall|i: int| 0 <= i < vs.len() ==> #[trigger] items_model(vs)[i] == json_model(vs[i]),
    decreases vs.len(),
{
    if vs.len() > 0 {
        let p = vs.subrange(0, vs.len() - 1);
        lemma_items_model(p);
        assert forall|i: int| 0 <= i < vs.len() implies #[trigger] items_model(vs)[i] == json_model(vs[i]) by {
            if i < vs.len() - 1 {
                assert(vs[i] == p[i]);
            }
        }
    }
}

pub proof fn lemma_entries_model(es: Seq<(String, JsonValue)>)
    ensures
        entries_model(es).len() == es.len(),
        forall|i: int| 0 <= i < es.len() ==> #[trigger] entries_model(es)[i] == (es[i].0@, json_model(es[i].1)),
    decreases es.len(),
{
    if es.len() > 0 {
        let p = es.subrange(0, es.len() - 1);
        lemma_entries_model(p);
        assert forall|i: int| 0 <= i < es.len() implies #[trigger] entries_model(es)[i] == (es[i].0@, json_model(es[i].1)) by {
            if i < es.len() - 1 {
                assert(es[i] == p[i]);
            }
        }
    }
}

/// The text of a schema: `any`, `null`, `bool`, `number`, `string`,
/// `array<item>`, `object{name: schema, ...}`, or the options of a union
/// joined by ` | `.
pub open spec fn schema_text(s: SchemaModel) -> Seq<char>
    decreases s,
{
    match s {
        SchemaModel::Any => "any"@,
        SchemaModel::Null => "null"@,
        SchemaModel::Bool => "bool"@,
        SchemaModel::Number => "number"@,
        SchemaModel::Text => "string"@,
        SchemaModel::Array(item) => "array<"@ + schema_text(*item) + ">"@,
        SchemaModel::Object(fields) => "object{"@ + fields_text(fields) + "}"@,
        SchemaModel::Union(options) => options_text(options),
    }
}

/// The fields of an object schema, `name: schema` joined by `, `.
pub open spec fn fields_text(fs: Seq<(Seq<char>, SchemaModel)>) -> Seq<char>
    decreases fs,
{
    if fs.len() == 0 {
        seq![]
    } else {
        let last = fs[fs.len() - 1];
        let item = last.0 + ": "@ + schema_text(last.1);
        if fs.len() == 1 {
            item
        } else {
            fields_text(fs.subrange(0, fs.len() - 1)) + ", "@ + item
        }
    }
}

/// The options of a union, joined by ` | `.
pub open spec fn options_text(os: Seq<SchemaModel>) -> Seq<char>
    decreases os,
{
    if os.len() == 0 {
        seq![]
    } else {
        let item = schema_text(os[os.len() - 1]);
        if os.len() == 1 {
            item
        } else {
            options_text(os.subrange(0, os.len() - 1)) + " | "@ + item
        }
    }
}

impl SchemaNode {
    /// The schema's text, as `schema_text` states.
    pub fn to_string(&self) -> (r: String)
        ensures
            r@ == schema_text(self@),
        decreases self,
    {
        match self {
            SchemaNode::Any => owned("any"),
            SchemaNode::Null => owned("null"),
            SchemaNode::Bool => owned("bool"),
            SchemaNode::Number => owned("number"),
            SchemaNode::String => owned("string"),
            SchemaNode::Array(item) => {
                let mut s = owned("array<");
                let t = item.to_string();
                push_str(&mut s, t.as_str());
                push_str(&mut s, ">");
                s
            },
            SchemaNode::Object(fields) => {
                let ghost fm = fields_model(fields@);
                proof {
                    lemma_fields_model(fields@);
                }
                let mut s = owned("object{");
                let n = fields.len();
                let mut i: usize = 0;
                while i < n
                    invariant
                        n == fields@.len(),
                        *self is Object,
                        (*self)->Object_0 == *fields,
                        fm == fields_model(fields@),
                        fm.len() == n,
                        forall|k: int| 0 <= k < n ==> #[trigger] fm[k] == (fields@[k].0@, schema_model(fields@[k].1)),
                        i <= n,
                        s@ == "object{"@ + fields_text(fm.take(i as int)),
                    decreases n - i,
                {
                    proof {
                        assert(fm.take(i as int + 1).subrange(0, i as int) =~= fm.take(i as int));
                        assert(fm.take(i as int + 1)[i as int] == fm[i as int]);
                        vstd::std_specs::vec::axiom_vec_index_decreases(*fields, i as int);
                        assert(decreases_to!(*self => (*self)->Object_0));
                        assert(decreases_to!(fields@[i as int] => fields@[i as int].1));
                    }
                    if i > 0 {
                        push_str(&mut s, ", ");
                    }
                    push_str(&mut s, fields[i].0.as_str());
                    push_str(&mut s, ": ");
                    let t = fields[i].1.to_string();
                    push_str(&mut s, t.as_str());
                    i = i + 1;
                }
                proof {
                    assert(fm.take(n as int) =~= fm);
                }
                push_str(&mut s, "}");
                s
            },
            SchemaNode::Union(options) => {
                let ghost om = options_model(options@);
                proof {
                    lemma_options_model(options@);
                }
                let mut s = String::new();
                let n = options.len();
                let mut i: usize = 0;
                assert(om.take(0) =~= Seq::<SchemaModel>::empty());
                while i < n
                    invariant
                        n == options@.len(),
                        *self is Union,
                        (*self)->Union_0 == *options,
                        om == options_model(options@),
                        om.len() == n,
                        forall|k: int| 0 <= k < n ==> #[trigger] om[k] == schema_model(options@[k]),
                        i <= n,
                        s@ == options_text(om.take(i as int)),
                    decreases n - i,
                {
                    proof {
                        assert(om.take(i as int + 1).subrange(0, i as int) =~= om.take(i as int));
                        assert(om.take(i as int + 1)[i as int] == om[i as int]);
                        vstd::std_specs::vec::axiom_vec_index_decreases(*options, i as int);
                        assert(decreases_to!(*self => (*self)->Union_0));
                    }
                    if i > 0 {
                        push_str(&mut s, " | ");
                    }
                    let t = options[i].to_string();
                    push_str(&mut s, t.as_str());
                    i = i + 1;
                }
                proof {
                    assert(om.take(n as int) =~= om);
                }
                s
            },
        }
    }
}


/// A value that does not have the shape a schema asks for at `path`.
#[derive(Clone, Debug, PartialEq, Eq)]
pub struct SchemaMismatch {
    pub path: String,
    pub expected: String,
    pub actual: String,
}

impl View for SchemaMismatch {
    type V = (Seq<char>, Seq<char>, Seq<char>);

    open spec fn view(&self) -> (Seq<char>, Seq<char>, Seq<char>) {
        (self.path@, self.expected@, self.actual@)
    }
}

/// The mismatches found by a validation, in the order they were found.
#[derive(Clone, Debug, PartialEq, Eq)]
pub struct SchemaValidation {
    pub mismatches: Vec<SchemaMismatch>,
}

pub open spec fn mismatches_view(v: Seq<SchemaMismatch>) -> Seq<(Seq<char>, Seq<char>, Seq<char>)> {
    v.map_values(|m: SchemaMismatch| m@)
}

impl Default for SchemaValidation {
    fn default() -> (r: Self)
        ensures
            r.mismatches@.len() == 0,
    {
        SchemaValidation { mismatches: Vec::new() }
    }
}

impl SchemaValidation {
    /// Whether nothing was found.
    pub fn is_valid(&self) -> (r: bool)
        ensures
            r == (self.mismatches@.len() == 0),
    {
        self.mismatches.len() == 0
    }
}

/// The name of a value's kind.
pub open spec fn actual_type(v: JsonModel) -> Seq<char> {
    match v {
        JsonModel::Null => "null"@,
        JsonModel::Bool(_) => "bool"@,
        JsonModel::Number(_) => "number"@,
        JsonModel::Text(_) => "string"@,
        JsonModel::Array(_) => "array"@,
        JsonModel::Object(_) => "object"@,
    }
}

/// The value of the first entry with key `k`.
pub open spec fn entry_value(es: Seq<(Seq<char>, JsonModel)>, k: Seq<char>) -> Option<JsonModel>
    decreases es.len(),
{
    if es.len() == 0 {
        None
    } else if es[0].0 == k {
        Some(es[0].1)
    } else {
        entry_value(es.drop_first(), k)
    }
}

/// A one-mismatch list.
pub open spec fn one(path: Seq<char>, expected: Seq<char>, actual: Seq<char>) -> Seq<(Seq<char>, Seq<char>, Seq<char>)> {
    seq![(path, expected, actual)]
}

/// The mismatches of `v` against `s` at `path`, in order: a primitive of
/// another kind; an array's items (at `path[i]`); an object's fields in
/// the schema's order (at `path.name`, `missing` where the value has none);
/// a union none of whose options has no mismatch.
pub open spec fn validate_at(v: JsonModel, s: SchemaModel, path: Seq<char>) -> Seq<(Seq<char>, Seq<char>, Seq<char>)>
    decreases s, 0nat,
{
    match s {
        SchemaModel::Any => seq![],
        SchemaModel::Null => if v is Null { seq![] } else { one(path, "null"@, actual_type(v)) },
        SchemaModel::Bool => if v is Bool { seq![] } else { one(path, "bool"@, actual_type(v)) },
        SchemaModel::Number => if v is Number { seq![] } else { one(path, "number"@, actual_type(v)) },
        SchemaModel::Text => if v is Text { seq![] } else { one(path, "string"@, actual_type(v)) },
        SchemaModel::Array(item) => match v {
            JsonModel::Array(items) => validate_items(items, *item, path, items.len()),
            _ => one(path, schema_text(s), actual_type(v)),
        },
        SchemaModel::Object(fields) => match v {
            JsonModel::Object(entries) => validate_fields(entries, fields, path),
            _ => one(path, schema_text(s), actual_type(v)),
        },
        SchemaModel::Union(options) => if any_valid(v, options, path) {
            seq![]
        } else {
            one(path, schema_text(s), actual_type(v))
        },
    }
}

/// The mismatches of the first `n` items against `item`.
pub open spec fn validate_items(items: Seq<JsonModel>, item: SchemaModel, path: Seq<char>, n: nat) -> Seq<(Seq<char>, Seq<char>, Seq<char>)>
    decreases item, n,
{
    if n == 0 {
        seq![]
    } else {
        validate_items(items, item, path, (n - 1) as nat) + validate_at(items[n - 1], item, path + "["@ + decimal((n - 1) as nat) + "]"@)
    }
}

/// The mismatches of an object's entries against the schema's fields.
pub open spec fn validate_fields(entries: Seq<(Seq<char>, JsonModel)>, fs: Seq<(Seq<char>, SchemaModel)>, path: Seq<char>) -> Seq<(Seq<char>, Seq<char>, Seq<char>)>
    decreases fs, 0nat,
{
    if fs.len() == 0 {
        seq![]
    } else {
        let name = fs[fs.len() - 1].0;
        let fsch = fs[fs.len() - 1].1;
        let at = path + "."@ + name;
        validate_fields(entries, fs.subrange(0, fs.len() - 1), path) + match entry_value(entries, name) {
            Some(ev) => validate_at(ev, fsch, at),
            None => one(at, schema_text(fsch), "missing"@),
        }
    }
}

/// Whether some option has no mismatch with `v`.
pub open spec fn any_valid(v: JsonModel, os: Seq<SchemaModel>, path: Seq<char>) -> bool
    decreases os, 0nat,
{
    if os.len() == 0 {
        false
    } else {
        any_valid(v, os.subrange(0, os.len() - 1), path) || validate_at(v, os[os.len() - 1], path).len() == 0
    }
}

fn actual_type_of(v: &JsonValue) -> (r: String)
    ensures
        r@ == actual_type(v@),
{
    match v {
        JsonValue::Null => owned("null"),
        JsonValue::Bool(_) => owned("bool"),
        JsonValue::Number(_) => owned("number"),
        JsonValue::String(_) => owned("string"),
        JsonValue::Array(_) => owned("array"),
        JsonValue::Object(_) => owned("object"),
    }
}

fn push_mismatch(out: &mut Vec<SchemaMismatch>, path: &str, expected: String, actual: String)
    ensures
        mismatches_view(final(out)@) == mismatches_view(old(out)@) + one(path@, expected@, actual@),
{
    let ghost before = out@;
    out.push(SchemaMismatch { path: owned(path), expected, actual });
    proof {
        assert(mismatches_view(out@) =~= mismatches_view(before) + one(path@, expected@, actual@));
    }
}

fn entry_of<'a>(entries: &'a Vec<(String, JsonValue)>, k: &str) -> (r: Option<&'a JsonValue>)
    ensures
        match r {
            Some(v) => entry_value(entries_model(entries@), k@) == Some(v@),
            None => entry_value(entries_model(entries@), k@) is None,
        },
{
    proof {
        lemma_entries_model(entries@);
    }
    let ghost em = entries_model(entries@);
    let n = entries.len();
    let mut i: usize = 0;
    assert(em.skip(0) =~= em);
    while i < n
        invariant
            n == entries@.len(),
            em == entries_model(entries@),
            em.len() == n,
            forall|k: int| 0 <= k < n ==> #[trigger] em[k] == (entries@[k].0@, json_model(entries@[k].1)),
            i <= n,
            entry_value(em, k@) == entry_value(em.skip(i as int), k@),
        decreases n - i,
    {
        proof {
            assert(em.skip(i as int)[0] == em[i as int]);
            assert(em.skip(i as int).drop_first() =~= em.skip(i as int + 1));
        }
        if crate::text::str_eq(entries[i].0.as_str(), k) {
            return Some(&entries[i].1);
        }
        i = i + 1;
    }
    None
}

proof fn lemma_decreasing_index<T>(v: Vec<T>, i: int)
    requires
        0 <= i < v@.len(),
    ensures
        decreases_to!(v => v@[i]),
{
    vstd::std_specs::vec::axiom_vec_index_decreases(v, i);
}

fn validate_json_at_path(value: &JsonValue, schema: &SchemaNode, path: &str, mismatches: &mut Vec<SchemaMismatch>)
    ensures
        mismatches_view(final(mismatches)@) == mismatches_view(old(mismatches)@) + validate_at(value@, schema@, path@),
    decreases schema,
{
    match schema {
        SchemaNode::Any => {
            assert(mismatches_view(mismatches@) =~= mismatches_view(old(mismatches)@) + validate_at(value@, schema@, path@));
        },
        SchemaNode::Null => {
            if !matches!(value, JsonValue::Null) {
                push_mismatch(mismatches, path, owned("null"), actual_type_of(value));
            } else {
                assert(mismatches_view(mismatches@) =~= mismatches_view(old(mismatches)@) + validate_at(value@, schema@, path@));
            }
        },
        SchemaNode::Bool => {
            if !matches!(value, JsonValue::Bool(_)) {
                push_mismatch(mismatches, path, owned("bool"), actual_type_of(value));
            } else {
                assert(mismatches_view(mismatches@) =~= mismatches_view(old(mismatches)@) + validate_at(value@, schema@, path@));
            }
        },
        SchemaNode::Number => {
            if !matches!(value, JsonValue::Number(_)) {
                push_mismatch(mismatches, path, owned("number"), actual_type_of(value));
            } else {
                assert(mismatches_view(mismatches@) =~= mismatches_view(old(mismatches)@) + validate_at(value@, schema@, path@));
            }
        },
        SchemaNode::String => {
            if !matches!(value, JsonValue::String(_)) {
                push_mismatch(mismatches, path, owned("string"), actual_type_of(value));
            } else {
                assert(mismatches_view(mismatches@) =~= mismatches_view(old(mismatches)@) + validate_at(value@, schema@, path@));
            }
        },
        SchemaNode::Array(item_schema) => match value {
            JsonValue::Array(items) => {
                proof {
                    lemma_items_model(items@);
                }
                let ghost im = items_model(items@);
                let n = items.len();
                let mut i: usize = 0;
                while i < n
                    invariant
                        n == items@.len(),
                        im == items_model(items@),
                        im.len() == n,
                        forall|k: int| 0 <= k < n ==> #[trigger] im[k] == json_model(items@[k]),
                        *schema is Array,
                        (*schema)->Array_0 == *item_schema,
                        i <= n,
                        mismatches_view(mismatches@) == mismatches_view(old(mismatches)@) + validate_items(im, schema_model(**item_schema), path@, i as nat),
                    decreases n - i,
                {
                    let mut item_path = owned(path);
                    push_str(&mut item_path, "[");
                    push_decimal(&mut item_path, i as u64);
                    push_str(&mut item_path, "]");
                    let ghost before = mismatches_view(mismatches@);
                    proof {
                        assert(decreases_to!(*schema => (*schema)->Array_0));
                    }
                    validate_json_at_path(&items[i], item_schema, item_path.as_str(), mismatches);
                    proof {
                        assert(validate_items(im, schema_model(**item_schema), path@, (i + 1) as nat) == validate_items(im, schema_model(**item_schema), path@, i as nat) + validate_at(im[i as int], schema_model(**item_schema), item_path@));
                        assert(mismatches_view(mismatches@) =~= mismatches_view(old(mismatches)@) + validate_items(im, schema_model(**item_schema), path@, (i + 1) as nat));
                    }
                    i = i + 1;
                }
            },
            _ => {
                push_mismatch(mismatches, path, schema.to_string(), actual_type_of(value));
            },
        },
        SchemaNode::Object(fields) => match value {
            JsonValue::Object(entries) => {
                proof {
                    lemma_fields_model(fields@);
                }
                let ghost fm = fields_model(fields@);
                let ghost em = entries_model(entries@);
                let n = fields.len();
                let mut i: usize = 0;
                assert(fm.take(0) =~= Seq::<(Seq<char>, SchemaModel)>::empty());
                while i < n
                    invariant
                        n == fields@.len(),
                        fm == fields_model(fields@),
                        em == entries_model(entries@),
                        fm.len() == n,
                        forall|k: int| 0 <= k < n ==> #[trigger] fm[k] == (fields@[k].0@, schema_model(fields@[k].1)),
                        *schema is Object,
                        (*schema)->Object_0 == *fields,
                        i <= n,
                        mismatches_view(mismatches@) == mismatches_view(old(mismatches)@) + validate_fields(em, fm.take(i as int), path@),
                    decreases n - i,
                {
                    let name = fields[i].0.as_str();
                    let field_schema = &fields[i].1;
                    let mut field_path = owned(path);
                    push_str(&mut field_path, ".");
                    push_str(&mut field_path, name);
                    proof {
                        assert(fm.take(i as int + 1).subrange(0, i as int) =~= fm.take(i as int));
                        assert(fm.take(i as int + 1)[i as int] == fm[i as int]);
                        lemma_decreasing_index(*fields, i as int);
                        assert(decreases_to!(*schema => (*schema)->Object_0));
                        assert(decreases_to!(fields@[i as int] => fields@[i as int].1));
                    }
                    match entry_of(entries, name) {
                        Some(field_value) => {
                            validate_json_at_path(field_value, field_schema, field_path.as_str(), mismatches);
                        },
                        None => {
                            push_mismatch(mismatches, field_path.as_str(), field_schema.to_string(), owned("missing"));
                        },
                    }
                    proof {
                        assert(mismatches_view(mismatches@) =~= mismatches_view(old(mismatches)@) + validate_fields(em, fm.take(i as int + 1), path@));
                    }
                    i = i + 1;
                }
                proof {
                    assert(fm.take(n as int) =~= fm);
                }
            },
            _ => {
                push_mismatch(mismatches, path, schema.to_string(), actual_type_of(value));
            },
        },
        SchemaNode::Union(options) => {
            proof {
                lemma_options_model(options@);
            }
            let ghost om = options_model(options@);
            let n = options.len();
            let mut i: usize = 0;
            let mut branch_valid = false;
            assert(om.take(0) =~= Seq::<SchemaModel>::empty());
            assert(om.take(n as int) =~= om);
            while i < n
                invariant_except_break
                    !branch_valid,
                    any_valid(value@, om.take(i as int), path@) == false,
                invariant
                    n == options@.len(),
                    om == options_model(options@),
                    om.len() == n,
                    om.take(n as int) == om,
                    forall|k: int| 0 <= k < n ==> #[trigger] om[k] == schema_model(options@[k]),
                    *schema is Union,
                    (*schema)->Union_0 == *options,
                    i <= n,
                    mismatches@ == old(mismatches)@,
                ensures
                    branch_valid == any_valid(value@, om, path@),
                decreases n - i,
            {
                proof {
                    assert(om.take(i as int + 1).subrange(0, i as int) =~= om.take(i as int));
                    assert(om.take(i as int + 1)[i as int] == om[i as int]);
                    lemma_decreasing_index(*options, i as int);
                    assert(decreases_to!(*schema => (*schema)->Union_0));
                }
                let mut branch: Vec<SchemaMismatch> = Vec::new();
                validate_json_at_path(value, &options[i], path, &mut branch);
                if branch.len() == 0 {
                    proof {
                        assert(mismatches_view(branch@).len() == branch@.len());
                        lemma_any_valid_stays(value@, om, path@, i as int + 1);
                    }
                    branch_valid = true;
                    break;
                }
                proof {
                    assert(mismatches_view(branch@).len() == branch@.len());
                }
                i = i + 1;
            }
            proof {
                if !branch_valid {
                    assert(om.take(n as int) =~= om);
                }
            }
            if !branch_valid {
                push_mismatch(mismatches, path, schema.to_string(), actual_type_of(value));
            } else {
                assert(mismatches_view(mismatches@) =~= mismatches_view(old(mismatches)@) + validate_at(value@, schema@, path@));
            }
        },
    }
}

proof fn lemma_any_valid_stays(v: JsonModel, os: Seq<SchemaModel>, path: Seq<char>, k: int)
    requires
        0 <= k <= os.len(),
        any_valid(v, os.take(k), path),
    ensures
        any_valid(v, os, path),
    decreases os.len() - k,
{
    if k < os.len() {
        assert(os.take(k + 1).subrange(0, k) =~= os.take(k));
        lemma_any_valid_stays(v, os, path, k + 1);
    } else {
        assert(os.take(k) =~= os);
    }
}

/// Validates `value` against `schema` from the root path `$`, as
/// `validate_at` states.
pub fn validate_json(value: &JsonValue, schema: &SchemaNode) -> (r: SchemaValidation)
    ensures
        mismatches_view(r.mismatches@) == validate_at(value@, schema@, "$"@),
{
    let mut mismatches: Vec<SchemaMismatch> = Vec::new();
    validate_json_at_path(value, schema, "$", &mut mismatches);
    assert(mismatches_view(mismatches@) =~= validate_at(value@, schema@, "$"@));
    SchemaValidation { mismatches }
}


impl SchemaNode {
    /// A copy of the schema.
    pub fn duplicate(&self) -> (r: SchemaNode)
        ensures
            r@ == self@,
        decreases self,
    {
        match self {
            SchemaNode::Any => SchemaNode::Any,
            SchemaNode::Null => SchemaNode::Null,
            SchemaNode::Bool => SchemaNode::Bool,
            SchemaNode::Number => SchemaNode::Number,
            SchemaNode::String => SchemaNode::String,
            SchemaNode::Array(item) => SchemaNode::Array(Box::new(item.duplicate())),
            SchemaNode::Object(fields) => {
                proof {
                    lemma_fields_model(fields@);
                }
                let mut out: Vec<(String, SchemaNode)> = Vec::new();
                let n = fields.len();
                let mut i: usize = 0;
                while i < n
                    invariant
                        n == fields@.len(),
                        *self is Object,
                        (*self)->Object_0 == *fields,
                        fields_model(fields@).len() == n,
                        forall|k: int| 0 <= k < n ==> #[trigger] fields_model(fields@)[k] == (fields@[k].0@, schema_model(fields@[k].1)),
                        i <= n,
                        out@.len() == i,
                        forall|k: int| 0 <= k < i ==> #[trigger] fields_model(out@)[k] == fields_model(fields@)[k],
                        fields_model(out@).len() == i,
                    decreases n - i,
                {
                    proof {
                        lemma_decreasing_index(*fields, i as int);
                        assert(decreases_to!(*self => (*self)->Object_0));
                        assert(decreases_to!(fields@[i as int] => fields@[i as int].1));
                    }
                    let d = fields[i].1.duplicate();
                    let ghost before = out@;
                    out.push((owned(fields[i].0.as_str()), d));
                    proof {
                        lemma_fields_model(before);
                        lemma_fields_model(out@);
                        assert(out@.subrange(0, i as int) =~= before);
                        assert forall|k: int| 0 <= k < i + 1 implies #[trigger] fields_model(out@)[k] == fields_model(fields@)[k] by {
                            if k < i {
                                assert(out@[k] == before[k]);
                            }
                        }
                    }
                    i = i + 1;
                }
                proof {
                    assert(fields_model(out@) =~= fields_model(fields@));
                }
                SchemaNode::Object(out)
            },
            SchemaNode::Union(options) => {
                proof {
                    lemma_options_model(options@);
                }
                let mut out: Vec<SchemaNode> = Vec::new();
                let n = options.len();
                let mut i: usize = 0;
                while i < n
                    invariant
                        n == options@.len(),
                        *self is Union,
                        (*self)->Union_0 == *options,
                        options_model(options@).len() == n,
                        forall|k: int| 0 <= k < n ==> #[trigger] options_model(options@)[k] == schema_model(options@[k]),
                        i <= n,
                        out@.len() == i,
                        forall|k: int| 0 <= k < i ==> #[trigger] schema_model(out@[k]) == schema_model(options@[k]),
                    decreases n - i,
                {
                    proof {
                        lemma_decreasing_index(*options, i as int);
                        assert(decreases_to!(*self => (*self)->Union_0));
                    }
                    let d = options[i].duplicate();
                    out.push(d);
                    i = i + 1;
                }
                proof {
                    lemma_options_model(out@);
                    assert(options_model(out@) =~= options_model(options@));
                }
                SchemaNode::Union(out)
            },
        }
    }
}

/// The schemas with one per text, the first of each, in text order.
pub open spec fn unique_by_text(ss: Seq<SchemaModel>) -> Seq<(Seq<char>, SchemaModel)>
    decreases ss.len(),
{
    if ss.len() == 0 {
        seq![]
    } else {
        let u = unique_by_text(ss.drop_last());
        let k = schema_text(ss.last());
        if has_key(u, k) {
            u
        } else {
            with_key(u, k, ss.last())
        }
    }
}

/// Schemas merged: one per text, in text order; the one left where one is
/// left, else their union.
pub open spec fn merge(ss: Seq<SchemaModel>) -> SchemaModel {
    let d = unique_by_text(ss).map_values(|e: (Seq<char>, SchemaModel)| e.1);
    if d.len() == 1 {
        d[0]
    } else {
        SchemaModel::Union(d)
    }
}

/// The schemas merged, as `merge` states.
pub fn merge_schemas(schemas: Vec<SchemaNode>) -> (r: SchemaNode)
    ensures
        r@ == merge(options_model(schemas@)),
{
    proof {
        lemma_options_model(schemas@);
    }
    let ghost sm = options_model(schemas@);
    let mut unique: StrMap<SchemaNode> = StrMap::new();
    let mut schemas = schemas;
    let n = schemas.len();
    let mut i: usize = 0;
    let ghost orig = schemas@;
    while schemas.len() > 0
        invariant
            n == orig.len(),
            sm.len() == n,
            forall|k: int| 0 <= k < n ==> #[trigger] sm[k] == schema_model(orig[k]),
            i <= n,
            schemas@ == orig.skip(i as int),
            unique@ == unique_by_text(sm.take(i as int)),
        decreases schemas.len(),
    {
        let s = schemas.remove(0);
        proof {
            assert(s == orig[i as int]);
            assert(sm.take(i as int + 1).drop_last() =~= sm.take(i as int));
            assert(schemas@ =~= orig.skip(i as int + 1));
        }
        let key = s.to_string();
        if !unique.contains_key(key.as_str()) {
            unique.insert(key.as_str(), s);
        }
        i = i + 1;
    }
    proof {
        assert(sm.take(i as int) =~= sm);
    }
    let ghost u = unique@;
    let mut entries = unique.into_entries();
    let ghost es = entries@;
    let m = entries.len();
    let mut deduped: Vec<SchemaNode> = Vec::new();
    let mut j: usize = 0;
    while entries.len() > 0
        invariant
            m == es.len(),
            crate::strmap::entries_view(es) == u,
            j <= m,
            entries@ == es.skip(j as int),
            deduped@.len() == j,
            forall|k: int| 0 <= k < j ==> #[trigger] schema_model(deduped@[k]) == u[k].1,
        decreases entries.len(),
    {
        let (_, s) = entries.remove(0);
        proof {
            assert(s == es[j as int].1);
            assert(crate::strmap::entries_view(es)[j as int] == (es[j as int].0@, es[j as int].1@));
            assert(entries@ =~= es.skip(j as int + 1));
        }
        deduped.push(s);
        j = j + 1;
    }
    proof {
        lemma_options_model(deduped@);
        assert(options_model(deduped@) =~= u.map_values(|e: (Seq<char>, SchemaModel)| e.1));
    }
    if deduped.len() == 1 {
        deduped.remove(0)
    } else {
        SchemaNode::Union(deduped)
    }
}


/// The schema of a value: its kind; for an array the merge of its items'
/// schemas (any item where it is empty); for an object each key's schema,
/// the last entry of a key winning.
pub open spec fn infer(v: JsonModel) -> SchemaModel
    decreases v,
{
    match v {
        JsonModel::Null => SchemaModel::Null,
        JsonModel::Bool(_) => SchemaModel::Bool,
        JsonModel::Number(_) => SchemaModel::Number,
        JsonModel::Text(_) => SchemaModel::Text,
        JsonModel::Array(items) => if items.len() == 0 {
            SchemaModel::Array(Box::new(SchemaModel::Any))
        } else {
            SchemaModel::Array(Box::new(merge(infer_items(items))))
        },
        JsonModel::Object(entries) => SchemaModel::Object(infer_entries(entries)),
    }
}

pub open spec fn infer_items(vs: Seq<JsonModel>) -> Seq<SchemaModel>
    decreases vs,
{
    if vs.len() == 0 {
        seq![]
    } else {
        infer_items(vs.subrange(0, vs.len() - 1)).push(infer(vs[vs.len() - 1]))
    }
}

pub open spec fn infer_entries(es: Seq<(Seq<char>, JsonModel)>) -> Seq<(Seq<char>, SchemaModel)>
    decreases es,
{
    if es.len() == 0 {
        seq![]
    } else {
        with_key(infer_entries(es.subrange(0, es.len() - 1)), es[es.len() - 1].0, infer(es[es.len() - 1].1))
    }
}

proof fn lemma_infer_items(vs: Seq<JsonModel>)
    ensures
        infer_items(vs).len() == vs.len(),
        forall|i: int| 0 <= i < vs.len() ==> #[trigger] infer_items(vs)[i] == infer(vs[i]),
    decreases vs.len(),
{
    if vs.len() > 0 {
        let p = vs.subrange(0, vs.len() - 1);
        lemma_infer_items(p);
        assert forall|i: int| 0 <= i < vs.len() implies #[trigger] infer_items(vs)[i] == infer(vs[i]) by {
            if i < vs.len() - 1 {
                assert(vs[i] == p[i]);
            }
        }
    }
}

/// Infers the schema of `value`, as `infer` states.
pub fn infer_json_schema(value: &JsonValue) -> (r: SchemaNode)
    ensures
        r@ == infer(value@),
    decreases value,
{
    match value {
        JsonValue::Null => SchemaNode::Null,
        JsonValue::Bool(_) => SchemaNode::Bool,
        JsonValue::Number(_) => SchemaNode::Number,
        JsonValue::String(_) => SchemaNode::String,
        JsonValue::Array(items) => {
            proof {
                lemma_items_model(items@);
            }
            let ghost im = items_model(items@);
            assert(value@ == JsonModel::Array(im));
            if items.len() == 0 {
                assert(im.len() == 0);
                let r = SchemaNode::Array(Box::new(SchemaNode::Any));
                assert(schema_model(SchemaNode::Any) == SchemaModel::Any);
                assert(r@ == SchemaModel::Array(Box::new(SchemaModel::Any)));
                assert(infer(value@) == SchemaModel::Array(Box::new(SchemaModel::Any)));
                return r;
            }
            let mut inferred: Vec<SchemaNode> = Vec::new();
            let n = items.len();
            let mut i: usize = 0;
            while i < n
                invariant
                    n == items@.len(),
                    *value is Array,
                    (*value)->Array_0 == *items,
                    im == items_model(items@),
                    im.len() == n,
                    forall|k: int| 0 <= k < n ==> #[trigger] im[k] == json_model(items@[k]),
                    i <= n,
                    inferred@.len() == i,
                    forall|k: int| 0 <= k < i ==> #[trigger] schema_model(inferred@[k]) == infer(im[k]),
                decreases n - i,
            {
                proof {
                    lemma_decreasing_index(*items, i as int);
                    assert(decreases_to!(*value => (*value)->Array_0));
                }
                let s = infer_json_schema(&items[i]);
                inferred.push(s);
                i = i + 1;
            }
            proof {
                lemma_options_model(inferred@);
                lemma_infer_items(im);
                assert(options_model(inferred@) =~= infer_items(im));
            }
            SchemaNode::Array(Box::new(merge_schemas(inferred)))
        },
        JsonValue::Object(entries) => {
            proof {
                lemma_entries_model(entries@);
            }
            let ghost em = entries_model(entries@);
            let mut fields: StrMap<SchemaNode> = StrMap::new();
            let n = entries.len();
            let mut i: usize = 0;
            assert(em.take(0) =~= Seq::<(Seq<char>, JsonModel)>::empty());
            while i < n
                invariant
                    n == entries@.len(),
                    *value is Object,
                    (*value)->Object_0 == *entries,
                    em == entries_model(entries@),
                    em.len() == n,
                    forall|k: int| 0 <= k < n ==> #[trigger] em[k] == (entries@[k].0@, json_model(entries@[k].1)),
                    i <= n,
                    fields@ == infer_entries(em.take(i as int)),
                decreases n - i,
            {
                proof {
                    lemma_decreasing_index(*entries, i as int);
                    assert(decreases_to!(*value => (*value)->Object_0));
                    assert(decreases_to!(entries@[i as int] => entries@[i as int].1));
                    assert(em.take(i as int + 1).subrange(0, i as int) =~= em.take(i as int));
                    assert(em.take(i as int + 1)[i as int] == em[i as int]);
                }
                let s = infer_json_schema(&entries[i].1);
                fields.insert(entries[i].0.as_str(), s);
                i = i + 1;
            }
            proof {
                assert(em.take(n as int) =~= em);
            }
            let out = fields.into_entries();
            proof {
                lemma_fields_model(out@);
                assert(fields_model(out@) =~= crate::strmap::entries_view(out@));
            }
            SchemaNode::Object(out)
        },
    }
}


/// A step of a schema path: a field name or an array index.
#[derive(Debug, PartialEq, Eq)]
pub enum JsonPathToken {
    Field(String),
    Index(usize),
}

pub enum TokenModel {
    Field(Seq<char>),
    Index(usize),
}

impl View for JsonPathToken {
    type V = TokenModel;

    open spec fn view(&self) -> TokenModel {
        match self {
            JsonPathToken::Field(f) => TokenModel::Field(f@),
            JsonPathToken::Index(i) => TokenModel::Index(*i),
        }
    }
}

pub open spec fn tokens_view(v: Seq<JsonPathToken>) -> Seq<TokenModel> {
    v.map_values(|t: JsonPathToken| t@)
}

/// The tokens with the pending field name added, where there is one.
pub open spec fn flush(acc: Seq<TokenModel>, cur: Seq<char>) -> Seq<TokenModel> {
    if cur.len() > 0 {
        acc.push(TokenModel::Field(cur))
    } else {
        acc
    }
}

/// Where the first `]` of `s` is, or its length where it has none.
pub open spec fn close_at(s: Seq<char>) -> int
    decreases s.len(),
{
    if s.len() == 0 {
        0
    } else if s[0] == ']' {
        0
    } else {
        1 + close_at(s.drop_first())
    }
}

pub proof fn lemma_close_at(s: Seq<char>)
    ensures
        0 <= close_at(s) <= s.len(),
        close_at(s) < s.len() ==> s[close_at(s)] == ']',
        forall|j: int| 0 <= j < close_at(s) ==> s[j] != ']',
    decreases s.len(),
{
    if s.len() > 0 && s[0] != ']' {
        lemma_close_at(s.drop_first());
        assert forall|j: int| 0 <= j < close_at(s) implies s[j] != ']' by {
            if j > 0 {
                assert(s[j] == s.drop_first()[j - 1]);
            }
        }
    }
}

proof fn lemma_close_at_is(s: Seq<char>, m: int)
    requires
        0 <= m <= s.len(),
        m < s.len() ==> s[m] == ']',
        forall|j: int| 0 <= j < m ==> s[j] != ']',
    ensures
        close_at(s) == m,
{
    lemma_close_at(s);
    if close_at(s) < m {
        assert(s[close_at(s)] == ']');
    }
    if m < close_at(s) {
        assert(s[m] != ']');
    }
}

/// The tokens of the rest `s` of a path: fields split at `.` and `[`, an
/// index between `[` and `]` (or the end), parsed as a `usize`.
pub open spec fn tokens_from(s: Seq<char>, cur: Seq<char>, acc: Seq<TokenModel>) -> Result<Seq<TokenModel>, Seq<char>>
    decreases s.len(),
{
    if s.len() == 0 {
        Ok(flush(acc, cur))
    } else if s[0] == '.' {
        tokens_from(s.drop_first(), seq![], flush(acc, cur))
    } else if s[0] == '[' {
        let rest = s.drop_first();
        let k = close_at(rest);
        proof {
            lemma_close_at(rest);
        }
        let after = if k < rest.len() { rest.subrange(k + 1, rest.len() as int) } else { seq![] };
        match usize_field(rest.subrange(0, k), "schema path index"@) {
            Err(m) => Err(m),
            Ok(n) => tokens_from(after, seq![], flush(acc, cur).push(TokenModel::Index(n as usize))),
        }
    } else {
        tokens_from(s.drop_first(), cur.push(s[0]), acc)
    }
}

/// The tokens of a schema path, a leading `$` dropped.
pub open spec fn path_tokens(p: Seq<char>) -> Result<Seq<TokenModel>, Seq<char>> {
    let body = if p.len() > 0 && p[0] == '$' { p.drop_first() } else { p };
    tokens_from(body, seq![], seq![])
}

fn flush_field(tokens: &mut Vec<JsonPathToken>, cur: &mut String)
    ensures
        tokens_view(final(tokens)@) == flush(tokens_view(old(tokens)@), old(cur)@),
        final(cur)@ == Seq::<char>::empty(),
{
    if cur.unicode_len() > 0 {
        let mut f = String::new();
        std::mem::swap(&mut f, cur);
        let ghost before = tokens@;
        tokens.push(JsonPathToken::Field(f));
        proof {
            assert(tokens_view(tokens@) =~= tokens_view(before).push(TokenModel::Field(f@)));
        }
    } else {
        proof {
            assert(cur@ =~= Seq::<char>::empty());
        }
    }
}

/// Splits a schema path into its tokens, as `path_tokens` states.
pub fn parse_json_path(path: &str) -> (r: SwatResult<Vec<JsonPathToken>>)
    ensures
        match path_tokens(path@) {
            Ok(ts) => r matches Ok(v) && tokens_view(v@) == ts,
            Err(m) => r matches Err(e) && e@ == m,
        },
{
    let ghost p = path@;
    let n = path.unicode_len();
    let mut i: usize = 0;
    if n > 0 && path.get_char(0) == '$' {
        i = 1;
        assert(p.drop_first() =~= p.skip(1));
    } else {
        assert(p =~= p.skip(0));
    }
    let mut tokens: Vec<JsonPathToken> = Vec::new();
    let mut cur = String::new();
    assert(tokens_view(tokens@) =~= Seq::<TokenModel>::empty());
    while i < n
        invariant
            n == p.len(),
            p == path@,
            i <= n,
            path_tokens(p) == tokens_from(p.skip(i as int), cur@, tokens_view(tokens@)),
        decreases n - i,
    {
        let c = path.get_char(i);
        let ghost s = p.skip(i as int);
        proof {
            assert(s[0] == c);
            assert(s.drop_first() =~= p.skip(i as int + 1));
        }
        if c == '.' {
            flush_field(&mut tokens, &mut cur);
            i = i + 1;
        } else if c == '[' {
            let ghost acc0 = tokens_view(tokens@);
            let ghost cur0 = cur@;
            flush_field(&mut tokens, &mut cur);
            let mut j: usize = i + 1;
            while j < n && path.get_char(j) != ']'
                invariant
                    n == p.len(),
                    p == path@,
                    i + 1 <= j <= n,
                    forall|k: int| i + 1 <= k < j ==> p[k] != ']',
                decreases n - j,
            {
                j = j + 1;
            }
            let ghost rest = s.drop_first();
            let ghost k = j - (i + 1);
            proof {
                assert(rest =~= p.skip(i as int + 1));
                assert forall|q: int| 0 <= q < k implies rest[q] != ']' by {
                    assert(rest[q] == p[q + i + 1]);
                }
                if j < n {
                    assert(rest[k] == p[j as int]);
                }
                lemma_close_at_is(rest, k);
                assert(rest.subrange(0, k) =~= p.subrange(i as int + 1, j as int));
            }
            let idx = crate::text::substr(path, i + 1, j);
            match parse_uint_str(idx, usize::MAX as u64) {
                Err(e) => {
                    return Err(int_error_message(idx, "schema path index", e));
                },
                Ok(v) => {
                    let ghost before = tokens@;
                    tokens.push(JsonPathToken::Index(v as usize));
                    proof {
                        assert(tokens_view(tokens@) =~= tokens_view(before).push(TokenModel::Index(v as usize)));
                    }
                },
            }
            if j < n {
                proof {
                    assert(rest.subrange(k + 1, rest.len() as int) =~= p.skip(j as int + 1));
                }
                i = j + 1;
            } else {
                proof {
                    assert(p.skip(n as int) =~= Seq::<char>::empty());
                }
                i = n;
            }
        } else {
            crate::text::push_char(&mut cur, c);
            i = i + 1;
        }
    }
    proof {
        assert(p.skip(n as int) =~= Seq::<char>::empty());
    }
    flush_field(&mut tokens, &mut cur);
    Ok(tokens)
}


/// The schema of the first field named `k`.
pub open spec fn field_value(fs: Seq<(Seq<char>, SchemaModel)>, k: Seq<char>) -> Option<SchemaModel>
    decreases fs.len(),
{
    if fs.len() == 0 {
        None
    } else if fs[0].0 == k {
        Some(fs[0].1)
    } else {
        field_value(fs.drop_first(), k)
    }
}

/// The schema at tokens `ts` under `s`: a field of an object, the items of
/// an array for any index; at a union, the merge of what each option has
/// at the next token alone (the tokens after it are not followed), none
/// where no option has it.
pub open spec fn lookup_tokens(s: SchemaModel, ts: Seq<TokenModel>) -> Option<SchemaModel>
    decreases ts.len(), s,
{
    if ts.len() == 0 {
        Some(s)
    } else {
        match s {
            SchemaModel::Object(fields) => match ts[0] {
                TokenModel::Field(f) => match field_value(fields, f) {
                    Some(next) => lookup_tokens(next, ts.drop_first()),
                    None => None,
                },
                _ => None,
            },
            SchemaModel::Array(item) => match ts[0] {
                TokenModel::Index(_) => lookup_tokens(*item, ts.drop_first()),
                _ => None,
            },
            SchemaModel::Union(options) => {
                let resolved = union_resolve(options, ts[0]);
                if resolved.len() == 0 {
                    None
                } else {
                    Some(merge(resolved))
                }
            },
            _ => None,
        }
    }
}

/// What each option has at token `t`, in order, the options without it
/// left out.
pub open spec fn union_resolve(os: Seq<SchemaModel>, t: TokenModel) -> Seq<SchemaModel>
    decreases 1nat, os,
{
    if os.len() == 0 {
        seq![]
    } else {
        let prev = union_resolve(os.subrange(0, os.len() - 1), t);
        match lookup_tokens(os[os.len() - 1], seq![t]) {
            Some(x) => prev.push(x),
            None => prev,
        }
    }
}

pub open spec fn opt_schema(o: Option<SchemaNode>) -> Option<SchemaModel> {
    match o {
        Some(s) => Some(s@),
        None => None,
    }
}

fn copy_token(t: &JsonPathToken) -> (r: JsonPathToken)
    ensures
        r@ == t@,
{
    match t {
        JsonPathToken::Field(f) => JsonPathToken::Field(owned(f.as_str())),
        JsonPathToken::Index(i) => JsonPathToken::Index(*i),
    }
}

fn field_of<'a>(fields: &'a Vec<(String, SchemaNode)>, k: &str) -> (r: Option<&'a SchemaNode>)
    ensures
        match r {
            Some(v) => field_value(fields_model(fields@), k@) == Some(v@),
            None => field_value(fields_model(fields@), k@) is None,
        },
{
    proof {
        lemma_fields_model(fields@);
    }
    let ghost fm = fields_model(fields@);
    let n = fields.len();
    let mut i: usize = 0;
    assert(fm.skip(0) =~= fm);
    while i < n
        invariant
            n == fields@.len(),
            fm == fields_model(fields@),
            fm.len() == n,
            forall|q: int| 0 <= q < n ==> #[trigger] fm[q] == (fields@[q].0@, schema_model(fields@[q].1)),
            i <= n,
            field_value(fm, k@) == field_value(fm.skip(i as int), k@),
        decreases n - i,
    {
        proof {
            assert(fm.skip(i as int)[0] == fm[i as int]);
            assert(fm.skip(i as int).drop_first() =~= fm.skip(i as int + 1));
        }
        if crate::text::str_eq(fields[i].0.as_str(), k) {
            return Some(&fields[i].1);
        }
        i = i + 1;
    }
    None
}

fn lookup_from(schema: &SchemaNode, tokens: &Vec<JsonPathToken>, start: usize) -> (r: Option<SchemaNode>)
    requires
        start <= tokens@.len(),
    ensures
        opt_schema(r) == lookup_tokens(schema@, tokens_view(tokens@).skip(start as int)),
    decreases tokens@.len() - start, schema,
{
    let ghost ts = tokens_view(tokens@).skip(start as int);
    if start == tokens.len() {
        assert(ts.len() == 0);
        return Some(schema.duplicate());
    }
    proof {
        assert(ts[0] == tokens@[start as int]@);
        assert(ts.drop_first() =~= tokens_view(tokens@).skip(start as int + 1));
    }
    match schema {
        SchemaNode::Object(fields) => match &tokens[start] {
            JsonPathToken::Field(f) => match field_of(fields, f.as_str()) {
                Some(next) => lookup_from(next, tokens, start + 1),
                None => None,
            },
            _ => None,
        },
        SchemaNode::Array(item) => match &tokens[start] {
            JsonPathToken::Index(_) => lookup_from(item, tokens, start + 1),
            _ => None,
        },
        SchemaNode::Union(options) => {
            proof {
                lemma_options_model(options@);
            }
            let ghost om = options_model(options@);
            let ghost t = ts[0];
            let mut resolved: Vec<SchemaNode> = Vec::new();
            let n = options.len();
            let mut i: usize = 0;
            assert(om.take(0) =~= Seq::<SchemaModel>::empty());
            while i < n
                invariant
                    n == options@.len(),
                    *schema is Union,
                    (*schema)->Union_0 == *options,
                    start < tokens@.len(),
                    t == tokens@[start as int]@,
                    om == options_model(options@),
                    om.len() == n,
                    forall|q: int| 0 <= q < n ==> #[trigger] om[q] == schema_model(options@[q]),
                    i <= n,
                    options_model(resolved@) == union_resolve(om.take(i as int), t),
                decreases n - i,
            {
                proof {
                    lemma_decreasing_index(*options, i as int);
                    assert(decreases_to!(*schema => (*schema)->Union_0));
                    assert(om.take(i as int + 1).subrange(0, i as int) =~= om.take(i as int));
                    assert(om.take(i as int + 1)[i as int] == om[i as int]);
                }
                let single = vec![copy_token(&tokens[start])];
                proof {
                    assert(tokens_view(single@).skip(0) =~= seq![t]);
                }
                let found = lookup_from(&options[i], &single, 0);
                match found {
                    Some(x) => {
                        let ghost before = resolved@;
                        resolved.push(x);
                        proof {
                            lemma_options_model(before);
                            lemma_options_model(resolved@);
                            assert(options_model(resolved@) =~= options_model(before).push(x@));
                        }
                    },
                    None => {},
                }
                i = i + 1;
            }
            proof {
                assert(om.take(n as int) =~= om);
                lemma_options_model(resolved@);
            }
            if resolved.len() == 0 {
                None
            } else {
                Some(merge_schemas(resolved))
            }
        },
        _ => None,
    }
}

/// The schema at `path` under `schema`, as `lookup_tokens` states; the
/// error of a path whose index is no `usize`.
pub fn lookup_schema_path(schema: &SchemaNode, path: &str) -> (r: SwatResult<Option<SchemaNode>>)
    ensures
        match path_tokens(path@) {
            Ok(ts) => r matches Ok(o) && opt_schema(o) == lookup_tokens(schema@, ts),
            Err(m) => r matches Err(e) && e@ == m,
        },
{
    let tokens = match parse_json_path(path) {
        Ok(t) => t,
        Err(e) => {
            return Err(e);
        },
    };
    proof {
        assert(tokens_view(tokens@).skip(0) =~= tokens_view(tokens@));
    }
    Ok(lookup_from(schema, &tokens, 0))
}

/// Every object of `s`, however deep, lists its fields in strictly
/// increasing key order, so that no key appears twice.
pub open spec fn schema_wf(s: SchemaModel) -> bool
    decreases s,
{
    match s {
        SchemaModel::Array(item) => schema_wf(*item),
        SchemaModel::Object(fields) => sorted_keys(fields) && fields_wf(fields),
        SchemaModel::Union(options) => options_wf(options),
        _ => true,
    }
}

/// The schemas of the fields `fs` are well formed.
pub open spec fn fields_wf(fs: Seq<(Seq<char>, SchemaModel)>) -> bool
    decreases fs,
{
    if fs.len() == 0 {
        true
    } else {
        fields_wf(fs.subrange(0, fs.len() - 1)) && schema_wf(fs[fs.len() - 1].1)
    }
}

/// The options `os` are well formed.
pub open spec fn options_wf(os: Seq<SchemaModel>) -> bool
    decreases os,
{
    if os.len() == 0 {
        true
    } else {
        options_wf(os.subrange(0, os.len() - 1)) && schema_wf(os[os.len() - 1])
    }
}

proof fn lemma_fields_wf(fs: Seq<(Seq<char>, SchemaModel)>)
    ensures
        fields_wf(fs) <==> forall|i: int| 0 <= i < fs.len() ==> schema_wf(#[trigger] fs[i].1),
    decreases fs.len(),
{
    if fs.len() > 0 {
        let p = fs.subrange(0, fs.len() - 1);
        lemma_fields_wf(p);
        assert forall|i: int| 0 <= i < p.len() implies p[i] == fs[i] by {}
    }
}

proof fn lemma_options_wf(os: Seq<SchemaModel>)
    ensures
        options_wf(os) <==> forall|i: int| 0 <= i < os.len() ==> schema_wf(#[trigger] os[i]),
    decreases os.len(),
{
    if os.len() > 0 {
        let p = os.subrange(0, os.len() - 1);
        lemma_options_wf(p);
        assert forall|i: int| 0 <= i < p.len() implies p[i] == os[i] by {}
    }
}

proof fn lemma_lower_bound_le<V>(s: Seq<(Seq<char>, V)>, k: Seq<char>)
    ensures
        crate::strmap::lower_bound(s, k) <= s.len(),
    decreases s.len(),
{
    if s.len() > 0 {
        lemma_lower_bound_le(s.drop_first(), k);
    }
}

/// A value of `with_key(s, k, v)` is `v` or a value of `s`.
proof fn lemma_with_key_values(s: Seq<(Seq<char>, SchemaModel)>, k: Seq<char>, v: SchemaModel)
    requires
        forall|i: int| 0 <= i < s.len() ==> schema_wf(#[trigger] s[i].1),
        schema_wf(v),
    ensures
        forall|i: int| 0 <= i < with_key(s, k, v).len() ==> schema_wf(#[trigger] with_key(s, k, v)[i].1),
{
    lemma_lower_bound_le(s, k);
    let p = crate::strmap::lower_bound(s, k) as int;
    let w = with_key(s, k, v);
    assert forall|i: int| 0 <= i < w.len() implies schema_wf(#[trigger] w[i].1) by {
        if p < s.len() && s[p].0 == k {
            if i != p {
                assert(w[i] == s[i]);
            }
        } else {
            if i < p {
                assert(w[i] == s[i]);
            } else if i > p {
                assert(w[i] == s[i - 1]);
            }
        }
    }
}

proof fn lemma_unique_by_text_wf(ss: Seq<SchemaModel>)
    requires
        forall|i: int| 0 <= i < ss.len() ==> schema_wf(#[trigger] ss[i]),
    ensures
        forall|i: int|
            0 <= i < unique_by_text(ss).len() ==> schema_wf(#[trigger] unique_by_text(ss)[i].1),
    decreases ss.len(),
{
    if ss.len() > 0 {
        let p = ss.drop_last();
        assert forall|i: int| 0 <= i < p.len() implies schema_wf(#[trigger] p[i]) by {
            assert(p[i] == ss[i]);
        }
        lemma_unique_by_text_wf(p);
        let u = unique_by_text(p);
        if !has_key(u, schema_text(ss.last())) {
            lemma_with_key_values(u, schema_text(ss.last()), ss.last());
        }
    }
}

/// Merging well-formed schemas gives a well-formed schema.
pub proof fn law_merge_keeps_well_formed(ss: Seq<SchemaModel>)
    requires
        forall|i: int| 0 <= i < ss.len() ==> schema_wf(#[trigger] ss[i]),
    ensures
        schema_wf(merge(ss)),
{
    lemma_unique_by_text_wf(ss);
    let d = unique_by_text(ss).map_values(|e: (Seq<char>, SchemaModel)| e.1);
    assert forall|i: int| 0 <= i < d.len() implies schema_wf(#[trigger] d[i]) by {
        assert(d[i] == unique_by_text(ss)[i].1);
    }
    lemma_options_wf(d);
}

proof fn lemma_infer_items_wf(vs: Seq<JsonModel>)
    ensures
        forall|i: int| 0 <= i < infer_items(vs).len() ==> schema_wf(#[trigger] infer_items(vs)[i]),
    decreases vs,
{
    lemma_infer_items(vs);
    assert forall|i: int| 0 <= i < infer_items(vs).len() implies schema_wf(#[trigger] infer_items(vs)[i]) by {
        assert(decreases_to!(vs => vs[i]));
        law_inferred_schema_well_formed(vs[i]);
    }
}

proof fn lemma_infer_entries_wf(es: Seq<(Seq<char>, JsonModel)>)
    ensures
        sorted_keys(infer_entries(es)),
        forall|i: int| 0 <= i < infer_entries(es).len() ==> schema_wf(#[trigger] infer_entries(es)[i].1),
    decreases es,
{
    if es.len() > 0 {
        let p = es.subrange(0, es.len() - 1);
        assert(decreases_to!(es => p));
        lemma_infer_entries_wf(p);
        let last = es[es.len() - 1];
        assert(decreases_to!(es => es[es.len() - 1].1));
        law_inferred_schema_well_formed(last.1);
        crate::strmap::lemma_with_key_sorted(infer_entries(p), last.0, infer(last.1));
        lemma_with_key_values(infer_entries(p), last.0, infer(last.1));
    }
}

/// An inferred schema lists the fields of every object, however deep, in
/// strictly increasing key order, each key once.
pub proof fn law_inferred_schema_well_formed(v: JsonModel)
    ensures
        schema_wf(infer(v)),
    decreases v,
{
    match v {
        JsonModel::Array(items) => {
            if items.len() > 0 {
                lemma_infer_items_wf(items);
                law_merge_keeps_well_formed(infer_items(items));
            } else {
                assert(schema_wf(SchemaModel::Any));
            }
        },
        JsonModel::Object(entries) => {
            lemma_infer_entries_wf(entries);
            lemma_fields_wf(infer_entries(entries));
        },
        _ => {},
    }
}

/// The path of item `i` of the array at `path`.
pub open spec fn item_path(path: Seq<char>, i: int) -> Seq<char> {
    path + "["@ + decimal(i as nat) + "]"@
}

proof fn lemma_items_contain(
    items: Seq<JsonModel>,
    item: SchemaModel,
    path: Seq<char>,
    n: nat,
    i: int,
    k: int,
)
    requires
        n <= items.len(),
        0 <= i < n,
        0 <= k < validate_at(items[i], item, item_path(path, i)).len(),
    ensures
        validate_items(items, item, path, n).contains(validate_at(items[i], item, item_path(path, i))[k]),
    decreases n,
{
    let prev = validate_items(items, item, path, (n - 1) as nat);
    let last = validate_at(items[n - 1], item, item_path(path, n - 1));
    assert(validate_items(items, item, path, n) == prev + last);
    if i == n - 1 {
        assert((prev + last)[prev.len() + k] == last[k]);
    } else {
        lemma_items_contain(items, item, path, (n - 1) as nat, i, k);
        let j = choose|j: int| 0 <= j < prev.len() && prev[j] == validate_at(items[i], item, item_path(path, i))[k];
        assert((prev + last)[j] == prev[j]);
    }
}

proof fn lemma_items_empty(items: Seq<JsonModel>, item: SchemaModel, path: Seq<char>, n: nat)
    requires
        n <= items.len(),
    ensures
        validate_items(items, item, path, n).len() == 0 <==> forall|i: int|
            0 <= i < n ==> (#[trigger] validate_at(items[i], item, item_path(path, i))).len() == 0,
    decreases n,
{
    if n > 0 {
        lemma_items_empty(items, item, path, (n - 1) as nat);
        let prev = validate_items(items, item, path, (n - 1) as nat);
        let last = validate_at(items[n - 1], item, item_path(path, n - 1));
        assert(validate_items(items, item, path, n) == prev + last);
        assert((prev + last).len() == prev.len() + last.len());
    }
}

/// Every item of an array is checked against the item schema: each
/// mismatch of item `i` (the first one too) at `path[i]` is a mismatch of
/// the array, and the array is valid exactly when every item is.
pub proof fn law_every_array_item_is_checked(items: Seq<JsonModel>, item: SchemaModel, path: Seq<char>)
    ensures
        forall|i: int, k: int|
            0 <= i < items.len() && 0 <= k < validate_at(items[i], item, item_path(path, i)).len() ==> validate_at(
                JsonModel::Array(items),
                SchemaModel::Array(Box::new(item)),
                path,
            ).contains(#[trigger] validate_at(items[i], item, item_path(path, i))[k]),
        validate_at(JsonModel::Array(items), SchemaModel::Array(Box::new(item)), path).len() == 0 <==> forall|i: int|
            0 <= i < items.len() ==> (#[trigger] validate_at(items[i], item, item_path(path, i))).len() == 0,
{
    assert forall|i: int, k: int|
        0 <= i < items.len() && 0 <= k < validate_at(items[i], item, item_path(path, i)).len() implies validate_at(
            JsonModel::Array(items),
            SchemaModel::Array(Box::new(item)),
            path,
        ).contains(#[trigger] validate_at(items[i], item, item_path(path, i))[k]) by {
        lemma_items_contain(items, item, path, items.len(), i, k);
    }
    lemma_items_empty(items, item, path, items.len());
}

} // verus!
