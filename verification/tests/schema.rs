use swat::schema::{
    infer_json_schema, lookup_schema_path, merge_schemas, parse_json_path, validate_json,
    JsonPathToken, JsonValue, SchemaNode,
};

fn text(s: &str) -> JsonValue {
    JsonValue::String(s.to_string())
}

fn number(s: &str) -> JsonValue {
    JsonValue::Number(s.to_string())
}

fn object(entries: Vec<(&str, JsonValue)>) -> JsonValue {
    JsonValue::Object(entries.into_iter().map(|(k, v)| (k.to_string(), v)).collect())
}

fn schema_object(fields: Vec<(&str, SchemaNode)>) -> SchemaNode {
    SchemaNode::Object(fields.into_iter().map(|(k, v)| (k.to_string(), v)).collect())
}

#[test]
fn infers_object_schema_in_key_order() {
    let value = object(vec![
        ("tool", text("search")),
        ("count", number("3")),
        ("tags", JsonValue::Array(vec![text("a"), number("1"), text("b")])),
        ("empty", JsonValue::Array(Vec::new())),
        ("flag", JsonValue::Bool(true)),
        ("nothing", JsonValue::Null),
    ]);
    let schema = infer_json_schema(&value);
    assert_eq!(
        schema.to_string(),
        "object{count: number, empty: array<any>, flag: bool, nothing: null, tags: array<number | string>, tool: string}"
    );
    assert_eq!(lookup_schema_path(&schema, "$.tool").unwrap(), Some(SchemaNode::String));
    assert_eq!(
        lookup_schema_path(&schema, "$.tags[0]").unwrap(),
        Some(SchemaNode::Union(vec![SchemaNode::Number, SchemaNode::String]))
    );
    assert_eq!(lookup_schema_path(&schema, "$.missing").unwrap(), None);
    assert_eq!(lookup_schema_path(&schema, "$.tool.deeper").unwrap(), None);
}

#[test]
fn later_duplicate_keys_win_when_inferring() {
    let value = object(vec![("a", text("x")), ("a", number("1"))]);
    assert_eq!(infer_json_schema(&value), schema_object(vec![("a", SchemaNode::Number)]));
}

#[test]
fn schema_paths_parse_fields_and_indices() {
    assert_eq!(
        parse_json_path("$.args[12].name").unwrap(),
        vec![
            JsonPathToken::Field("args".to_string()),
            JsonPathToken::Index(12),
            JsonPathToken::Field("name".to_string()),
        ]
    );
    assert_eq!(parse_json_path("$").unwrap(), Vec::new());
    assert_eq!(parse_json_path("a..b").unwrap().len(), 2);
    assert_eq!(parse_json_path("$[+3").unwrap(), vec![JsonPathToken::Index(3)]);
    assert_eq!(
        parse_json_path("$.tags[x]").unwrap_err().to_string(),
        "invalid schema path index 'x': invalid digit found in string"
    );
    assert_eq!(
        parse_json_path("$.tags[]").unwrap_err().to_string(),
        "invalid schema path index '': cannot parse integer from empty string"
    );
    let schema = SchemaNode::Any;
    assert_eq!(
        lookup_schema_path(&schema, "$[99999999999999999999999]").unwrap_err().to_string(),
        "invalid schema path index '99999999999999999999999': number too large to fit in target type"
    );
}

#[test]
fn union_lookup_merges_options_at_the_next_token_only() {
    let schema = SchemaNode::Union(vec![
        schema_object(vec![("a", SchemaNode::Number)]),
        schema_object(vec![("a", SchemaNode::String), ("b", SchemaNode::Bool)]),
    ]);
    assert_eq!(
        lookup_schema_path(&schema, "$.a").unwrap(),
        Some(SchemaNode::Union(vec![SchemaNode::Number, SchemaNode::String]))
    );
    assert_eq!(lookup_schema_path(&schema, "$.b.c").unwrap(), Some(SchemaNode::Bool));
    assert_eq!(lookup_schema_path(&schema, "$.z").unwrap(), None);
    assert_eq!(lookup_schema_path(&schema, "$").unwrap().unwrap().to_string(), schema.to_string());
}

#[test]
fn merging_keeps_one_schema_per_text() {
    assert_eq!(
        merge_schemas(vec![SchemaNode::String, SchemaNode::Number, SchemaNode::String]),
        SchemaNode::Union(vec![SchemaNode::Number, SchemaNode::String])
    );
    assert_eq!(merge_schemas(vec![SchemaNode::Bool, SchemaNode::Bool]), SchemaNode::Bool);
    assert_eq!(merge_schemas(Vec::new()), SchemaNode::Union(Vec::new()));
    assert_eq!(SchemaNode::Union(Vec::new()).to_string(), "");
}

#[test]
fn reports_schema_mismatches_with_paths() {
    let value = object(vec![("tool", text("search")), ("count", text("three"))]);
    let schema = schema_object(vec![
        ("args", SchemaNode::Array(Box::new(SchemaNode::String))),
        ("count", SchemaNode::Number),
        ("tool", SchemaNode::String),
    ]);
    let validation = validate_json(&value, &schema);
    assert!(!validation.is_valid());
    assert_eq!(validation.mismatches.len(), 2);
    assert_eq!(validation.mismatches[0].path, "$.args");
    assert_eq!(validation.mismatches[0].expected, "array<string>");
    assert_eq!(validation.mismatches[0].actual, "missing");
    assert_eq!(validation.mismatches[1].path, "$.count");
    assert_eq!(validation.mismatches[1].expected, "number");
    assert_eq!(validation.mismatches[1].actual, "string");

    let items = JsonValue::Array(vec![text("a"), number("2")]);
    let checked = validate_json(&items, &SchemaNode::Array(Box::new(SchemaNode::String)));
    assert_eq!(checked.mismatches.len(), 1);
    assert_eq!(checked.mismatches[0].path, "$[1]");
    assert_eq!(checked.mismatches[0].actual, "number");
}

#[test]
fn unions_accept_any_matching_option() {
    let schema = SchemaNode::Union(vec![SchemaNode::String, SchemaNode::Bool]);
    assert!(validate_json(&JsonValue::Bool(false), &schema).is_valid());
    let bad = validate_json(&number("3"), &schema);
    assert_eq!(bad.mismatches.len(), 1);
    assert_eq!(bad.mismatches[0].path, "$");
    assert_eq!(bad.mismatches[0].expected, "string | bool");
    assert_eq!(bad.mismatches[0].actual, "number");
    assert!(validate_json(&object(vec![]), &SchemaNode::Any).is_valid());
    let wrong = validate_json(&text("x"), &schema_object(vec![("a", SchemaNode::Null)]));
    assert_eq!(wrong.mismatches[0].expected, "object{a: null}");
    assert_eq!(wrong.mismatches[0].actual, "string");
}
