use swat::expr::{parse_event_kind, parse_expression, QueriedValue, QueryExpr, QueryField, QueryValue};
use swat::model::EventKind;

#[test]
fn parses_basic_query_language() {
    let expr = parse_expression(
        r#"kind == ModelBoundary and artifact.json $.tool == "search" and artifact.text contains "call-tool""#,
    )
    .unwrap();

    match expr {
        QueryExpr::And(parts) => assert_eq!(parts.len(), 3),
        other => panic!("unexpected parsed expr: {other:?}"),
    }
}

#[test]
fn parses_literal_variants() {
    let expr =
        parse_expression(r#"artifact.json $.ok == true or artifact.json $.count == 3"#).unwrap();
    match expr {
        QueryExpr::Or(parts) => {
            assert_eq!(parts.len(), 2);
            assert_eq!(
                parts[0],
                QueryExpr::ArtifactJsonPathEquals {
                    path: "$.ok".to_string(),
                    expected: QueriedValue::Bool(true),
                }
            );
        }
        other => panic!("unexpected expr: {other:?}"),
    }
}

#[test]
fn parses_kind_comparison_and_negation() {
    let expr = parse_expression("not kind == Lifecycle").unwrap();
    match expr {
        QueryExpr::Not(inner) => assert_eq!(
            *inner,
            QueryExpr::FieldEquals {
                field: QueryField::Kind,
                expected: QueryValue::Kind(EventKind::Lifecycle),
            }
        ),
        other => panic!("unexpected expr: {other:?}"),
    }
}

#[test]
fn rejects_trailing_tokens_and_unknown_kinds() {
    let err = parse_expression("kind == ModelBoundary )").unwrap_err();
    assert_eq!(err.to_string(), "unexpected trailing tokens in expression");
    let err = parse_event_kind("Nope").unwrap_err();
    assert!(err.to_string().contains("Nope"));
    assert_eq!(parse_event_kind("ModelBoundary").unwrap(), EventKind::ModelBoundary);
}

#[test]
fn parses_null_and_number_literals() {
    let expr = parse_expression("artifact.json $.value == null").unwrap();
    assert_eq!(
        expr,
        QueryExpr::ArtifactJsonPathEquals { path: "$.value".to_string(), expected: QueriedValue::Null }
    );
    let expr = parse_expression("artifact.json $.count == 3").unwrap();
    assert_eq!(
        expr,
        QueryExpr::ArtifactJsonPathEquals {
            path: "$.count".to_string(),
            expected: QueriedValue::Number("3".to_string()),
        }
    );
}
