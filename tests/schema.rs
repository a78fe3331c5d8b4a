use provenance::schema::{schema_verdict, validate_schema, SchemaError};

const SCHEMA: &str = "{\"type\":\"object\",\"required\":[\"version\",\"artifacts\"],\"properties\":{\"version\":{\"type\":\"integer\"},\"artifacts\":{\"type\":\"array\"}}}";

#[test]
fn schema_violations_are_reported() {
    let bad: serde_json::Value = serde_json::from_str(
        "{\"version\":1,\"repo\":\"acme/provenance\",\"commit\":\"0123457\",\"front_page\":{\"title\":\"T\",\"markup\":\"ci/front_page.pml\"}}",
    )
    .unwrap();
    match validate_schema(&bad, SCHEMA) {
        Err(SchemaError::Violations(v)) => {
            assert_eq!(v.len(), 1);
            assert!(v[0].contains("artifacts"));
        }
        _ => panic!("must fail"),
    }
}

#[test]
fn schema_success_and_bad_schema() {
    let good: serde_json::Value = serde_json::from_str("{\"version\":1,\"artifacts\":[]}").unwrap();
    assert!(validate_schema(&good, SCHEMA).is_ok());
    assert!(matches!(validate_schema(&good, "{not json"), Err(SchemaError::BadSchema(_))));
}

#[test]
fn verdict_of_engine_answers() {
    assert!(schema_verdict(Ok(vec![])).is_ok());
    assert!(matches!(schema_verdict(Ok(vec!["x at /a".to_string()])), Err(SchemaError::Violations(v)) if v == vec!["x at /a".to_string()]));
    assert!(matches!(schema_verdict(Err("bad".to_string())), Err(SchemaError::BadSchema(m)) if m == "bad"));
}
