use aiken_mcp::blueprint::{
    blueprint_from_raw, blueprint_missing, blueprint_path, validator_from_raw, JsonBlueprintReader,
    RawParam, RawSchemaWrapper, RawValidator,
};

#[test]
fn parses_minimal_blueprint() {
    let _reader = JsonBlueprintReader::new();
    let v = RawValidator {
        title: "foo.spend".to_string(),
        hash: Some("deadbeef".to_string()),
        compiled_code: Some("abcd1234".to_string()),
        parameters: None,
        datum: None,
        redeemer: None,
    };
    let bp = blueprint_from_raw(serde_json::Value::Null, vec![v]);
    assert_eq!(bp.validators.len(), 1);
    assert_eq!(bp.validators[0].title, "foo.spend");
    assert_eq!(bp.validators[0].compiled_size_bytes, Some(4));
}

#[test]
fn missing_schemas_become_null() {
    let v = RawValidator {
        title: "t".to_string(),
        hash: None,
        compiled_code: None,
        parameters: Some(vec![
            RawParam { title: "p1".to_string(), schema: None },
            RawParam { title: "p2".to_string(), schema: Some(serde_json::Value::Bool(true)) },
        ]),
        datum: Some(RawSchemaWrapper { schema: None }),
        redeemer: None,
    };
    let out = validator_from_raw(v);
    assert_eq!(out.compiled_size_bytes, None);
    assert_eq!(out.parameters.len(), 2);
    assert_eq!(out.parameters[0].schema, serde_json::Value::Null);
    assert_eq!(out.parameters[1].schema, serde_json::Value::Bool(true));
    assert_eq!(out.datum, Some(serde_json::Value::Null));
    assert!(out.redeemer.is_none());
}

#[test]
fn errors_when_missing() {
    let path = blueprint_path("/proj");
    assert_eq!(path, "/proj/plutus.json");
    let err = blueprint_missing(&path);
    assert!(err.message().contains("plutus.json not found"));
}
