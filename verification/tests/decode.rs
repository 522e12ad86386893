use asyncapi::AsyncAPI;
use asyncapi::DecodeError;
use asyncapi::Discriminator;
use asyncapi::Value;

fn key(k: &str, v: Value) -> (String, Value) {
    (k.to_string(), v)
}

fn text(s: &str) -> Value {
    Value::Str(s.to_string())
}

fn minimal_document() -> Value {
    Value::Object(vec![
        key("asyncapi", text("2.0.0")),
        key(
            "info",
            Value::Object(vec![key("title", text("T")), key("version", text("1"))]),
        ),
        key("channels", Value::Object(vec![])),
    ])
}

#[test]
fn test_minimal_document_decodes() {
    let doc = AsyncAPI::decode(&minimal_document()).expect("minimal document must decode");
    assert_eq!(doc.asyncapi, "2.0.0".to_string());
    assert_eq!(doc.info.title, "T".to_string());
    assert_eq!(doc.info.version, "1".to_string());
    assert!(doc.channels.is_empty());
    assert!(doc.extensions.is_empty());
    assert!(doc.servers.is_empty());
    assert!(doc.components.is_none());
    assert!(doc.id.is_none());
}

#[test]
fn test_document_without_channels_is_rejected() {
    let v = Value::Object(vec![
        key("asyncapi", text("2.0.0")),
        key(
            "info",
            Value::Object(vec![key("title", text("T")), key("version", text("1"))]),
        ),
    ]);
    assert_eq!(AsyncAPI::decode(&v), Err(DecodeError::RequiredFieldMissing));
}

#[test]
fn test_document_without_info_is_rejected() {
    let v = Value::Object(vec![
        key("asyncapi", text("2.0.0")),
        key("channels", Value::Object(vec![])),
    ]);
    assert_eq!(AsyncAPI::decode(&v), Err(DecodeError::RequiredFieldMissing));
}

#[test]
fn test_info_title_of_wrong_kind_is_rejected() {
    let v = Value::Object(vec![
        key("asyncapi", text("2.0.0")),
        key(
            "info",
            Value::Object(vec![key("title", Value::Int(42)), key("version", text("1"))]),
        ),
        key("channels", Value::Object(vec![])),
    ]);
    assert_eq!(AsyncAPI::decode(&v), Err(DecodeError::StructuralMismatch));
}

#[test]
fn test_document_is_not_a_bare_scalar() {
    assert_eq!(
        AsyncAPI::decode(&Value::Bool(true)),
        Err(DecodeError::StructuralMismatch)
    );
}

#[test]
fn test_top_level_extensions_are_captured_in_order() {
    let v = Value::Object(vec![
        key("asyncapi", text("2.0.0")),
        key("x-b", Value::Int(2)),
        key(
            "info",
            Value::Object(vec![key("title", text("T")), key("version", text("1"))]),
        ),
        key("channels", Value::Object(vec![])),
        key("x-a", Value::Int(1)),
    ]);
    let doc = AsyncAPI::decode(&v).expect("document must decode");
    assert_eq!(
        doc.extensions,
        vec![key("x-b", Value::Int(2)), key("x-a", Value::Int(1))]
    );
}

#[test]
fn test_discriminator_requires_property_name() {
    let v = Value::Object(vec![]);
    assert_eq!(
        Discriminator::decode(&v),
        Err(DecodeError::RequiredFieldMissing)
    );
}

#[test]
fn test_discriminator_mapping_preserved() {
    let v = Value::Object(vec![
        key("propertyName", text("petType")),
        key(
            "mapping",
            Value::Object(vec![key("dog", text("#/components/schemas/Dog"))]),
        ),
    ]);
    let d = Discriminator::decode(&v).expect("discriminator must decode");
    assert_eq!(d.property_name, "petType".to_string());
    assert_eq!(
        d.mapping,
        vec![("dog".to_string(), "#/components/schemas/Dog".to_string())]
    );
    let back = d.encode();
    assert!(back.deep_eq(&v));
}

#[test]
fn test_first_occurrence_of_a_duplicated_key_wins() {
    let v = Value::Object(vec![
        key("propertyName", text("first")),
        key("propertyName", text("second")),
    ]);
    let d = Discriminator::decode(&v).expect("discriminator must decode");
    assert_eq!(d.property_name, "first".to_string());
}

#[test]
fn test_deep_eq_and_deep_clone() {
    let v = Value::Object(vec![
        key("a", Value::List(vec![Value::Null, Value::Bool(true), Value::Int(-3)])),
        key("b", text("x")),
    ]);
    let c = v.deep_clone();
    assert!(v.deep_eq(&c));
    assert_eq!(v, c);
    let other = Value::Object(vec![key("a", Value::List(vec![Value::Null]))]);
    assert!(!v.deep_eq(&other));
}
